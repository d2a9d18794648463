use task_kernel::config::{KernelSymbols, CPU_NUM, MEMORY_END, PAGE_SIZE, TRAMPOLINE};
use task_kernel::coroutine::kernel_stackful_coroutine::{kthread_create, kthread_stop};
use task_kernel::kernel::Kernel;
use task_kernel::mm::{LoadedImage, MapArea, MemorySet, MAP_R, MAP_W};
use task_kernel::task::add_initproc;
use task_kernel::task::kthread::{
    create_kthread, do_exit, exit_kthread_and_run_next, kthread_should_stop, kthread_yield, kthreadd_create,
    send_kthread_stop, wait_for_completion, KthreadBits, STACK_SIZE,
};
use task_kernel::task::manager::pid2task;
use task_kernel::task::pid::KernelStack;
use task_kernel::task::processor::{current_task, ContextSlot, Processor, SwitchRequest};
use task_kernel::task::task::{TaskControlBlock, TaskStatus};
use task_kernel::trap::{current_trap_cx_user_va, trap_return};

const SPIE: usize = 1 << 5;
const SPP: usize = 1 << 8;
const KTHREADD: usize = 0x8020_8000;

fn symbols() -> KernelSymbols {
    KernelSymbols {
        kernel_token: 0x8000_0000_0008_0000,
        trap_handler: 0x8020_1000,
        trap_from_kernel: 0x8020_2000,
        trap_return: 0x8020_3000,
        alltraps: 0x8020_5000,
        alltraps_k: 0x8020_5080,
        restore: 0x8020_5040,
    }
}

fn task(kernel: &Kernel, pid: usize) -> &TaskControlBlock {
    pid2task(&kernel.pid2tcb, pid).unwrap()
}

fn ready(kernel: &Kernel) -> Vec<usize> {
    kernel.task_manager.ready_queue.iter().copied().collect()
}

/// A kernel with the supervisor of kernel threads running on core 0.
fn with_supervisor() -> Kernel {
    let mut kernel = Kernel::new(symbols());
    kernel.kernel_space.insert_framed_area(0x8020_0000, 0x8040_0000, MAP_R | MAP_W);
    assert!(!kernel.has_room_for_kthread());
    kthreadd_create(&mut kernel, KTHREADD, 0x700, 0);
    assert!(kernel.has_room_for_kthread());
    assert_eq!(Processor::run(&mut kernel, 0).unwrap().load, ContextSlot::Task(0));
    kernel
}

#[test]
fn the_supervisor_has_identity_zero() {
    let mut kernel = Kernel::new(symbols());
    kthreadd_create(&mut kernel, KTHREADD, 0x700, 0);
    let t = task(&kernel, 0);
    assert_eq!(t.pid.0, 0);
    assert_eq!(t.tgid, 0);
    assert_eq!(t.kernel_stack, None);
    assert_eq!(t.inner.parent, None);
    assert_eq!(t.inner.task_status, TaskStatus::Ready);
    assert_eq!(ready(&kernel), vec![0]);
    // no identifier was taken from the allocators of tasks and groups
    assert_eq!(kernel.pid_allocator.peek(), 1);
    assert_eq!(kernel.kernel_tgid_allocator.peek(), 1);
    let top = MEMORY_END + PAGE_SIZE + 0x100000 + STACK_SIZE;
    assert_eq!(t.inner.trap_cx.sepc, KTHREADD);
    assert_eq!(t.inner.trap_cx.x[2], top);
    assert_eq!(t.inner.trap_cx.kernel_sp, top);
    assert_eq!(t.inner.trap_cx.kernel_satp, 0x8000_0000_0008_0000);
    assert_eq!(t.inner.trap_cx.trap_handler, 0x8020_2000);
    assert_eq!(t.inner.trap_cx.sstatus, SPP | SPIE);
    assert_eq!(t.inner.task_cx.ra, 0x8020_3000);
    assert_eq!(t.inner.task_cx.sp, top);
}

#[test]
fn kernel_threads_get_the_next_task_and_group_identifiers() {
    let mut kernel = with_supervisor();
    assert_eq!(create_kthread(&mut kernel, 0x8020_9000, 0x701, 0), 1);
    assert_eq!(create_kthread(&mut kernel, 0x8020_a000, 0x702, 0), 2);
    assert_eq!(ready(&kernel), vec![1, 2]);
    assert_eq!(task(&kernel, 0).inner.children, vec![1, 2]);
    for pid in [1usize, 2] {
        let t = task(&kernel, pid);
        assert_eq!(t.tgid, pid);
        assert_eq!(t.kernel_stack, None);
        assert_eq!(t.inner.parent, Some(0));
        let top = MEMORY_END + PAGE_SIZE + 0x100000 + pid * STACK_SIZE + STACK_SIZE;
        assert_eq!(t.inner.trap_cx.x[2], top);
        assert_eq!(t.inner.trap_cx.kernel_sp, top);
        assert_eq!(t.inner.trap_cx.sstatus, SPP | SPIE);
    }
    assert_eq!(task(&kernel, 1).inner.trap_cx.sepc, 0x8020_9000);
    assert_eq!(task(&kernel, 2).inner.trap_cx.sepc, 0x8020_a000);
    // an address space of its own: the kernel's regions, the frame and the stack
    let space = kernel.spaces[task(&kernel, 2).inner.memory_set].as_ref().unwrap();
    assert_eq!(space.memory_set.token(), 0x702);
    assert_eq!(
        space.memory_set.areas,
        vec![
            MapArea { start: 0x8020_0000, end: 0x8040_0000, perm: MAP_R | MAP_W },
            MapArea {
                start: MEMORY_END + PAGE_SIZE + 2 * PAGE_SIZE,
                end: MEMORY_END + PAGE_SIZE + 3 * PAGE_SIZE,
                perm: MAP_R | MAP_W
            },
            MapArea {
                start: MEMORY_END + PAGE_SIZE + 0x100000 + 2 * STACK_SIZE,
                end: MEMORY_END + PAGE_SIZE + 0x100000 + 3 * STACK_SIZE,
                perm: MAP_R | MAP_W
            },
        ]
    );
    assert!(space.fd_table.is_empty());
    assert_eq!(kernel.kernel_space.areas.len(), 1);
}

#[test]
fn a_kernel_thread_returns_through_its_own_frame() {
    let mut kernel = with_supervisor();
    let pid = create_kthread(&mut kernel, 0x8020_9000, 0x701, 0) as usize;
    assert_eq!(Processor::run(&mut kernel, 1).unwrap().load, ContextSlot::Task(pid));
    assert_eq!(current_trap_cx_user_va(&kernel, 1), MEMORY_END + PAGE_SIZE + PAGE_SIZE);
    let ret = trap_return(&kernel, 1);
    assert_eq!(ret.user_satp, 0x701);
    assert_eq!(ret.trap_cx_ptr, 0x8800_2000);
    assert_eq!(ret.stvec, TRAMPOLINE);
}

#[test]
fn a_group_leader_that_exits_is_removed() {
    let mut kernel = with_supervisor();
    let pid = create_kthread(&mut kernel, 0x8020_9000, 0x701, 0) as usize;
    assert!(!wait_for_completion(&kernel, pid));
    assert_eq!(Processor::run(&mut kernel, 1).unwrap().load, ContextSlot::Task(pid));
    let space = task(&kernel, pid).inner.memory_set;
    let switch = do_exit(&mut kernel, 1, 5);
    assert_eq!(switch, SwitchRequest { save: ContextSlot::Discard, load: ContextSlot::Idle(1) });
    assert!(wait_for_completion(&kernel, pid));
    assert!(task(&kernel, 0).inner.children.is_empty());
    assert_eq!(current_task(&kernel, 1), None);
    assert!(kernel.spaces[space].is_none());
    assert_eq!(kernel.pid_allocator.peek(), pid);
    // group identifiers are not given back
    assert_eq!(kernel.kernel_tgid_allocator.peek(), 2);
}

#[test]
fn do_exit_records_the_exit_code_that_it_is_given() {
    let mut kernel = with_supervisor();
    let mut image_space = MemorySet::new_bare(0x100);
    image_space.insert_framed_area(0x10000, 0x11000, MAP_R);
    let init = add_initproc(
        &mut kernel,
        LoadedImage { memory_set: image_space, user_sp: 0x20000, entry: 0x10000 },
        0,
    );
    // the thread does not lead its group, so it stays and shows its exit code
    let pid = create_kthread(&mut kernel, 0x8020_9000, 0x701, 0) as usize;
    assert_ne!(task(&kernel, pid).tgid, pid);
    assert_eq!(Processor::run(&mut kernel, 1).unwrap().load, ContextSlot::Task(init));
    assert_eq!(Processor::run(&mut kernel, 2).unwrap().load, ContextSlot::Task(pid));
    let switch = do_exit(&mut kernel, 2, 5);
    assert_eq!(switch, SwitchRequest { save: ContextSlot::Task(pid), load: ContextSlot::Idle(2) });
    assert_eq!(task(&kernel, pid).inner.task_status, TaskStatus::Zombie);
    assert_eq!(task(&kernel, pid).inner.exit_code, Some(5));
    assert_eq!(current_task(&kernel, 2), None);
    // the table of tasks is as it was
    assert!(!wait_for_completion(&kernel, pid));
    assert!(!wait_for_completion(&kernel, init));
    assert!(!wait_for_completion(&kernel, 0));
}

#[test]
fn a_kernel_thread_that_does_not_lead_its_group_stays_as_a_zombie() {
    let mut kernel = with_supervisor();
    // a user process takes task identifier 1, so that the thread gets 2 but group 1
    let mut image_space = MemorySet::new_bare(0x100);
    image_space.insert_framed_area(0x10000, 0x11000, MAP_R);
    let init = add_initproc(
        &mut kernel,
        LoadedImage { memory_set: image_space, user_sp: 0x20000, entry: 0x10000 },
        0,
    );
    assert_eq!(init, 1);
    let pid = create_kthread(&mut kernel, 0x8020_9000, 0x701, 0) as usize;
    assert_eq!((pid, task(&kernel, pid).tgid), (2, 1));
    assert_eq!(Processor::run(&mut kernel, 1).unwrap().load, ContextSlot::Task(init));
    assert_eq!(Processor::run(&mut kernel, 2).unwrap().load, ContextSlot::Task(pid));
    let switch = exit_kthread_and_run_next(&mut kernel, 2, 9);
    assert_eq!(switch, SwitchRequest { save: ContextSlot::Task(pid), load: ContextSlot::Idle(2) });
    assert!(!wait_for_completion(&kernel, pid));
    assert_eq!(task(&kernel, pid).inner.task_status, TaskStatus::Zombie);
    assert_eq!(task(&kernel, pid).inner.exit_code, Some(9));
    assert_eq!(task(&kernel, 0).inner.children, vec![pid]);
}

#[test]
fn the_children_of_a_leader_that_exits_are_cut_loose() {
    let mut kernel = with_supervisor();
    let a = create_kthread(&mut kernel, 0x8020_9000, 0x701, 0) as usize;
    let b = create_kthread(&mut kernel, 0x8020_a000, 0x702, 0) as usize;
    // the supervisor itself exits
    let switch = exit_kthread_and_run_next(&mut kernel, 0, 0);
    assert_eq!(switch.save, ContextSlot::Discard);
    assert!(wait_for_completion(&kernel, 0));
    assert_eq!(task(&kernel, a).inner.parent, None);
    assert_eq!(task(&kernel, b).inner.parent, None);
    // identifier 0 stays set aside: it does not go to the allocator
    assert!(!kernel.pid_allocator.is_outstanding(0));
    assert_eq!(kernel.pid_allocator.peek(), 3);
    assert!(!kernel.has_room_for_kthread());
}

#[test]
fn a_thread_stops_when_it_is_asked_to() {
    let mut kernel = with_supervisor();
    let worker = create_kthread(&mut kernel, 0x8020_9000, 0x701, 0) as usize;
    let sender = create_kthread(&mut kernel, 0x8020_a000, 0x702, 0) as usize;
    assert_eq!(Processor::run(&mut kernel, 1).unwrap().load, ContextSlot::Task(worker));
    assert_eq!(Processor::run(&mut kernel, 2).unwrap().load, ContextSlot::Task(sender));
    assert!(!kthread_should_stop(&kernel, 1));
    // the request is advisory: only the flag of the worker changes
    send_kthread_stop(&mut kernel, worker);
    assert_eq!(task(&kernel, worker).inner.flags, 1);
    assert_eq!(task(&kernel, worker).inner.task_status, TaskStatus::Running(1));
    assert_eq!(task(&kernel, worker).inner.exit_code, None);
    assert_eq!(task(&kernel, sender).inner.flags, 0);
    assert_eq!(task(&kernel, sender).inner.task_status, TaskStatus::Running(2));
    assert_eq!(current_task(&kernel, 2), Some(sender));
    assert!(!wait_for_completion(&kernel, sender));
    assert!(!wait_for_completion(&kernel, worker));
    assert!(kthread_should_stop(&kernel, 1));
    assert!(!kthread_should_stop(&kernel, 2));
    assert!(!kthread_should_stop(&kernel, 0));
    // asking again changes nothing
    send_kthread_stop(&mut kernel, worker);
    assert_eq!(task(&kernel, worker).inner.flags, 1);
    // the worker sees the request and exits of its own accord
    let _ = do_exit(&mut kernel, 1, 0);
    assert!(wait_for_completion(&kernel, worker));
    assert_eq!(task(&kernel, 0).inner.children, vec![sender]);
}

#[test]
fn a_stop_request_is_seen_whatever_else_is_asked() {
    let mut kernel = with_supervisor();
    kernel.pid2tcb.get_mut(0).inner.flags = KthreadBits::KthreadShouldPark.bits();
    assert!(!kthread_should_stop(&kernel, 0));
    // a thread that is asked to park and then to stop sees the stop
    send_kthread_stop(&mut kernel, 0);
    assert_eq!(task(&kernel, 0).inner.flags, 3);
    assert!(kthread_should_stop(&kernel, 0));
    kernel.pid2tcb.get_mut(0).inner.flags = 1 | (1 << 7);
    assert!(kthread_should_stop(&kernel, 0));
    kernel.pid2tcb.get_mut(0).inner.flags = usize::MAX - 1;
    assert!(!kthread_should_stop(&kernel, 0));
    assert_eq!(KthreadBits::KthreadShouldStop.bits(), 1);
    assert_eq!(KthreadBits::KthreadShouldPark.bits(), 2);
}

#[test]
fn a_kernel_thread_yields_like_any_task() {
    let mut kernel = with_supervisor();
    let other = create_kthread(&mut kernel, 0x8020_9000, 0x701, 0) as usize;
    let switch = kthread_yield(&kernel, 0);
    assert_eq!(switch, SwitchRequest { save: ContextSlot::Task(0), load: ContextSlot::Idle(0) });
    assert_eq!(Processor::run(&mut kernel, 0).unwrap().load, ContextSlot::Task(other));
    assert_eq!(ready(&kernel), vec![0]);
}

#[test]
fn coroutines_start_in_their_function_on_a_kernel_stack() {
    let mut kernel = Kernel::new(symbols());
    let first = kthread_create(&mut kernel, 0x8020_b000, 0x800, 0);
    let second = kthread_create(&mut kernel, 0x8020_c000, 0x801, 0);
    assert_eq!((first, second), (1, 2));
    let t = task(&kernel, second);
    assert_eq!(t.tgid, second);
    assert_eq!(t.kernel_stack, Some(KernelStack(1)));
    assert_eq!(t.inner.parent, None);
    // the task context enters the function itself
    assert_eq!(t.inner.task_cx.ra, 0x8020_c000);
    assert_eq!(t.inner.task_cx.sp, TRAMPOLINE - 0x3000);
    assert_eq!(t.inner.trap_cx.sepc, 0x8020_c000);
    assert_eq!(t.inner.trap_cx.sstatus, SPP);
    assert_eq!(ready(&kernel), vec![first, second]);
    // they are scheduled like user tasks, and stop by exiting with 0
    assert_eq!(Processor::run(&mut kernel, 0).unwrap().load, ContextSlot::Task(first));
    let yielded = task_kernel::coroutine::kernel_stackful_coroutine::kthread_yield(&kernel, 0);
    assert_eq!(yielded.save, ContextSlot::Task(first));
    assert_eq!(Processor::run(&mut kernel, 0).unwrap().load, ContextSlot::Task(second));
    assert_eq!(ready(&kernel), vec![first]);
    let switch = kthread_stop(&mut kernel, 0);
    assert_eq!(switch, SwitchRequest { save: ContextSlot::Discard, load: ContextSlot::Idle(0) });
    assert!(wait_for_completion(&kernel, second));
    assert_eq!(kernel.kstack_allocator.peek(), 1);
    assert_eq!(CPU_NUM, 4);
}
