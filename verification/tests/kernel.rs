use task_kernel::config::{KernelSymbols, CPU_NUM, PAGE_SIZE, TRAMPOLINE, TRAP_CONTEXT_BASE};
use task_kernel::kernel::Kernel;
use task_kernel::mm::{LoadedImage, MapArea, MemorySet, MAP_R, MAP_U, MAP_W, MAP_X};
use task_kernel::syscall::process::sys_fork;
use task_kernel::syscall::signal::{sys_kill, sys_sigaction, sys_sigprocmask, sys_sigreturn};
use task_kernel::syscall::thread::{sys_gettid, sys_thread_create, sys_waittid, WAIT_NOT_EXITED, WAIT_NOT_FOUND};
use task_kernel::task::action::SignalAction;
use task_kernel::task::lifecycle::{STDERR, STDIN, STDOUT};
use task_kernel::task::manager::{insert_into_pid2task, pid2task, remove_from_pid2task};
use task_kernel::task::pid::{KernelStack, PidHandle};
use task_kernel::task::processor::{
    current_task, current_tasks, current_user_token, schedule, take_current_task, ContextSlot, Processor,
    SwitchRequest,
};
use task_kernel::task::signal::{SignalFlags, SIGCONT, SIGILL, SIGKILL, SIGSEGV, SIGSTOP, SIGUSR1};
use task_kernel::task::task::{TaskControlBlock, TaskStatus};
use task_kernel::task::{
    add_initproc, block_current_and_run_next, check_signals_error_of_current, current_add_signal,
    exit_current_and_run_next, handle_signals, suspend_current_and_run_next, wakeup_task,
};
use task_kernel::trap::{
    current_trap_cx, current_trap_cx_user_va, syscall_return, trap_finish, trap_handler, trap_return,
    TrapAction, TrapExit, TrapReturn,
};

const SSTATUS: usize = 0;
const INTERRUPT: usize = 1 << 63;

fn symbols() -> KernelSymbols {
    KernelSymbols {
        kernel_token: 0x8000_0000_0008_0000,
        trap_handler: 0x8020_1000,
        trap_from_kernel: 0x8020_2000,
        trap_return: 0x8020_3000,
        alltraps: 0x8020_5000,
        alltraps_k: 0x8020_5080,
        restore: 0x8020_5040,
    }
}

fn image(token: usize) -> LoadedImage {
    let mut memory_set = MemorySet::new_bare(token);
    memory_set.insert_framed_area(0x10000, 0x12000, MAP_R | MAP_X | MAP_U);
    memory_set.insert_framed_area(0x33000, 0x35000, MAP_R | MAP_W | MAP_U);
    LoadedImage { memory_set, user_sp: 0x35000, entry: 0x10000 }
}

/// The invariant of the scheduling state, computed on the values.
fn check_invariants(kernel: &Kernel) {
    let tasks = &kernel.pid2tcb.tasks;
    let live: Vec<usize> = (0..tasks.len()).filter(|pid| tasks[*pid].is_some()).collect();
    let task = |pid: usize| tasks[pid].as_ref().unwrap();
    assert_eq!(kernel.processors.len(), CPU_NUM);
    assert!(!kernel.pid_allocator.is_outstanding(0));
    for &pid in &live {
        let t = task(pid);
        assert_eq!(t.pid.0, pid);
        assert!(pid == 0 || kernel.pid_allocator.is_outstanding(pid));
        if let Some(kstack) = &t.kernel_stack {
            assert!(kernel.kstack_allocator.is_outstanding(kstack.0));
            for &other in &live {
                if other != pid {
                    assert_ne!(task(other).kernel_stack.as_ref().map(|k| k.0), Some(kstack.0));
                }
            }
        }
        // the ready queue holds exactly the ready tasks, each once
        let waits = kernel.task_manager.ready_queue.iter().filter(|p| **p == pid).count();
        assert_eq!(waits, if t.inner.task_status == TaskStatus::Ready { 1 } else { 0 });
        // a task runs on the core that its status names, and on no other
        for hart_id in 0..CPU_NUM {
            assert_eq!(
                kernel.processors[hart_id].current == Some(pid),
                t.inner.task_status == TaskStatus::Running(hart_id)
            );
        }
        if let TaskStatus::Running(hart_id) = t.inner.task_status {
            assert!(hart_id < CPU_NUM);
        }
        // parents and children agree
        assert_ne!(t.inner.parent, Some(pid));
        if let Some(parent) = t.inner.parent {
            assert!(live.contains(&parent));
            assert_eq!(task(parent).inner.children.iter().filter(|c| **c == pid).count(), 1);
        }
        for child in t.inner.children.iter() {
            assert!(live.contains(child));
            assert_eq!(task(*child).inner.parent, Some(pid));
            assert_eq!(t.inner.children.iter().filter(|c| *c == child).count(), 1);
        }
        // user resources
        let space = t.inner.memory_set;
        assert!(space < kernel.spaces.len() && kernel.spaces[space].is_some());
        // exit codes and signals
        assert_eq!(t.inner.task_status == TaskStatus::Zombie, t.inner.exit_code.is_some());
        assert!(-1 <= t.inner.handling_sig && t.inner.handling_sig < 32);
    }
    for pid in kernel.task_manager.ready_queue.iter() {
        assert!(live.contains(pid));
    }
    for hart_id in 0..CPU_NUM {
        if let Some(pid) = kernel.processors[hart_id].current {
            assert!(live.contains(&pid));
        }
    }
    for space in 0..kernel.spaces.len() {
        if kernel.spaces[space].is_some() {
            assert!(kernel.space_allocator.is_outstanding(space));
        }
    }
    if let Some(init) = kernel.initproc {
        assert!(live.contains(&init));
        assert_eq!(task(init).tgid, init);
        assert_eq!(task(init).inner.parent, None);
    }
}

fn live(kernel: &Kernel, pid: usize) -> bool {
    pid2task(&kernel.pid2tcb, pid).is_some()
}

fn task(kernel: &Kernel, pid: usize) -> &TaskControlBlock {
    pid2task(&kernel.pid2tcb, pid).unwrap()
}

fn ready(kernel: &Kernel) -> Vec<usize> {
    kernel.task_manager.ready_queue.iter().copied().collect()
}

/// A kernel with the init process in the ready queue.
fn boot() -> (Kernel, usize) {
    let mut kernel = Kernel::new(symbols());
    check_invariants(&kernel);
    assert!(kernel.has_room());
    let init = add_initproc(&mut kernel, image(0x100), SSTATUS);
    check_invariants(&kernel);
    (kernel, init)
}

/// A kernel in which the init process runs on core 0.
fn boot_and_run() -> (Kernel, usize) {
    let (mut kernel, init) = boot();
    let switch = Processor::run(&mut kernel, 0);
    assert_eq!(
        switch,
        Some(SwitchRequest { save: ContextSlot::Idle(0), load: ContextSlot::Task(init) })
    );
    check_invariants(&kernel);
    (kernel, init)
}

/// The task on `hart_id` yields, and the core takes the next ready task.
fn yield_and_run(kernel: &mut Kernel, hart_id: usize) -> Option<usize> {
    let from = current_task(kernel, hart_id).unwrap();
    let leave = suspend_current_and_run_next(kernel, hart_id);
    assert_eq!(leave, SwitchRequest { save: ContextSlot::Task(from), load: ContextSlot::Idle(hart_id) });
    let enter = Processor::run(kernel, hart_id);
    check_invariants(kernel);
    match enter {
        Some(switch) => {
            assert_eq!(switch.save, ContextSlot::Idle(hart_id));
            assert_eq!(Some(switch.load), current_task(kernel, hart_id).map(ContextSlot::Task));
            current_task(kernel, hart_id)
        }
        None => None,
    }
}

#[test]
fn a_new_kernel_is_empty() {
    let kernel = Kernel::new(symbols());
    assert!(kernel.pid2tcb.tasks.iter().all(|t| t.is_none()));
    assert!(ready(&kernel).is_empty());
    assert_eq!(current_tasks(&kernel), vec![None; CPU_NUM]);
    assert_eq!(kernel.initproc, None);
    assert_eq!(kernel.kernel_space.token(), 0x8000_0000_0008_0000);
    assert_eq!(kernel.pid_allocator.peek(), 1);
    assert_eq!(kernel.kstack_allocator.peek(), 0);
    assert_eq!(kernel.kernel_tgid_allocator.peek(), 1);
    assert_eq!(kernel.space_allocator.peek(), 0);
}

#[test]
fn the_init_process_is_the_first_task() {
    let (kernel, init) = boot();
    assert_eq!(init, 1);
    assert_eq!(kernel.initproc, Some(1));
    assert_eq!(ready(&kernel), vec![1]);
    let t = task(&kernel, init);
    assert_eq!(t.pid, PidHandle(1));
    assert_eq!(t.tgid, 1);
    assert_eq!(t.kernel_stack, Some(KernelStack(0)));
    assert_eq!(t.inner.task_status, TaskStatus::Ready);
    assert_eq!(t.inner.parent, None);
    assert_eq!(t.inner.exit_code, None);
    assert_eq!(t.inner.task_cx.ra, 0x8020_3000);
    assert_eq!(t.inner.task_cx.sp, TRAMPOLINE);
    assert_eq!(t.inner.task_cx.s, [0; 12]);
    assert_eq!(t.inner.trap_cx.sepc, 0x10000);
    assert_eq!(t.inner.trap_cx.x[2], 0x35000);
    assert_eq!(t.inner.trap_cx.kernel_satp, 0x8000_0000_0008_0000);
    assert_eq!(t.inner.trap_cx.kernel_sp, TRAMPOLINE);
    assert_eq!(t.inner.trap_cx.trap_handler, 0x8020_1000);
    let space = kernel.spaces[t.inner.memory_set].as_ref().unwrap();
    assert_eq!(space.memory_set.token(), 0x100);
    assert_eq!(space.memory_set.areas.len(), 2);
    assert_eq!(space.fd_table, vec![Some(STDIN), Some(STDOUT), Some(STDERR)]);
    assert_eq!(
        kernel.kernel_space.areas,
        vec![MapArea { start: TRAMPOLINE - 0x2000, end: TRAMPOLINE, perm: MAP_R | MAP_W }]
    );
}

#[test]
fn an_idle_core_with_an_empty_queue_stays_idle() {
    let mut kernel = Kernel::new(symbols());
    assert_eq!(Processor::run(&mut kernel, 2), None);
    assert_eq!(current_task(&kernel, 2), None);
    check_invariants(&kernel);
}

#[test]
fn the_scheduler_marks_the_task_as_running_on_its_core() {
    let (mut kernel, init) = boot();
    let switch = Processor::run(&mut kernel, 3);
    assert_eq!(switch, Some(SwitchRequest { save: ContextSlot::Idle(3), load: ContextSlot::Task(init) }));
    assert_eq!(task(&kernel, init).inner.task_status, TaskStatus::Running(3));
    assert_eq!(current_task(&kernel, 3), Some(init));
    assert_eq!(current_tasks(&kernel), vec![None, None, None, Some(init)]);
    assert!(ready(&kernel).is_empty());
    assert_eq!(sys_gettid(&kernel, 3), 1);
    assert_eq!(current_user_token(&kernel, 3), 0x100);
    check_invariants(&kernel);
}

#[test]
fn a_task_that_yields_goes_to_the_back_of_the_queue() {
    let (mut kernel, init) = boot_and_run();
    let a = sys_thread_create(&mut kernel, 0, 0x2000, 1, SSTATUS) as usize;
    let b = sys_thread_create(&mut kernel, 0, 0x3000, 2, SSTATUS) as usize;
    assert_eq!(ready(&kernel), vec![a, b]);
    // init yields: it goes behind the two threads, the first of which runs
    assert_eq!(yield_and_run(&mut kernel, 0), Some(a));
    assert_eq!(ready(&kernel), vec![b, init]);
    assert_eq!(task(&kernel, init).inner.task_status, TaskStatus::Ready);
    assert_eq!(yield_and_run(&mut kernel, 0), Some(b));
    assert_eq!(ready(&kernel), vec![init, a]);
    assert_eq!(yield_and_run(&mut kernel, 0), Some(init));
    assert_eq!(ready(&kernel), vec![a, b]);
}

#[test]
fn a_task_that_yields_alone_runs_again() {
    let (mut kernel, init) = boot_and_run();
    assert_eq!(yield_and_run(&mut kernel, 0), Some(init));
    assert_eq!(task(&kernel, init).inner.task_status, TaskStatus::Running(0));
}

#[test]
fn a_task_may_resume_on_another_core() {
    let (mut kernel, init) = boot_and_run();
    let thread = sys_thread_create(&mut kernel, 0, 0x2000, 0, SSTATUS) as usize;
    // core 1 takes the thread
    let switch = Processor::run(&mut kernel, 1).unwrap();
    assert_eq!(switch.load, ContextSlot::Task(thread));
    assert_eq!(task(&kernel, thread).inner.task_status, TaskStatus::Running(1));
    check_invariants(&kernel);
    // init yields on core 0, which finds nothing else and takes it again
    assert_eq!(yield_and_run(&mut kernel, 0), Some(init));
    // the thread yields on core 1; core 0 yields too and gets the thread
    let _ = suspend_current_and_run_next(&kernel, 1);
    Processor::suspend_current(&mut kernel, 1);
    check_invariants(&kernel);
    assert_eq!(current_task(&kernel, 1), None);
    assert_eq!(yield_and_run(&mut kernel, 0), Some(thread));
    assert_eq!(task(&kernel, thread).inner.task_status, TaskStatus::Running(0));
    assert_eq!(task(&kernel, init).inner.task_status, TaskStatus::Ready);
}

#[test]
fn every_switch_passes_through_the_idle_context() {
    let (mut kernel, _) = boot();
    let enter = Processor::run(&mut kernel, 0).unwrap();
    assert_eq!(enter.save, ContextSlot::Idle(0));
    assert!(matches!(enter.load, ContextSlot::Task(_)));
    let leave = suspend_current_and_run_next(&kernel, 0);
    assert!(matches!(leave.save, ContextSlot::Task(_)));
    assert_eq!(leave.load, ContextSlot::Idle(0));
    assert_eq!(
        schedule(2, ContextSlot::Discard),
        SwitchRequest { save: ContextSlot::Discard, load: ContextSlot::Idle(2) }
    );
}

#[test]
fn a_blocking_task_leaves_the_core_and_the_queue() {
    let (mut kernel, init) = boot_and_run();
    let thread = sys_thread_create(&mut kernel, 0, 0x2000, 0, SSTATUS) as usize;
    let switch = block_current_and_run_next(&mut kernel, 0);
    assert_eq!(switch, SwitchRequest { save: ContextSlot::Task(init), load: ContextSlot::Idle(0) });
    assert_eq!(task(&kernel, init).inner.task_status, TaskStatus::Blocking);
    assert_eq!(current_task(&kernel, 0), None);
    check_invariants(&kernel);
    // the scheduling loop does not bring it back
    assert_eq!(Processor::run(&mut kernel, 0).unwrap().load, ContextSlot::Task(thread));
    assert_eq!(ready(&kernel), Vec::<usize>::new());
    assert_eq!(task(&kernel, init).inner.task_status, TaskStatus::Blocking);
    check_invariants(&kernel);
}

#[test]
fn fork_makes_a_process_with_a_copy_of_the_resources() {
    let (mut kernel, init) = boot_and_run();
    let parent_space = task(&kernel, init).inner.memory_set;
    let child = kernel.fork(0, 0x200);
    check_invariants(&kernel);
    assert_eq!(child, 2);
    let c = task(&kernel, child);
    assert_eq!(c.tgid, child);
    assert_eq!(c.kernel_stack, Some(KernelStack(1)));
    assert_eq!(c.inner.parent, Some(init));
    assert_eq!(c.inner.task_status, TaskStatus::Ready);
    assert_eq!(task(&kernel, init).inner.children, vec![child]);
    assert_eq!(ready(&kernel), vec![child]);
    // the frame of the parent, but for the kernel stack
    let p = task(&kernel, init);
    assert_eq!(c.inner.trap_cx.sepc, p.inner.trap_cx.sepc);
    assert_eq!(c.inner.trap_cx.x, p.inner.trap_cx.x);
    assert_eq!(c.inner.trap_cx.sstatus, p.inner.trap_cx.sstatus);
    assert_eq!(c.inner.trap_cx.kernel_satp, p.inner.trap_cx.kernel_satp);
    assert_eq!(c.inner.trap_cx.trap_handler, p.inner.trap_cx.trap_handler);
    assert_eq!(p.inner.trap_cx.kernel_sp, TRAMPOLINE);
    assert_eq!(c.inner.trap_cx.kernel_sp, TRAMPOLINE - 0x3000);
    assert_eq!(c.inner.task_cx.sp, TRAMPOLINE - 0x3000);
    // resources of its own
    let child_space = c.inner.memory_set;
    assert_ne!(child_space, parent_space);
    let ps = kernel.spaces[parent_space].as_ref().unwrap();
    let cs = kernel.spaces[child_space].as_ref().unwrap();
    assert_eq!(cs.memory_set.token(), 0x200);
    assert_eq!(ps.memory_set.token(), 0x100);
    assert_eq!(cs.fd_table, ps.fd_table);
    assert_eq!(cs.memory_set.areas.len(), ps.memory_set.areas.len() + 1);
    assert_eq!(cs.memory_set.areas[..2], ps.memory_set.areas[..]);
    assert_eq!(
        cs.memory_set.areas[2],
        MapArea {
            start: TRAP_CONTEXT_BASE - 2 * PAGE_SIZE,
            end: TRAP_CONTEXT_BASE - PAGE_SIZE,
            perm: MAP_R | MAP_W
        }
    );
}

#[test]
fn fork_inherits_the_signal_mask_and_actions() {
    let (mut kernel, init) = boot_and_run();
    {
        let t = kernel.pid2tcb.get_mut(init);
        t.inner.signal_mask.bits = SIGUSR1;
        t.inner.signal_actions.table[10].handler = 0x5000;
        t.inner.signals.bits = SIGCONT;
    }
    let child = kernel.fork(0, 0x200);
    let c = task(&kernel, child);
    assert_eq!(c.inner.signal_mask.bits, SIGUSR1);
    assert_eq!(c.inner.signal_actions.table[10].handler, 0x5000);
    // pending signals are not inherited
    assert_eq!(c.inner.signals.bits, 0);
    assert_eq!(c.inner.exit_code, None);
}

#[test]
fn after_fork_a_change_of_one_space_leaves_the_other() {
    let (mut kernel, init) = boot_and_run();
    let child = kernel.fork(0, 0x200);
    let parent_space = task(&kernel, init).inner.memory_set;
    let child_space = task(&kernel, child).inner.memory_set;
    let parent_before = kernel.spaces[parent_space].as_ref().unwrap().memory_set.areas.clone();
    let child_before = kernel.spaces[child_space].as_ref().unwrap().memory_set.areas.clone();
    // the child maps something and closes a file
    {
        let cs = kernel.spaces[child_space].as_mut().unwrap();
        cs.memory_set.insert_framed_area(0x50000, 0x51000, MAP_R | MAP_U);
        cs.fd_table[1] = None;
    }
    let ps = kernel.spaces[parent_space].as_ref().unwrap();
    assert_eq!(ps.memory_set.areas, parent_before);
    assert_eq!(ps.fd_table, vec![Some(STDIN), Some(STDOUT), Some(STDERR)]);
    // and the other way round
    kernel.spaces[parent_space].as_mut().unwrap().memory_set.recycle_data_pages();
    let cs = kernel.spaces[child_space].as_ref().unwrap();
    assert_eq!(cs.memory_set.areas.len(), child_before.len() + 1);
    assert_eq!(cs.memory_set.areas[..child_before.len()], child_before[..]);
}

#[test]
fn a_thread_shares_the_resources_but_has_its_own_frame() {
    let (mut kernel, init) = boot_and_run();
    let frame_before = task(&kernel, init).inner.trap_cx;
    let tid = sys_thread_create(&mut kernel, 0, 0x2222, 0x77, SSTATUS);
    check_invariants(&kernel);
    assert_eq!(tid, 2);
    let thread = tid as usize;
    let t = task(&kernel, thread);
    let creator = task(&kernel, init);
    assert_eq!(t.tgid, init);
    assert_eq!(t.inner.parent, Some(init));
    assert_eq!(creator.inner.children, vec![thread]);
    assert_eq!(t.inner.memory_set, creator.inner.memory_set);
    assert_eq!(t.kernel_stack, Some(KernelStack(1)));
    // a frame of its own
    assert_eq!(t.inner.trap_cx.sepc, 0x2222);
    assert_eq!(t.inner.trap_cx.x[10], 0x77);
    assert_eq!(t.inner.trap_cx.x[2], 0x30000 + 2 * 0x3000 + 0x2000);
    assert_eq!(t.inner.trap_cx.kernel_sp, TRAMPOLINE - 0x3000);
    assert_eq!(creator.inner.trap_cx.sepc, frame_before.sepc);
    assert_eq!(creator.inner.trap_cx.x, frame_before.x);
    // the page of the thread's frame is mapped in the shared space
    let space = kernel.spaces[t.inner.memory_set].as_ref().unwrap();
    assert_eq!(space.memory_set.areas.len(), 3);
    assert_eq!(space.memory_set.areas[2].start, TRAP_CONTEXT_BASE - 2 * PAGE_SIZE);
    assert_eq!(kernel.space_allocator.peek(), 1);
    // what is changed through the one is found through the other
    let shared = t.inner.memory_set;
    kernel.spaces[shared].as_mut().unwrap().memory_set.insert_framed_area(0x60000, 0x61000, MAP_R);
    let seen = task(&kernel, init).inner.memory_set;
    assert_eq!(kernel.spaces[seen].as_ref().unwrap().memory_set.areas.len(), 4);
    // a change of the frame of the thread does not reach the creator
    kernel.pid2tcb.get_mut(thread).inner.get_trap_cx().sepc = 0x9999;
    assert_eq!(task(&kernel, init).inner.trap_cx.sepc, frame_before.sepc);
    assert_eq!(task(&kernel, thread).inner.trap_cx.sepc, 0x9999);
}

#[test]
fn a_thread_of_a_thread_belongs_to_the_same_group() {
    let (mut kernel, init) = boot_and_run();
    let first = sys_thread_create(&mut kernel, 0, 0x2000, 0, SSTATUS) as usize;
    assert_eq!(yield_and_run(&mut kernel, 0), Some(first));
    let second = sys_thread_create(&mut kernel, 0, 0x3000, 0, SSTATUS) as usize;
    assert_eq!(task(&kernel, second).tgid, init);
    assert_eq!(task(&kernel, second).inner.parent, Some(first));
    check_invariants(&kernel);
}

#[test]
fn waiting_for_a_thread_that_does_not_exist_finds_nothing() {
    let (mut kernel, _) = boot_and_run();
    assert_eq!(sys_waittid(&mut kernel, 7), WAIT_NOT_FOUND);
    assert_eq!(sys_waittid(&mut kernel, 7), -1);
    assert_eq!(sys_waittid(&mut kernel, 1000), -1);
    check_invariants(&kernel);
}

#[test]
fn waiting_for_the_leader_of_a_group_finds_nothing() {
    let (mut kernel, init) = boot_and_run();
    assert_eq!(sys_waittid(&mut kernel, init), -1);
    let child = kernel.fork(0, 0x200);
    assert_eq!(sys_waittid(&mut kernel, child), -1);
    assert!(live(&kernel, child));
    check_invariants(&kernel);
}

#[test]
fn waiting_for_a_thread_that_runs_says_not_yet() {
    let (mut kernel, _) = boot_and_run();
    let thread = sys_thread_create(&mut kernel, 0, 0x2000, 0, SSTATUS) as usize;
    assert_eq!(sys_waittid(&mut kernel, thread), WAIT_NOT_EXITED);
    assert_eq!(sys_waittid(&mut kernel, thread), -2);
    assert!(live(&kernel, thread));
    check_invariants(&kernel);
}

#[test]
fn the_exit_code_of_a_thread_is_collected_once() {
    let (mut kernel, init) = boot_and_run();
    let thread = sys_thread_create(&mut kernel, 0, 0x2000, 0, SSTATUS) as usize;
    // the thread runs on core 1 and exits with 7
    assert_eq!(Processor::run(&mut kernel, 1).unwrap().load, ContextSlot::Task(thread));
    let switch = exit_current_and_run_next(&mut kernel, 1, 7);
    assert_eq!(switch, SwitchRequest { save: ContextSlot::Discard, load: ContextSlot::Idle(1) });
    check_invariants(&kernel);
    assert_eq!(task(&kernel, thread).inner.task_status, TaskStatus::Zombie);
    assert_eq!(task(&kernel, thread).inner.exit_code, Some(7));
    assert_eq!(current_task(&kernel, 1), None);
    // the scheduling loop of core 1 does not bring the zombie back
    assert_eq!(Processor::run(&mut kernel, 1), None);
    assert!(ready(&kernel).is_empty());
    // the creator collects the exit code
    assert_eq!(sys_waittid(&mut kernel, thread), 7);
    check_invariants(&kernel);
    assert!(!live(&kernel, thread));
    assert!(task(&kernel, init).inner.children.is_empty());
    // a second wait finds nothing
    assert_eq!(sys_waittid(&mut kernel, thread), -1);
    // identifier and kernel stack are free for reuse
    assert!(!kernel.pid_allocator.is_outstanding(thread));
    assert_eq!(kernel.pid_allocator.peek(), thread);
    assert_eq!(kernel.kstack_allocator.peek(), 1);
    assert_eq!(kernel.kernel_space.areas.len(), 1);
    // the shared resources stay, since the creator works in them
    let space = task(&kernel, init).inner.memory_set;
    assert!(kernel.spaces[space].is_some());
    let again = sys_thread_create(&mut kernel, 0, 0x2000, 0, SSTATUS) as usize;
    assert_eq!(again, thread);
    check_invariants(&kernel);
}

#[test]
fn a_forked_process_that_exits_is_gone_at_once() {
    // A forks B; B exits with 7. B leads its own group, so it is removed at
    // its exit, and a wait for it finds nothing.
    let (mut kernel, a) = boot_and_run();
    let b = kernel.fork(0, 0x200);
    let b_space = task(&kernel, b).inner.memory_set;
    assert_eq!(Processor::run(&mut kernel, 1).unwrap().load, ContextSlot::Task(b));
    let switch = exit_current_and_run_next(&mut kernel, 1, 7);
    assert_eq!(switch, SwitchRequest { save: ContextSlot::Discard, load: ContextSlot::Idle(1) });
    check_invariants(&kernel);
    assert!(!live(&kernel, b));
    assert!(task(&kernel, a).inner.children.is_empty());
    assert_eq!(sys_waittid(&mut kernel, b), -1);
    // nothing hangs: both cores can go on
    assert_eq!(Processor::run(&mut kernel, 1), None);
    assert_eq!(yield_and_run(&mut kernel, 0), Some(a));
    // B's identifier, kernel stack and resources are free for reuse
    assert!(!kernel.pid_allocator.is_outstanding(b));
    assert!(kernel.spaces[b_space].is_none());
    assert_eq!(kernel.fork(0, 0x300), b);
    assert_eq!(task(&kernel, b).kernel_stack, Some(KernelStack(1)));
    assert_eq!(task(&kernel, b).inner.memory_set, b_space);
    check_invariants(&kernel);
}

#[test]
fn the_children_of_an_exiting_process_go_to_init() {
    let (mut kernel, init) = boot_and_run();
    let early = kernel.fork(0, 0x200);
    let parent = kernel.fork(0, 0x300);
    assert_eq!(task(&kernel, init).inner.children, vec![early, parent]);
    // core 1 runs `parent` (after `early` has had its turn)
    assert_eq!(Processor::run(&mut kernel, 1).unwrap().load, ContextSlot::Task(early));
    assert_eq!(yield_and_run(&mut kernel, 1), Some(parent));
    let kid_a = kernel.fork(1, 0x400);
    let kid_b = sys_thread_create(&mut kernel, 1, 0x2000, 0, SSTATUS) as usize;
    let kid_c = kernel.fork(1, 0x500);
    assert_eq!(task(&kernel, parent).inner.children, vec![kid_a, kid_b, kid_c]);
    check_invariants(&kernel);
    let _ = exit_current_and_run_next(&mut kernel, 1, 0);
    check_invariants(&kernel);
    assert!(!live(&kernel, parent));
    // init has lost the process that exited and adopted its children, in order
    assert_eq!(task(&kernel, init).inner.children, vec![early, kid_a, kid_b, kid_c]);
    for kid in [kid_a, kid_b, kid_c] {
        assert_eq!(task(&kernel, kid).inner.parent, Some(init));
        assert_eq!(task(&kernel, init).inner.children.iter().filter(|c| **c == kid).count(), 1);
    }
    assert_eq!(task(&kernel, early).inner.parent, Some(init));
    // the thread of the process that exited finds its resources recycled
    let space = task(&kernel, kid_b).inner.memory_set;
    let resources = kernel.spaces[space].as_ref().unwrap();
    assert!(resources.memory_set.areas.is_empty());
    assert!(resources.fd_table.is_empty());
    assert_eq!(resources.memory_set.token(), 0x300);
}

#[test]
fn the_threads_of_a_joined_thread_lose_their_parent() {
    let (mut kernel, init) = boot_and_run();
    let first = sys_thread_create(&mut kernel, 0, 0x2000, 0, SSTATUS) as usize;
    assert_eq!(Processor::run(&mut kernel, 1).unwrap().load, ContextSlot::Task(first));
    let second = sys_thread_create(&mut kernel, 1, 0x3000, 0, SSTATUS) as usize;
    let _ = exit_current_and_run_next(&mut kernel, 1, 3);
    // a thread's exit does not hand its children on
    assert_eq!(task(&kernel, second).inner.parent, Some(first));
    assert_eq!(sys_waittid(&mut kernel, first), 3);
    check_invariants(&kernel);
    assert_eq!(task(&kernel, second).inner.parent, None);
    assert!(task(&kernel, init).inner.children.is_empty());
}

#[test]
fn an_invalid_memory_access_ends_the_task_and_no_other() {
    let (mut kernel, init) = boot_and_run();
    let victim = kernel.fork(0, 0x200);
    let bystander = kernel.fork(0, 0x300);
    assert_eq!(Processor::run(&mut kernel, 1).unwrap().load, ContextSlot::Task(victim));
    let bystander_before = task(&kernel, bystander).inner.trap_cx;
    // a store page fault in the task on core 1
    let action = trap_handler(&mut kernel, 1, 15, 0xdead_0000);
    assert!(matches!(action, TrapAction::CheckSignals));
    assert_eq!(task(&kernel, victim).inner.signals.bits, SIGSEGV);
    assert_eq!(
        check_signals_error_of_current(&kernel, 1),
        Some((-11, "Segmentation Fault, SIGSEGV=11"))
    );
    check_invariants(&kernel);
    match trap_finish(&mut kernel, 1) {
        TrapExit::Exit { errno, msg, switch } => {
            assert_eq!(errno, -11);
            assert_eq!(msg, "Segmentation Fault, SIGSEGV=11");
            assert_eq!(switch, SwitchRequest { save: ContextSlot::Discard, load: ContextSlot::Idle(1) });
        }
        TrapExit::Return(_) => panic!("the task must not return to user mode"),
    }
    check_invariants(&kernel);
    assert!(!live(&kernel, victim));
    // the kernel goes on with the other tasks, which are as they were
    assert_eq!(task(&kernel, init).inner.task_status, TaskStatus::Running(0));
    assert_eq!(task(&kernel, init).inner.signals.bits, 0);
    assert_eq!(task(&kernel, bystander).inner.signals.bits, 0);
    assert_eq!(task(&kernel, bystander).inner.trap_cx.sepc, bystander_before.sepc);
    assert_eq!(Processor::run(&mut kernel, 1).unwrap().load, ContextSlot::Task(bystander));
    assert!(matches!(trap_finish(&mut kernel, 1), TrapExit::Return(_)));
    check_invariants(&kernel);
}

#[test]
fn every_memory_fault_leaves_a_segmentation_violation_pending() {
    for scause in [7usize, 15, 1, 12, 5, 13] {
        let (mut kernel, init) = boot_and_run();
        assert!(matches!(trap_handler(&mut kernel, 0, scause, 0), TrapAction::CheckSignals));
        assert_eq!(task(&kernel, init).inner.signals.bits, SIGSEGV);
        assert_eq!(task(&kernel, init).inner.trap_cx.sepc, 0x10000);
    }
}

#[test]
fn an_illegal_instruction_leaves_its_signal_pending() {
    let (mut kernel, init) = boot_and_run();
    assert!(matches!(trap_handler(&mut kernel, 0, 2, 0), TrapAction::CheckSignals));
    assert_eq!(task(&kernel, init).inner.signals.bits, SIGILL);
    assert_eq!(
        check_signals_error_of_current(&kernel, 0),
        Some((-4, "Illegal Instruction, SIGILL=4"))
    );
}

#[test]
fn a_system_call_is_handed_out_with_its_arguments() {
    let (mut kernel, init) = boot_and_run();
    {
        let cx = current_trap_cx(&mut kernel, 0);
        cx.x[17] = 64;
        cx.x[10] = 1;
        cx.x[11] = 0x4000;
        cx.x[12] = 12;
    }
    check_invariants(&kernel);
    assert_eq!(task(&kernel, init).inner.trap_cx.x[17], 64);
    match trap_handler(&mut kernel, 0, 8, 0) {
        TrapAction::Syscall { id, args } => {
            assert_eq!(id, 64);
            assert_eq!(args, [1, 0x4000, 12]);
        }
        _ => panic!("a system call was expected"),
    }
    // the task resumes past the instruction that made the call
    assert_eq!(current_trap_cx(&mut kernel, 0).sepc, 0x10004);
    syscall_return(&mut kernel, 0, -5);
    assert_eq!(current_trap_cx(&mut kernel, 0).x[10], (-5isize) as usize);
    assert_eq!(current_trap_cx(&mut kernel, 0).x[11], 0x4000);
    assert_eq!(task(&kernel, init).inner.signals.bits, 0);
    check_invariants(&kernel);
}

#[test]
fn the_resume_address_wraps_at_the_end_of_the_address_space() {
    let (mut kernel, init) = boot_and_run();
    kernel.pid2tcb.get_mut(init).inner.get_trap_cx().sepc = usize::MAX - 1;
    let _ = trap_handler(&mut kernel, 0, 8, 0);
    assert_eq!(current_trap_cx(&mut kernel, 0).sepc, 2);
}

#[test]
fn a_timer_interrupt_makes_the_task_yield() {
    let (mut kernel, init) = boot_and_run();
    let thread = sys_thread_create(&mut kernel, 0, 0x2000, 0, SSTATUS) as usize;
    match trap_handler(&mut kernel, 0, INTERRUPT | 5, 0) {
        TrapAction::Yield(switch) => {
            assert_eq!(switch, SwitchRequest { save: ContextSlot::Task(init), load: ContextSlot::Idle(0) });
        }
        _ => panic!("the task was to yield"),
    }
    check_invariants(&kernel);
    assert_eq!(Processor::run(&mut kernel, 0).unwrap().load, ContextSlot::Task(thread));
    assert_eq!(ready(&kernel), vec![init]);
}

#[test]
fn other_causes_stop_the_kernel() {
    let (mut kernel, init) = boot_and_run();
    for (scause, stval) in [(3usize, 1usize), (INTERRUPT | 9, 2), (INTERRUPT | 1, 3), (9, 4)] {
        match trap_handler(&mut kernel, 0, scause, stval) {
            TrapAction::Unsupported { scause: cause, stval: value } => {
                assert_eq!((cause, value), (scause, stval));
            }
            _ => panic!("the cause is not provided for"),
        }
    }
    assert_eq!(task(&kernel, init).inner.signals.bits, 0);
    check_invariants(&kernel);
}

#[test]
fn the_return_to_user_mode_names_frame_token_and_restore_routine() {
    let (mut kernel, init) = boot_and_run();
    assert_eq!(current_trap_cx_user_va(&kernel, 0), TRAP_CONTEXT_BASE - init * PAGE_SIZE);
    let expected = TrapReturn {
        stvec: TRAMPOLINE,
        trap_cx_ptr: TRAP_CONTEXT_BASE - PAGE_SIZE,
        user_satp: 0x100,
        restore_va: TRAMPOLINE + 0x40,
    };
    assert_eq!(trap_return(&kernel, 0), expected);
    match trap_finish(&mut kernel, 0) {
        TrapExit::Return(ret) => assert_eq!(ret, expected),
        TrapExit::Exit { .. } => panic!("no fatal signal is pending"),
    }
    let child = kernel.fork(0, 0x200);
    assert_eq!(Processor::run(&mut kernel, 2).unwrap().load, ContextSlot::Task(child));
    let ret = trap_return(&kernel, 2);
    assert_eq!(ret.trap_cx_ptr, TRAP_CONTEXT_BASE - 2 * PAGE_SIZE);
    assert_eq!(ret.user_satp, 0x200);
}

#[test]
fn signals_are_added_to_the_current_task() {
    let (mut kernel, init) = boot_and_run();
    current_add_signal(&mut kernel, 0, SignalFlags { bits: SIGUSR1 });
    current_add_signal(&mut kernel, 0, SignalFlags { bits: SIGSTOP });
    current_add_signal(&mut kernel, 0, SignalFlags { bits: SIGUSR1 });
    assert_eq!(task(&kernel, init).inner.signals.bits, SIGUSR1 | SIGSTOP);
    assert_eq!(check_signals_error_of_current(&kernel, 0), None);
    check_invariants(&kernel);
}

#[test]
fn a_task_without_pending_signals_goes_on_unchanged() {
    let (mut kernel, init) = boot_and_run();
    let before = task(&kernel, init).inner.trap_cx;
    for _ in 0..2 {
        assert_eq!(handle_signals(&mut kernel, 0, false), None);
        assert_eq!(check_signals_error_of_current(&kernel, 0), None);
        let t = task(&kernel, init);
        assert_eq!(t.inner.signals.bits, 0);
        assert_eq!(t.inner.handling_sig, -1);
        assert!(!t.inner.killed && !t.inner.frozen);
        assert_eq!(t.inner.trap_cx.sepc, before.sepc);
        assert_eq!(t.inner.trap_cx.x, before.x);
        assert!(t.inner.trap_ctx_backup.is_none());
        assert_eq!(t.inner.task_status, TaskStatus::Running(0));
    }
    assert!(matches!(trap_finish(&mut kernel, 0), TrapExit::Return(_)));
    check_invariants(&kernel);
}

#[test]
fn a_frozen_task_yields_until_it_is_thawed() {
    let (mut kernel, init) = boot_and_run();
    current_add_signal(&mut kernel, 0, SignalFlags { bits: SIGSTOP });
    // first round: stop is delivered, the task is frozen and gives up the core
    let switch = handle_signals(&mut kernel, 0, false);
    assert_eq!(switch, Some(SwitchRequest { save: ContextSlot::Task(init), load: ContextSlot::Idle(0) }));
    assert!(task(&kernel, init).inner.frozen);
    assert_eq!(task(&kernel, init).inner.signals.bits, 0);
    assert_eq!(yield_and_run(&mut kernel, 0), Some(init));
    // still frozen: another round, another yield
    assert!(handle_signals(&mut kernel, 0, true).is_some());
    assert_eq!(yield_and_run(&mut kernel, 0), Some(init));
    // continue arrives; the round that follows delivers it before the task yields
    current_add_signal(&mut kernel, 0, SignalFlags { bits: SIGCONT });
    assert!(handle_signals(&mut kernel, 0, true).is_some());
    assert!(!task(&kernel, init).inner.frozen);
    assert_eq!(yield_and_run(&mut kernel, 0), Some(init));
    assert_eq!(handle_signals(&mut kernel, 0, true), None);
    check_invariants(&kernel);
}

#[test]
fn a_frozen_task_that_is_killed_goes_on_to_its_end() {
    let (mut kernel, _) = boot_and_run();
    let child = kernel.fork(0, 0x200);
    assert_eq!(Processor::run(&mut kernel, 1).unwrap().load, ContextSlot::Task(child));
    current_add_signal(&mut kernel, 1, SignalFlags { bits: SIGSTOP | SIGKILL });
    assert_eq!(handle_signals(&mut kernel, 1, false), None);
    let t = task(&kernel, child);
    assert!(t.inner.frozen && t.inner.killed);
    match trap_finish(&mut kernel, 1) {
        TrapExit::Exit { errno, msg, .. } => {
            assert_eq!(errno, -9);
            assert_eq!(msg, "Killed, SIGKILL=9");
        }
        TrapExit::Return(_) => panic!("the task was killed"),
    }
    assert!(!live(&kernel, child));
    check_invariants(&kernel);
}

#[test]
fn the_table_of_tasks_by_identifier() {
    let (mut kernel, init) = boot_and_run();
    assert!(pid2task(&kernel.pid2tcb, init).is_some());
    assert!(pid2task(&kernel.pid2tcb, 0).is_none());
    assert!(pid2task(&kernel.pid2tcb, 55).is_none());
    let taken = remove_from_pid2task(&mut kernel.pid2tcb, init);
    assert_eq!(taken.pid, PidHandle(init));
    assert!(pid2task(&kernel.pid2tcb, init).is_none());
    insert_into_pid2task(&mut kernel.pid2tcb, 9, taken);
    assert_eq!(pid2task(&kernel.pid2tcb, 9).unwrap().pid, PidHandle(init));
    assert!(pid2task(&kernel.pid2tcb, 8).is_none());
}

#[test]
fn taking_the_current_task_empties_the_core() {
    let (mut kernel, init) = boot_and_run();
    assert_eq!(take_current_task(&mut kernel.processors, 0), Some(init));
    assert_eq!(take_current_task(&mut kernel.processors, 0), None);
    assert_eq!(current_task(&kernel, 0), None);
    let mut processor = Processor::new();
    assert_eq!(processor.current(), None);
    assert_eq!(processor.take_current(), None);
    assert_eq!(processor.take_current_mut(), None);
    processor.get_idle_task_cx_ptr().sp = 0x1234;
    assert_eq!(processor.idle_task_cx.sp, 0x1234);
    assert_eq!(Processor::default().idle_task_cx.ra, 0);
}

#[test]
fn run_next_marks_the_task_and_the_core() {
    let (mut kernel, init) = boot();
    let mut taken = remove_from_pid2task(&mut kernel.pid2tcb, init);
    let mut processor = Processor::new();
    let switch = processor.run_next(2, &mut taken);
    assert_eq!(switch, SwitchRequest { save: ContextSlot::Idle(2), load: ContextSlot::Task(init) });
    assert_eq!(processor.current(), Some(init));
    assert_eq!(taken.inner.task_status, TaskStatus::Running(2));
    taken.acquire_inner_lock().get_task_cx_ptr().ra = 0x42;
    assert_eq!(taken.inner.task_cx.ra, 0x42);
}

#[test]
fn two_cores_never_run_the_same_task() {
    let (mut kernel, _) = boot_and_run();
    for round in 0..6usize {
        let _ = sys_thread_create(&mut kernel, 0, 0x2000 + round, round, SSTATUS);
    }
    // the cores take turns: whoever asks next gets the head of the queue
    for step in 0..40usize {
        let hart_id = (step * 3 + step / 4) % CPU_NUM;
        if current_task(&kernel, hart_id).is_some() && step % 5 != 4 {
            let _ = suspend_current_and_run_next(&kernel, hart_id);
        }
        let _ = Processor::run(&mut kernel, hart_id);
        check_invariants(&kernel);
        let running: Vec<usize> = current_tasks(&kernel).into_iter().flatten().collect();
        for (i, pid) in running.iter().enumerate() {
            assert!(!running[i + 1..].contains(pid));
        }
    }
}

#[test]
fn exec_replaces_the_program_in_place() {
    let (mut kernel, init) = boot_and_run();
    let child = kernel.fork(0, 0x200);
    assert_eq!(Processor::run(&mut kernel, 1).unwrap().load, ContextSlot::Task(child));
    let before = task(&kernel, child);
    let (tgid, kstack, space, parent) =
        (before.tgid, before.kernel_stack.as_ref().map(|k| k.0), before.inner.memory_set, before.inner.parent);
    let mut program = image(0x900);
    program.entry = 0x20000;
    program.user_sp = 0x40000;
    let args = vec![b"ls".to_vec(), b"-l".to_vec()];
    let layout = kernel.exec(1, program, &args, SSTATUS).unwrap();
    check_invariants(&kernel);
    assert_eq!(layout.argv_base, 0x40000 - 24);
    assert_eq!(layout.argv, vec![0x40000 - 27, 0x40000 - 30, 0]);
    assert_eq!(layout.user_sp, 0x40000 - 32);
    let after = task(&kernel, child);
    assert_eq!(after.pid, PidHandle(child));
    assert_eq!(after.tgid, tgid);
    assert_eq!(after.kernel_stack.as_ref().map(|k| k.0), kstack);
    assert_eq!(after.inner.memory_set, space);
    assert_eq!(after.inner.parent, parent);
    assert_eq!(after.inner.task_status, TaskStatus::Running(1));
    assert_eq!(after.inner.trap_cx.sepc, 0x20000);
    assert_eq!(after.inner.trap_cx.x[2], layout.user_sp);
    assert_eq!(after.inner.trap_cx.x[10], 2);
    assert_eq!(after.inner.trap_cx.x[11], layout.argv_base);
    assert_eq!(after.inner.trap_cx.kernel_sp, TRAMPOLINE - 0x3000);
    let resources = kernel.spaces[space].as_ref().unwrap();
    assert_eq!(resources.memory_set.token(), 0x900);
    assert_eq!(resources.memory_set.areas.len(), 2);
    assert_eq!(resources.fd_table, vec![Some(STDIN), Some(STDOUT), Some(STDERR)]);
    // the parent is as it was
    assert_eq!(task(&kernel, init).inner.trap_cx.sepc, 0x10000);
}

#[test]
fn a_signal_is_raised_once() {
    let (mut kernel, init) = boot_and_run();
    let child = kernel.fork(0, 0x200);
    assert_eq!(sys_kill(&mut kernel, child, 10), 0);
    assert_eq!(task(&kernel, child).inner.signals.bits, SIGUSR1);
    // it is pending already
    assert_eq!(sys_kill(&mut kernel, child, 10), -1);
    assert_eq!(sys_kill(&mut kernel, child, 19), 0);
    assert_eq!(task(&kernel, child).inner.signals.bits, SIGUSR1 | SIGSTOP);
    assert_eq!(task(&kernel, init).inner.signals.bits, 0);
    check_invariants(&kernel);
}

#[test]
fn a_signal_for_nobody_or_of_no_number_is_refused() {
    let (mut kernel, init) = boot_and_run();
    assert_eq!(sys_kill(&mut kernel, 9, 10), -1);
    assert_eq!(sys_kill(&mut kernel, 0, 10), -1);
    assert_eq!(sys_kill(&mut kernel, init, -1), -1);
    assert_eq!(sys_kill(&mut kernel, init, 32), -1);
    assert_eq!(sys_kill(&mut kernel, init, i32::MAX), -1);
    assert_eq!(task(&kernel, init).inner.signals.bits, 0);
    assert_eq!(sys_kill(&mut kernel, init, 0), 0);
    assert_eq!(sys_kill(&mut kernel, init, 31), 0);
    assert_eq!(task(&kernel, init).inner.signals.bits, 1 | (1 << 31));
}

#[test]
fn the_mask_is_set_and_the_old_one_answered() {
    let (mut kernel, init) = boot_and_run();
    assert_eq!(sys_sigprocmask(&mut kernel, 0, SIGUSR1), 0);
    assert_eq!(sys_sigprocmask(&mut kernel, 0, SIGSTOP | SIGCONT), SIGUSR1 as isize);
    assert_eq!(task(&kernel, init).inner.signal_mask.bits, SIGSTOP | SIGCONT);
    check_invariants(&kernel);
}

#[test]
fn handlers_are_installed_but_not_for_kill_and_stop() {
    let (mut kernel, init) = boot_and_run();
    let action = SignalAction { handler: 0x5000, mask: SignalFlags { bits: SIGUSR1 } };
    assert_eq!(
        sys_sigaction(&mut kernel, 0, 10, Some(action)),
        Some(SignalAction { handler: 0, mask: SignalFlags { bits: 0 } })
    );
    assert_eq!(task(&kernel, init).inner.signal_actions.table[10], action);
    let other = SignalAction { handler: 0x6000, mask: SignalFlags { bits: 0 } };
    assert_eq!(sys_sigaction(&mut kernel, 0, 10, Some(other)), Some(action));
    assert_eq!(sys_sigaction(&mut kernel, 0, 9, Some(other)), None);
    assert_eq!(sys_sigaction(&mut kernel, 0, 19, Some(other)), None);
    assert_eq!(sys_sigaction(&mut kernel, 0, 32, Some(other)), None);
    assert_eq!(sys_sigaction(&mut kernel, 0, -3, Some(other)), None);
    assert_eq!(sys_sigaction(&mut kernel, 0, 11, None), None);
    let table = &task(&kernel, init).inner.signal_actions.table;
    assert_eq!(table[10], other);
    assert_eq!(table[9].handler, 0);
    assert_eq!(table[19].handler, 0);
    assert_eq!(table[11].handler, 0);
    check_invariants(&kernel);
}

#[test]
fn a_handler_runs_and_returns() {
    let (mut kernel, init) = boot_and_run();
    let action = SignalAction { handler: 0x5000, mask: SignalFlags { bits: SIGILL } };
    assert!(sys_sigaction(&mut kernel, 0, 10, Some(action)).is_some());
    current_trap_cx(&mut kernel, 0).x[10] = 0x1234;
    assert_eq!(sys_kill(&mut kernel, init, 10), 0);
    // no frame is kept aside yet
    assert_eq!(sys_sigreturn(&mut kernel, 0), -1);
    assert_eq!(handle_signals(&mut kernel, 0, false), None);
    {
        let t = task(&kernel, init);
        assert_eq!(t.inner.handling_sig, 10);
        assert_eq!(t.inner.signal_mask.bits, SIGILL);
        assert_eq!(t.inner.trap_cx.sepc, 0x5000);
        assert_eq!(t.inner.trap_cx.x[10], 10);
        assert_eq!(t.inner.signals.bits, 0);
    }
    // the handler finishes: the task goes on where it was
    assert_eq!(sys_sigreturn(&mut kernel, 0), 0x1234);
    let t = task(&kernel, init);
    assert_eq!(t.inner.handling_sig, -1);
    assert_eq!(t.inner.trap_cx.sepc, 0x10000);
    assert_eq!(t.inner.trap_cx.x[10], 0x1234);
    assert!(t.inner.trap_ctx_backup.is_none());
    check_invariants(&kernel);
}

#[test]
fn exec_with_arguments_that_do_not_fit_changes_nothing() {
    let (mut kernel, init) = boot_and_run();
    let mut program = image(0x900);
    program.user_sp = 12;
    let args = vec![b"a".to_vec()];
    assert!(kernel.exec(0, program, &args, SSTATUS).is_none());
    check_invariants(&kernel);
    let t = task(&kernel, init);
    assert_eq!(t.inner.trap_cx.sepc, 0x10000);
    assert_eq!(kernel.spaces[t.inner.memory_set].as_ref().unwrap().memory_set.token(), 0x100);
}

/// A small generator of numbers that look random.
struct Lcg(u64);

impl Lcg {
    fn next(&mut self, bound: usize) -> usize {
        self.0 = self.0.wrapping_mul(6364136223846793005).wrapping_add(1442695040888963407);
        ((self.0 >> 33) as usize) % bound
    }
}

#[test]
fn a_long_life_of_many_tasks_keeps_the_invariant() {
    let (mut kernel, init) = boot_and_run();
    let mut rng = Lcg(0x5eed);
    let mut tokens = 0x1000;
    let mut zombies: Vec<usize> = Vec::new();
    for _ in 0..3000 {
        let hart_id = rng.next(CPU_NUM);
        let current = current_task(&kernel, hart_id);
        match (rng.next(12), current) {
            (0, Some(_)) if kernel.has_room() => {
                tokens += 1;
                let child = kernel.fork(hart_id, tokens);
                assert_eq!(task(&kernel, child).tgid, child);
            }
            (1, Some(creator)) if kernel.has_room() => {
                let group = task(&kernel, creator).tgid;
                let thread = sys_thread_create(&mut kernel, hart_id, 0x2000, 1, SSTATUS) as usize;
                assert_eq!(task(&kernel, thread).tgid, group);
            }
            (2, Some(pid)) if pid != init => {
                let leader = task(&kernel, pid).tgid == pid;
                let code = rng.next(100) as i32;
                let switch = exit_current_and_run_next(&mut kernel, hart_id, code);
                assert_eq!(switch.load, ContextSlot::Idle(hart_id));
                assert_eq!(live(&kernel, pid), !leader);
                if !leader {
                    assert_eq!(task(&kernel, pid).inner.exit_code, Some(code));
                    zombies.push(pid);
                }
            }
            (3, _) if !zombies.is_empty() => {
                let pid = zombies.remove(rng.next(zombies.len()));
                let code = task(&kernel, pid).inner.exit_code.unwrap();
                assert_eq!(sys_waittid(&mut kernel, pid), code);
                assert_eq!(sys_waittid(&mut kernel, pid), -1);
            }
            (4, Some(pid)) if pid != init => {
                let _ = block_current_and_run_next(&mut kernel, hart_id);
                assert_eq!(task(&kernel, pid).inner.task_status, TaskStatus::Blocking);
            }
            (5, Some(_)) => {
                let signum = rng.next(32) as i32;
                let target = rng.next(kernel.pid2tcb.tasks.len() + 1);
                let _ = sys_kill(&mut kernel, target, signum);
            }
            (6, Some(pid)) if pid != init => {
                let _ = handle_signals(&mut kernel, hart_id, rng.next(2) == 0);
                if check_signals_error_of_current(&kernel, hart_id).is_some() {
                    let leader = task(&kernel, pid).tgid == pid;
                    assert!(matches!(trap_finish(&mut kernel, hart_id), TrapExit::Exit { .. }));
                    if !leader {
                        zombies.push(pid);
                    }
                }
            }
            (7, Some(_)) => {
                let scause = [8usize, 15, 2, INTERRUPT | 5, 3][rng.next(5)];
                let _ = trap_handler(&mut kernel, hart_id, scause, 0);
                // init is spared the consequences
                if current_task(&kernel, hart_id) == Some(init) {
                    kernel.pid2tcb.get_mut(init).inner.signals.bits = 0;
                }
            }
            (8, Some(_)) => {
                let _ = sys_sigreturn(&mut kernel, hart_id);
            }
            _ => {
                let _ = Processor::run(&mut kernel, hart_id);
            }
        }
        // the init process never holds a fatal signal for long
        if let Some(t) = kernel.pid2tcb.tasks[init].as_mut() {
            t.inner.signals.bits &= !(SIGKILL | SIGSEGV | SIGILL | (1 << 2) | (1 << 6) | (1 << 8));
        }
        check_invariants(&kernel);
        zombies.retain(|pid| live(&kernel, *pid) && task(&kernel, *pid).inner.task_status == TaskStatus::Zombie);
    }
    assert!(live(&kernel, init));
}

#[test]
fn a_blocking_task_is_woken_to_the_back_of_the_queue() {
    let (mut kernel, init) = boot_and_run();
    let thread = sys_thread_create(&mut kernel, 0, 0x2000, 0, SSTATUS) as usize;
    let _ = block_current_and_run_next(&mut kernel, 0);
    assert_eq!(ready(&kernel), vec![thread]);
    assert!(wakeup_task(&mut kernel, init));
    assert_eq!(ready(&kernel), vec![thread, init]);
    assert_eq!(task(&kernel, init).inner.task_status, TaskStatus::Ready);
    check_invariants(&kernel);
    // only a task that blocks is woken
    assert!(!wakeup_task(&mut kernel, init));
    assert!(!wakeup_task(&mut kernel, thread));
    assert!(!wakeup_task(&mut kernel, 77));
    assert_eq!(ready(&kernel), vec![thread, init]);
    assert_eq!(Processor::run(&mut kernel, 0).unwrap().load, ContextSlot::Task(thread));
    assert!(!wakeup_task(&mut kernel, thread));
    check_invariants(&kernel);
}

#[test]
fn the_fork_call_answers_the_child_with_zero() {
    let (mut kernel, init) = boot_and_run();
    {
        let cx = current_trap_cx(&mut kernel, 0);
        cx.x[10] = 0x55;
        cx.x[11] = 0x66;
        cx.sepc = 0x10010;
    }
    let child = sys_fork(&mut kernel, 0, 0x200);
    check_invariants(&kernel);
    assert_eq!(child, 2);
    let c = task(&kernel, 2);
    let p = task(&kernel, init);
    // the frame of the parent, but for the return value and the kernel stack
    assert_eq!(c.inner.trap_cx.x[10], 0);
    assert_eq!(c.inner.trap_cx.x[11], 0x66);
    assert_eq!(c.inner.trap_cx.sepc, 0x10010);
    assert_eq!(c.inner.trap_cx.kernel_sp, TRAMPOLINE - 0x3000);
    assert_eq!(p.inner.trap_cx.x[10], 0x55);
    assert_eq!(c.inner.parent, Some(init));
    assert_eq!(c.tgid, 2);
    assert_ne!(c.inner.memory_set, p.inner.memory_set);
    assert_eq!(ready(&kernel), vec![2]);
    // the parent gets the identifier of the child as the result of the call
    syscall_return(&mut kernel, 0, child);
    assert_eq!(task(&kernel, init).inner.trap_cx.x[10], 2);
    assert_eq!(task(&kernel, 2).inner.trap_cx.x[10], 0);
}

#[test]
fn a_thread_of_a_forked_child_is_nothing_to_the_parent() {
    let (mut kernel, parent) = boot_and_run();
    let child = sys_fork(&mut kernel, 0, 0x200) as usize;
    assert_eq!(Processor::run(&mut kernel, 1).unwrap().load, ContextSlot::Task(child));
    let parent_space = task(&kernel, parent).inner.memory_set;
    let child_space = task(&kernel, child).inner.memory_set;
    let parent_areas = kernel.spaces[parent_space].as_ref().unwrap().memory_set.areas.clone();
    let parent_frame = task(&kernel, parent).inner.trap_cx;
    let child_frame = task(&kernel, child).inner.trap_cx;
    let thread = sys_thread_create(&mut kernel, 1, 0x4000, 9, SSTATUS) as usize;
    check_invariants(&kernel);
    // the page of the thread's frame is mapped for the child's group alone
    assert_eq!(kernel.spaces[parent_space].as_ref().unwrap().memory_set.areas, parent_areas);
    let child_areas = &kernel.spaces[child_space].as_ref().unwrap().memory_set.areas;
    assert_eq!(child_areas.last().unwrap().start, TRAP_CONTEXT_BASE - thread * PAGE_SIZE);
    assert!(parent_areas.iter().all(|area| area.start != TRAP_CONTEXT_BASE - thread * PAGE_SIZE));
    assert_eq!(task(&kernel, thread).inner.memory_set, child_space);
    assert_eq!(task(&kernel, thread).tgid, child);
    // the frames of parent and child are as they were; the thread has one of its own
    assert_eq!(task(&kernel, parent).inner.trap_cx.x, parent_frame.x);
    assert_eq!(task(&kernel, parent).inner.trap_cx.sepc, parent_frame.sepc);
    assert_eq!(task(&kernel, child).inner.trap_cx.x, child_frame.x);
    assert_eq!(task(&kernel, thread).inner.trap_cx.sepc, 0x4000);
    assert_eq!(task(&kernel, thread).inner.trap_cx.x[10], 9);
    assert_eq!(task(&kernel, parent).inner.children, vec![child]);
    assert_eq!(task(&kernel, child).inner.children, vec![thread]);
}
