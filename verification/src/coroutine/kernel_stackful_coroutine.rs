//! Kernel threads as coroutines with a stack: they are scheduled with the
//! user tasks, start right in a kernel function, and give up the core of
//! their own accord.

use vstd::prelude::*;
use crate::config::CPU_NUM;
use crate::kernel::{Kernel, UserSpace};
use crate::mm::MemorySet;
use crate::task::action::SignalActions;
use crate::task::context::TaskContext;
use crate::task::kthread::exit_kthread_and_run_next;
use crate::task::pid::{kernel_stack_area, kernel_stack_top, KernelStack, PidHandle};
use crate::task::processor::SwitchRequest;
use crate::task::signal::SignalFlags;
use crate::task::suspend_current_and_run_next;
use crate::task::processor::ContextSlot;
use crate::task::task::{TaskControlBlock, TaskControlBlockInner};
use crate::trap::context::{sstatus_with, TrapContext, SSTATUS_SPP};

verus! {

impl TaskControlBlock {
    /// A kernel thread that starts right in the function at `entry`, on
    /// the kernel stack `kstack`: it leads its own group and has no
    /// parent.
    pub open spec fn is_coroutine(
        self,
        pid: usize,
        kstack: usize,
        memory_set: usize,
        entry: usize,
        symbols: crate::config::KernelSymbols,
        sstatus: usize,
    ) -> bool {
        &&& self.pid == PidHandle(pid)
        &&& self.tgid == pid
        &&& self.kernel_stack == Some(KernelStack(kstack))
        &&& self.inner.is_new(
            TaskContext::resuming_at(entry, kernel_stack_top(kstack) as usize),
            TrapContext::fresh(
                entry,
                kernel_stack_top(kstack) as usize,
                sstatus_with(sstatus, SSTATUS_SPP, true),
                symbols.kernel_token,
                kernel_stack_top(kstack) as usize,
                symbols.trap_handler,
            ),
            memory_set,
            None,
            SignalFlags { bits: 0 },
            self.inner.signal_actions,
        )
        &&& self.inner.signal_actions.all_default()
    }

    /// Makes a kernel thread that starts right in the function at `f`.
    pub fn create_kthread(
        pid: PidHandle,
        kernel_stack: KernelStack,
        memory_set: usize,
        f: usize,
        symbols: &crate::config::KernelSymbols,
        sstatus: usize,
    ) -> (thread: Self)
        requires
            crate::task::pid::kstack_in_range(kernel_stack.0),
        ensures
            thread.is_coroutine(pid.0, kernel_stack.0, memory_set, f, *symbols, sstatus),
    {
        let kernel_stack_top = kernel_stack.get_top();
        let trap_cx = TrapContext::kernel_init_context(
            f,
            kernel_stack_top,
            symbols.kernel_token,
            symbols.trap_handler,
            sstatus,
        );
        let tgid = pid.0;
        TaskControlBlock {
            pid,
            tgid,
            kernel_stack: Some(kernel_stack),
            inner: TaskControlBlockInner::new(
                TaskContext::goto_kernel_entry(f, kernel_stack_top),
                trap_cx,
                memory_set,
                None,
                SignalFlags::empty(),
                SignalActions::new(),
            ),
        }
    }
}

impl Kernel {
    /// `self` is `before` with one more kernel thread, `pid`, which starts
    /// right in the function at `f`. It has the next identifier and kernel
    /// stack, and works in user resources of its own, under the next
    /// identifier of such: an address space that `token` activates, with
    /// what is mapped in the kernel's own, its stack included, and no open
    /// file. Nothing else has changed but that the thread waits in the
    /// ready queue.
    pub open spec fn coroutine_added(self, before: Kernel, pid: usize, f: usize, token: usize, sstatus: usize) -> bool {
        let space = self.task(pid).inner.memory_set;
        let kstack = before.kstack_allocator@.next_id() as usize;
        &&& pid == before.pid_allocator@.next_id()
        &&& self.joined_by(before, pid)
        &&& self.pid_allocator@ == before.pid_allocator@.after_alloc()
        &&& self.kstack_allocator@ == before.kstack_allocator@.after_alloc()
        &&& self.space_allocator@ == before.space_allocator@.after_alloc()
        &&& self.kernel_tgid_allocator@ == before.kernel_tgid_allocator@
        &&& self.task(pid).is_coroutine(
            pid,
            kstack,
            before.space_allocator@.next_id() as usize,
            f,
            before.symbols,
            sstatus,
        )
        &&& !before.space_live(space)
        &&& self.space_live(space)
        &&& self.space(space).memory_set.token == token
        &&& self.space(space).memory_set.areas@ == before.kernel_space.areas@.push(kernel_stack_area(kstack))
        &&& self.space(space).fd_table@ == Seq::<Option<usize>>::empty()
        &&& forall|other: usize| other != space ==> #[trigger] self.space_live(other) == before.space_live(other)
        &&& forall|other: usize|
            other != space && #[trigger] self.space_live(other) ==> self.space(other) == before.space(other)
        &&& self.kernel_space.token == before.kernel_space.token
        &&& self.kernel_space.areas@ == before.kernel_space.areas@.push(kernel_stack_area(kstack))
    }
}

/// Creates a kernel thread that runs the function at `f`, in an address
/// space with what is mapped in the kernel's own, which `token`
/// activates. It is scheduled together with the user tasks. The answer is
/// its identifier.
pub fn kthread_create(kernel: &mut Kernel, f: usize, token: usize, sstatus: usize) -> (pid: usize)
    requires
        old(kernel).wf(),
        old(kernel).can_admit(),
        old(kernel).space_allocator@.next_id() < usize::MAX,
    ensures
        final(kernel).wf(),
        final(kernel).coroutine_added(*old(kernel), pid, f, token, sstatus),
{
    // create the kernel thread
    let (pid_handle, kernel_stack) = kernel.allocate_ids();
    let pid = pid_handle.0;
    let ghost with_ids = *kernel;
    let memory_set = MemorySet::from_existing_user(&kernel.kernel_space, token);
    let space = kernel.add_space(UserSpace { memory_set, fd_table: Vec::new() });
    let symbols = kernel.symbols;
    let new_tcb = TaskControlBlock::create_kthread(pid_handle, kernel_stack, space, f, &symbols, sstatus);
    proof {
        assert forall|other: usize| #[trigger] kernel.live(other) implies kernel.task(other).kernel_stack != Some(
            kernel_stack,
        ) by {
            assert(with_ids.live(other));
        }
        assert(!kernel.live(pid)) by {
            assert(!with_ids.live(pid));
        }
        assert(kernel.admits(new_tcb));
    }
    let ghost with_space = *kernel;
    // add the task to the scheduler, where it waits with the user tasks
    kernel.register_task(new_tcb);
    proof {
        assert forall|other: usize| other != space implies #[trigger] kernel.space_live(other) == old(
            kernel,
        ).space_live(other) by {
            assert(with_space.space_live(other) == with_ids.space_live(other));
        }
        assert forall|other: usize| other != space && #[trigger] kernel.space_live(other) implies kernel.space(
            other,
        ) == old(kernel).space(other) by {
            assert(with_space.space_live(other));
        }
    }
    pid
}

/// The kernel thread that runs on core `hart_id` stops: it exits with
/// exit code 0.
pub fn kthread_stop(kernel: &mut Kernel, hart_id: usize) -> (switch: SwitchRequest)
    requires
        old(kernel).wf(),
        hart_id < CPU_NUM,
        old(kernel).current(hart_id).is_some(),
        old(kernel).initproc != old(kernel).current(hart_id),
    ensures
        final(kernel).wf(),
        final(kernel).kthread_exited(*old(kernel), hart_id, 0, switch),
{
    do_exit(kernel, hart_id)
}

/// The kernel thread that runs on core `hart_id` exits with exit code 0.
pub fn do_exit(kernel: &mut Kernel, hart_id: usize) -> (switch: SwitchRequest)
    requires
        old(kernel).wf(),
        hart_id < CPU_NUM,
        old(kernel).current(hart_id).is_some(),
        old(kernel).initproc != old(kernel).current(hart_id),
    ensures
        final(kernel).wf(),
        final(kernel).kthread_exited(*old(kernel), hart_id, 0, switch),
{
    exit_kthread_and_run_next(kernel, hart_id, 0)
}

/// The kernel thread that runs on core `hart_id` gives up the core for now.
pub fn kthread_yield(kernel: &Kernel, hart_id: usize) -> (switch: SwitchRequest)
    requires
        hart_id < kernel.processors@.len(),
        kernel.current(hart_id).is_some(),
    ensures
        switch == (SwitchRequest {
            save: ContextSlot::Task(kernel.current(hart_id).unwrap()),
            load: ContextSlot::Idle(hart_id),
        }),
{
    suspend_current_and_run_next(kernel, hart_id)
}

} // verus!
