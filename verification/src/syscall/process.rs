//! Forking the calling task.

use vstd::prelude::*;
use crate::config::CPU_NUM;
use crate::kernel::Kernel;
use crate::task::task::TaskControlBlockInner;
use crate::trap::context::REG_A0;

verus! {

/// Answer to a fork when no further process has room.
pub const FORK_FAILED: isize = -1;

impl Kernel {
    /// `self` is `forked`, the state right after a fork that made `child`,
    /// but that the child finds 0 as the result of the call: its trap
    /// frame is that of its parent but for the kernel stack and the
    /// register of the return value.
    pub open spec fn child_answered(self, forked: Kernel, child: usize) -> bool {
        let inner = forked.task(child).inner;
        &&& self.same_resources(forked)
        &&& self.processors@ == forked.processors@
        &&& self.ready() == forked.ready()
        &&& self.pid2tcb.tasks@ == forked.tasks_with_inner(
            child,
            TaskControlBlockInner { trap_cx: inner.trap_cx.with_reg(REG_A0 as int, 0), ..inner },
        )
    }
}

/// The task that runs on core `hart_id` forks: the child is a process of
/// its own in a copy of the parent's user resources, whose address space
/// `child_token` activates, and waits in the ready queue. The answer, for
/// the parent, is the identifier of the child; the child finds 0 in the
/// register of the return value. Where the identifiers of a further
/// process would have no addresses, the answer is -1 and nothing changes.
pub fn sys_fork(kernel: &mut Kernel, hart_id: usize, child_token: usize) -> (pid: isize)
    requires
        old(kernel).wf(),
        hart_id < CPU_NUM,
        old(kernel).current(hart_id).is_some(),
    ensures
        final(kernel).wf(),
        if old(kernel).can_admit() && old(kernel).space_allocator@.next_id() < usize::MAX {
            &&& pid == old(kernel).pid_allocator@.next_id()
            &&& exists|forked: Kernel|
                {
                    &&& forked.wf()
                    &&& #[trigger] forked.forked(*old(kernel), hart_id, pid as usize, child_token)
                    &&& final(kernel).child_answered(forked, pid as usize)
                }
        } else {
            &&& pid == FORK_FAILED
            &&& *final(kernel) == *old(kernel)
        },
{
    if !kernel.has_room() {
        return FORK_FAILED;
    }
    let child = kernel.fork(hart_id, child_token);
    let ghost forked = *kernel;
    // for the child, the call answers 0
    kernel.pid2tcb.get_mut(child).inner.trap_cx.x[REG_A0] = 0;
    proof {
        kernel.lemma_signals_changed(forked, child);
        assert(kernel.child_answered(forked, child));
    }
    child as isize
}

} // verus!
