//! Creating a thread, asking for one's own identifier, and collecting the
//! exit code of a thread.

use vstd::prelude::*;
use crate::config::CPU_NUM;
use crate::kernel::Kernel;
use crate::task::task::TaskStatus;

verus! {

/// Answer to a wait for a thread that does not exist, or that leads its
/// group and so cannot be waited for.
pub const WAIT_NOT_FOUND: i32 = -1;

/// Answer to a wait for a thread that has not exited yet.
pub const WAIT_NOT_EXITED: i32 = -2;

impl Kernel {
    /// The exit code of the thread `pid` can be collected: the thread
    /// exists, does not lead its group, and has exited.
    pub open spec fn joinable(self, pid: usize) -> bool {
        self.live(pid) && self.task(pid).tgid != pid && self.task(pid).inner.exit_code.is_some()
    }

    /// What a wait for the thread `pid` answers.
    pub open spec fn waittid_result(self, pid: usize) -> i32 {
        if !self.live(pid) || self.task(pid).tgid == pid {
            WAIT_NOT_FOUND
        } else {
            match self.task(pid).inner.exit_code {
                Some(exit_code) => exit_code,
                None => WAIT_NOT_EXITED,
            }
        }
    }

    /// Once the exit code of a thread has been collected, a wait for the
    /// same identifier finds nothing.
    pub proof fn lemma_join_once(self, before: Kernel, pid: usize)
        requires
            before.joinable(pid),
            self.after_join(before, pid),
        ensures
            before.waittid_result(pid) == before.task(pid).inner.exit_code.unwrap(),
            self.waittid_result(pid) == WAIT_NOT_FOUND,
    {
    }
}

/// Answer to the creation of a thread when no further task has room.
pub const THREAD_NOT_CREATED: isize = -1;

/// The task that runs on core `hart_id` creates a thread of its group,
/// which starts at `entry` with `arg` as its argument and waits in the
/// ready queue. The thread works in the user resources of its creator, in
/// which the page of its trap frame is mapped; no other user resources
/// and no other task change, but that the creator has one more child. The
/// answer is the identifier of the thread. Where the identifiers of a
/// further task would have no addresses, the answer is -1 and nothing
/// changes. `sstatus` is the current value of the status register.
pub fn sys_thread_create(kernel: &mut Kernel, hart_id: usize, entry: usize, arg: usize, sstatus: usize) -> (tid:
    isize)
    requires
        old(kernel).wf(),
        hart_id < CPU_NUM,
        old(kernel).current(hart_id).is_some(),
    ensures
        final(kernel).wf(),
        if old(kernel).can_admit() {
            &&& tid == old(kernel).pid_allocator@.next_id()
            &&& final(kernel).thread_created(
                *old(kernel),
                hart_id,
                tid as usize,
                entry,
                arg,
                old(kernel).task(old(kernel).current(hart_id).unwrap()).tgid,
                sstatus,
            )
        } else {
            &&& tid == THREAD_NOT_CREATED
            &&& *final(kernel) == *old(kernel)
        },
{
    if !kernel.has_room_for_task() {
        return THREAD_NOT_CREATED;
    }
    let current_pid = kernel.processors[hart_id].current().unwrap();
    assert(kernel.live(current_pid));
    let group = kernel.pid2tcb.get(current_pid).unwrap().tgid;
    // add new task to scheduler
    let new_pid = kernel.new_user_thread(hart_id, entry, arg, group, sstatus);
    new_pid as isize
}

/// The identifier of the task that runs on core `hart_id`.
pub fn sys_gettid(kernel: &Kernel, hart_id: usize) -> (tid: isize)
    requires
        kernel.wf(),
        hart_id < CPU_NUM,
        kernel.current(hart_id).is_some(),
    ensures
        tid == kernel.current(hart_id).unwrap(),
{
    let pid = kernel.processors[hart_id].current().unwrap();
    assert(kernel.live(pid));
    pid as isize
}

/// Waits for the thread `pid`, without blocking. A thread that does not
/// exist, or that leads its group, is not found: the answer is -1. A
/// thread that has not exited yet gives -2. Otherwise the answer is the
/// exit code of the thread, and the thread is removed: its identifier is
/// free again, and a second wait finds nothing.
pub fn sys_waittid(kernel: &mut Kernel, pid: usize) -> (code: i32)
    requires
        old(kernel).wf(),
    ensures
        final(kernel).wf(),
        code == old(kernel).waittid_result(pid),
        !old(kernel).joinable(pid) ==> *final(kernel) == *old(kernel),
        old(kernel).joinable(pid) ==> {
            &&& final(kernel).after_join(*old(kernel), pid)
            &&& final(kernel).released(*old(kernel), pid)
            &&& final(kernel).ready() == old(kernel).ready()
            &&& final(kernel).processors@ == old(kernel).processors@
            &&& final(kernel).initproc == old(kernel).initproc
            &&& final(kernel).symbols == old(kernel).symbols
            &&& final(kernel).kernel_tgid_allocator@ == old(kernel).kernel_tgid_allocator@
        },
{
    let (tgid, exit_code) = match kernel.pid2tcb.get(pid) {
        Some(task) => (task.tgid, task.inner.exit_code),
        None => {
            // cannot find thread
            return WAIT_NOT_FOUND;
        },
    };
    if pid == tgid {
        // main thread cannot be waited
        return WAIT_NOT_FOUND;
    }
    if let Some(waited_exit_code) = exit_code {
        // thread has exited: its exit code is handed out once
        proof {
            assert(kernel.live(pid));
            assert(kernel.task(pid).inner.task_status == TaskStatus::Zombie);
            if kernel.initproc == Some(pid) {
                assert(false);
            }
        }
        kernel.join_task(pid);
        waited_exit_code
    } else {
        // thread has not exited yet
        WAIT_NOT_EXITED
    }
}

} // verus!
