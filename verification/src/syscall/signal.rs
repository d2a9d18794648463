//! Raising a signal, masking signals, installing a handler, and returning
//! from one.

use vstd::prelude::*;
use vstd::array::spec_array_update;
use crate::config::CPU_NUM;
use crate::kernel::Kernel;
use crate::task::action::{SignalAction, SignalActions};
use crate::task::signal::{SignalFlags, MAX_SIG, SIGKILL, SIGSTOP};
use crate::task::signal_bit;
use crate::task::task::TaskControlBlockInner;
use crate::trap::context::REG_A0;

verus! {

/// `signum` is the number of a signal.
pub open spec fn is_signal(signum: i32) -> bool {
    0 <= signum <= MAX_SIG
}

impl Kernel {
    /// The signal `signum` can be raised on the task `pid`: the task
    /// exists, the number is that of a signal, and the signal is not
    /// pending on the task already.
    pub open spec fn can_raise(self, pid: usize, signum: i32) -> bool {
        &&& self.live(pid)
        &&& is_signal(signum)
        &&& !self.task(pid).inner.signals.has(signal_bit(signum as int))
    }
}

/// Raises the signal `signum` on the task `pid`. The answer is 0; it is -1,
/// and nothing changes, if there is no such task or no such signal, or if
/// the signal is pending on the task already.
pub fn sys_kill(kernel: &mut Kernel, pid: usize, signum: i32) -> (code: isize)
    requires
        old(kernel).wf(),
    ensures
        final(kernel).wf(),
        code == (if old(kernel).can_raise(pid, signum) {
            0isize
        } else {
            -1isize
        }),
        !old(kernel).can_raise(pid, signum) ==> *final(kernel) == *old(kernel),
        old(kernel).can_raise(pid, signum) ==> {
            let inner = old(kernel).task(pid).inner;
            &&& final(kernel).same_resources(*old(kernel))
            &&& final(kernel).processors@ == old(kernel).processors@
            &&& final(kernel).ready() == old(kernel).ready()
            &&& final(kernel).pid2tcb.tasks@ == old(kernel).tasks_with_inner(
                pid,
                TaskControlBlockInner {
                    signals: SignalFlags { bits: inner.signals.bits | signal_bit(signum as int).bits },
                    ..inner
                },
            )
        },
{
    if signum < 0 || signum > MAX_SIG as i32 {
        return -1;
    }
    let flag = SignalFlags { bits: 1u32 << (signum as u32) };
    match kernel.pid2tcb.get(pid) {
        Some(task) => {
            if task.inner.signals.contains(flag) {
                return -1;
            }
        },
        None => {
            return -1;
        },
    }
    assert(kernel.live(pid));
    // insert the signal if legal
    kernel.pid2tcb.get_mut(pid).inner.signals.insert(flag);
    proof {
        kernel.lemma_signals_changed(*old(kernel), pid);
    }
    0
}

/// Sets the signal mask of the task that runs on core `hart_id` to the
/// signals whose bits are set in `mask`. The answer is the mask that was
/// in force before.
pub fn sys_sigprocmask(kernel: &mut Kernel, hart_id: usize, mask: u32) -> (old_mask: isize)
    requires
        old(kernel).wf(),
        hart_id < CPU_NUM,
        old(kernel).current(hart_id).is_some(),
    ensures
        final(kernel).wf(),
        old_mask == old(kernel).task(old(kernel).current(hart_id).unwrap()).inner.signal_mask.bits as isize,
        final(kernel).same_resources(*old(kernel)),
        final(kernel).processors@ == old(kernel).processors@,
        final(kernel).ready() == old(kernel).ready(),
        ({
            let pid = old(kernel).current(hart_id).unwrap();
            let inner = old(kernel).task(pid).inner;
            final(kernel).pid2tcb.tasks@ == old(kernel).tasks_with_inner(
                pid,
                TaskControlBlockInner { signal_mask: SignalFlags { bits: mask }, ..inner },
            )
        }),
{
    let pid = kernel.processors[hart_id].current().unwrap();
    assert(kernel.live(pid));
    let task = kernel.pid2tcb.get_mut(pid);
    let old_mask = task.inner.signal_mask;
    if let Some(flag) = SignalFlags::from_bits(mask) {
        task.inner.signal_mask = flag;
    }
    proof {
        kernel.lemma_signals_changed(*old(kernel), pid);
    }
    #[verifier::truncate]
    (old_mask.bits as isize)
}

/// An action can be installed for the signal `signum`: the number is that
/// of a signal other than kill and stop, which no task can handle.
pub open spec fn can_install(signum: i32) -> bool {
    is_signal(signum) && signal_bit(signum as int).bits != SIGKILL && signal_bit(signum as int).bits != SIGSTOP
}

/// Installs `action` for the signal `signum` in the task that runs on core
/// `hart_id`. The answer is the action that was installed before; it is
/// nothing, and nothing changes, if no action is given, if there is no
/// such signal, or if the signal is kill or stop.
pub fn sys_sigaction(kernel: &mut Kernel, hart_id: usize, signum: i32, action: Option<SignalAction>) -> (old_action:
    Option<SignalAction>)
    requires
        old(kernel).wf(),
        hart_id < CPU_NUM,
        old(kernel).current(hart_id).is_some(),
    ensures
        final(kernel).wf(),
        ({
            let pid = old(kernel).current(hart_id).unwrap();
            let inner = old(kernel).task(pid).inner;
            if can_install(signum) && action.is_some() {
                &&& old_action == Some(inner.signal_actions.table@[signum as int])
                &&& final(kernel).same_resources(*old(kernel))
                &&& final(kernel).processors@ == old(kernel).processors@
                &&& final(kernel).ready() == old(kernel).ready()
                &&& final(kernel).pid2tcb.tasks@ == old(kernel).tasks_with_inner(
                    pid,
                    TaskControlBlockInner {
                        signal_actions: SignalActions {
                            table: spec_array_update(inner.signal_actions.table, signum as int, action.unwrap()),
                        },
                        ..inner
                    },
                )
            } else {
                &&& old_action.is_none()
                &&& *final(kernel) == *old(kernel)
            }
        }),
{
    let pid = kernel.processors[hart_id].current().unwrap();
    assert(kernel.live(pid));
    if signum < 0 || signum > MAX_SIG as i32 {
        return None;
    }
    let flag: u32 = 1u32 << (signum as u32);
    if flag == SIGKILL || flag == SIGSTOP {
        return None;
    }
    match action {
        Some(action) => {
            let task = kernel.pid2tcb.get_mut(pid);
            let prev_action = task.inner.signal_actions.table[signum as usize];
            task.inner.signal_actions.table[signum as usize] = action;
            proof {
                kernel.lemma_signals_changed(*old(kernel), pid);
            }
            Some(prev_action)
        },
        None => None,
    }
}

/// The handler of a signal of the task that runs on core `hart_id` has
/// finished: the task handles no signal any more, and goes on with the
/// trap frame that was kept aside when the handler took over. The answer
/// is the value of the first argument register in that frame; it is -1,
/// and nothing changes, if no frame was kept aside.
pub fn sys_sigreturn(kernel: &mut Kernel, hart_id: usize) -> (code: isize)
    requires
        old(kernel).wf(),
        hart_id < CPU_NUM,
        old(kernel).current(hart_id).is_some(),
    ensures
        final(kernel).wf(),
        ({
            let pid = old(kernel).current(hart_id).unwrap();
            let inner = old(kernel).task(pid).inner;
            match inner.trap_ctx_backup {
                Some(backup) => {
                    &&& code == backup.x@[REG_A0 as int] as isize
                    &&& final(kernel).same_resources(*old(kernel))
                    &&& final(kernel).processors@ == old(kernel).processors@
                    &&& final(kernel).ready() == old(kernel).ready()
                    &&& final(kernel).pid2tcb.tasks@ == old(kernel).tasks_with_inner(
                        pid,
                        TaskControlBlockInner { handling_sig: -1isize, trap_cx: backup, trap_ctx_backup: None, ..inner },
                    )
                },
                None => code == -1 && *final(kernel) == *old(kernel),
            }
        }),
{
    let pid = kernel.processors[hart_id].current().unwrap();
    assert(kernel.live(pid));
    match kernel.pid2tcb.get(pid).unwrap().inner.trap_ctx_backup {
        Some(backup) => {
            let task = kernel.pid2tcb.get_mut(pid);
            task.inner.handling_sig = -1;
            // restore the trap frame
            task.inner.trap_cx = backup;
            task.inner.trap_ctx_backup = None;
            proof {
                kernel.lemma_signals_changed(*old(kernel), pid);
            }
            backup.x[REG_A0] as isize
        },
        None => -1,
    }
}

} // verus!
