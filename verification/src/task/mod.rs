//! Tasks: their identifiers, control blocks, signals and scheduling.

pub mod action;
pub mod context;
pub mod exec;
pub mod exit;
pub mod kthread;
pub mod lifecycle;
pub mod manager;
pub mod pid;
pub mod processor;
pub mod signal;
pub mod task;

use vstd::prelude::*;
use vstd::array::spec_array_update;
use crate::config::CPU_NUM;
use crate::kernel::Kernel;
use crate::mm::{LoadedImage, MapArea};
use crate::task::action::SIG_COUNT;
use crate::task::exit::{exited, with_parent};
use crate::task::lifecycle::standard_files;
use crate::task::manager::without_first;
use crate::task::pid::kernel_stack_area;
use crate::task::processor::{schedule, tasks_with_status, ContextSlot, SwitchRequest};
use crate::task::signal::{fatal_status, SignalFlags, MAX_SIG, SIGCONT, SIGDEF, SIGKILL, SIGSTOP};
use crate::task::task::{TaskControlBlockInner, TaskStatus};
use crate::trap::context::{TrapContext, REG_A0};

verus! {

/// The set that holds signal number `sig` alone.
pub open spec fn signal_bit(sig: int) -> SignalFlags {
    SignalFlags { bits: 1u32 << (sig as u32) }
}

/// Whether the kernel itself acts on `signal`: stop, continue, kill and the
/// default signal are not handed to the task.
pub open spec fn is_kernel_signal(signal: SignalFlags) -> bool {
    signal.bits == SIGKILL || signal.bits == SIGSTOP || signal.bits == SIGCONT || signal.bits == SIGDEF
}

impl TaskControlBlockInner {
    /// The number of the handled signal is that of a signal, or -1.
    pub open spec fn signal_wf(self) -> bool {
        -1 <= self.handling_sig < SIG_COUNT
    }

    /// Signal number `sig` is pending, not masked by the task, and not
    /// masked by the handler that runs, if one does.
    pub open spec fn deliverable(self, sig: int) -> bool {
        &&& self.signals.has(signal_bit(sig))
        &&& !self.signal_mask.has(signal_bit(sig))
        &&& (self.handling_sig == -1 || !self.signal_actions.table@[self.handling_sig as int].mask.has(
            signal_bit(sig),
        ))
    }

    /// The task after the kernel has acted on `signal`: stop freezes it and
    /// is no longer pending; continue, if pending, thaws it and is no
    /// longer pending; any other marks the task as killed.
    pub open spec fn after_kernel_signal(self, signal: SignalFlags) -> TaskControlBlockInner {
        if signal.bits == SIGSTOP {
            TaskControlBlockInner {
                frozen: true,
                signals: SignalFlags { bits: self.signals.bits ^ SIGSTOP },
                ..self
            }
        } else if signal.bits == SIGCONT {
            if self.signals.has(SignalFlags { bits: SIGCONT }) {
                TaskControlBlockInner {
                    frozen: false,
                    signals: SignalFlags { bits: self.signals.bits ^ SIGCONT },
                    ..self
                }
            } else {
                self
            }
        } else {
            TaskControlBlockInner { killed: true, ..self }
        }
    }

    /// The task after signal number `sig` has been handed to its handler:
    /// the handler's mask is in force, the signal is no longer pending, the
    /// trap frame is kept aside, and the task resumes in the handler with
    /// the signal number as its argument.
    pub open spec fn after_user_signal(self, sig: int) -> TaskControlBlockInner {
        let action = self.signal_actions.table@[sig];
        TaskControlBlockInner {
            signal_mask: action.mask,
            handling_sig: sig as isize,
            signals: SignalFlags { bits: self.signals.bits ^ signal_bit(sig).bits },
            trap_ctx_backup: Some(self.trap_cx),
            trap_cx: TrapContext {
                sepc: action.handler,
                x: spec_array_update(self.trap_cx.x, REG_A0 as int, sig as usize),
                ..self.trap_cx
            },
            ..self
        }
    }

    /// The task after the signals from number `from` up have been looked
    /// at in turn. The kernel acts on each deliverable signal of its own
    /// and goes on; the first deliverable signal of the task's goes to its
    /// handler, and the rest wait.
    pub open spec fn after_pending_from(self, from: int) -> TaskControlBlockInner
        decreases SIG_COUNT - from,
    {
        if from < 0 || from >= SIG_COUNT {
            self
        } else if !self.deliverable(from) {
            self.after_pending_from(from + 1)
        } else if is_kernel_signal(signal_bit(from)) {
            self.after_kernel_signal(signal_bit(from)).after_pending_from(from + 1)
        } else {
            self.after_user_signal(from)
        }
    }

    /// The task after every signal has been looked at.
    pub open spec fn after_pending_signals(self) -> TaskControlBlockInner {
        self.after_pending_from(0)
    }

    /// Looking at the signals of a task on which none is pending changes
    /// nothing.
    pub proof fn lemma_no_pending_is_noop(self, from: int)
        requires
            self.signals.bits == 0,
            0 <= from,
        ensures
            self.after_pending_from(from) == self,
        decreases SIG_COUNT - from,
    {
        if from < SIG_COUNT {
            let shift = from as u32;
            assert(0u32 & (1u32 << shift) != (1u32 << shift)) by (bit_vector)
                requires
                    shift < 32,
            ;
            self.lemma_no_pending_is_noop(from + 1);
        }
    }

    /// Looking at the signals keeps the number of the handled signal in
    /// range, and touches nothing but the signal state and the trap frame.
    pub proof fn lemma_after_pending_frame(self, from: int)
        requires
            self.signal_wf(),
            0 <= from,
        ensures
            self.after_pending_from(from).signal_wf(),
            self.after_pending_from(from).task_status == self.task_status,
            self.after_pending_from(from).task_cx == self.task_cx,
            self.after_pending_from(from).memory_set == self.memory_set,
            self.after_pending_from(from).parent == self.parent,
            self.after_pending_from(from).children == self.children,
            self.after_pending_from(from).exit_code == self.exit_code,
            self.after_pending_from(from).signal_actions == self.signal_actions,
            self.after_pending_from(from).flags == self.flags,
        decreases SIG_COUNT - from,
    {
        if from < SIG_COUNT {
            if !self.deliverable(from) {
                self.lemma_after_pending_frame(from + 1);
            } else if is_kernel_signal(signal_bit(from)) {
                self.after_kernel_signal(signal_bit(from)).lemma_after_pending_frame(from + 1);
            }
        }
    }
}

/// Acts on a signal that the kernel handles itself.
pub fn call_kernel_signal_handler(task_inner: &mut TaskControlBlockInner, signal: SignalFlags)
    ensures
        *final(task_inner) == old(task_inner).after_kernel_signal(signal),
{
    if signal.bits == SIGSTOP {
        task_inner.frozen = true;
        task_inner.signals.toggle(SignalFlags { bits: SIGSTOP });
    } else if signal.bits == SIGCONT {
        if task_inner.signals.contains(SignalFlags { bits: SIGCONT }) {
            task_inner.signals.toggle(SignalFlags { bits: SIGCONT });
            task_inner.frozen = false;
        }
    } else {
        task_inner.killed = true;
    }
}

/// Hands signal number `sig`, which is `signal` as a set, to the handler
/// that the task has installed for it.
pub fn call_user_signal_handler(task_inner: &mut TaskControlBlockInner, sig: usize, signal: SignalFlags)
    requires
        sig <= MAX_SIG,
        signal == signal_bit(sig as int),
    ensures
        *final(task_inner) == old(task_inner).after_user_signal(sig as int),
{
    let handler = task_inner.signal_actions.table[sig].handler;
    // change current mask
    task_inner.signal_mask = task_inner.signal_actions.table[sig].mask;
    // handle flag
    task_inner.handling_sig = sig as isize;
    task_inner.signals.toggle(signal);
    // back up the trap frame, then redirect it
    task_inner.trap_ctx_backup = Some(task_inner.trap_cx);
    task_inner.trap_cx.sepc = handler;
    task_inner.trap_cx.x[REG_A0] = sig;
}

/// Looks at every signal in turn and delivers those that are due.
pub fn check_pending_signals(task_inner: &mut TaskControlBlockInner)
    requires
        old(task_inner).signal_wf(),
    ensures
        *final(task_inner) == old(task_inner).after_pending_signals(),
        final(task_inner).signal_wf(),
{
    proof {
        task_inner.lemma_after_pending_frame(0);
    }
    let mut sig: usize = 0;
    while sig < MAX_SIG + 1
        invariant
            sig <= MAX_SIG + 1,
            task_inner.signal_wf(),
            task_inner.after_pending_from(sig as int) == old(task_inner).after_pending_signals(),
        decreases MAX_SIG + 1 - sig,
    {
        let signal = SignalFlags::from_bits(1u32 << (sig as u32)).unwrap();
        if task_inner.signals.contains(signal) && (!task_inner.signal_mask.contains(signal)) {
            let due = if task_inner.handling_sig == -1 {
                true
            } else {
                !task_inner.signal_actions.table[task_inner.handling_sig as usize].mask.contains(signal)
            };
            if due {
                if signal.bits == SIGKILL || signal.bits == SIGSTOP || signal.bits == SIGCONT
                    || signal.bits == SIGDEF {
                    // signal is a kernel signal
                    call_kernel_signal_handler(task_inner, signal);
                } else {
                    // signal is a user signal
                    call_user_signal_handler(task_inner, sig, signal);
                    return;
                }
            }
        }
        sig += 1;
    }
}

/// The task that runs on core `hart_id` gives up the core for now: the
/// switch that is returned saves it and enters the core's scheduling loop,
/// which puts the task at the back of the ready queue.
pub fn suspend_current_and_run_next(kernel: &Kernel, hart_id: usize) -> (switch: SwitchRequest)
    requires
        hart_id < kernel.processors@.len(),
        kernel.current(hart_id).is_some(),
    ensures
        switch == (SwitchRequest {
            save: ContextSlot::Task(kernel.current(hart_id).unwrap()),
            load: ContextSlot::Idle(hart_id),
        }),
        switch.through_idle(hart_id),
{
    // There must be an application running.
    let task = kernel.processors[hart_id].current().unwrap();
    // jump to scheduling cycle
    schedule(hart_id, ContextSlot::Task(task))
}

/// The task that runs on core `hart_id` suspends itself until it is woken:
/// it leaves the core and is blocking; the switch that is returned saves
/// it and enters the core's scheduling loop.
pub fn block_current_and_run_next(kernel: &mut Kernel, hart_id: usize) -> (switch: SwitchRequest)
    requires
        old(kernel).wf(),
        hart_id < CPU_NUM,
        old(kernel).current(hart_id).is_some(),
    ensures
        final(kernel).wf(),
        final(kernel).same_resources(*old(kernel)),
        final(kernel).same_cores_but(*old(kernel), hart_id, None),
        final(kernel).ready() == old(kernel).ready(),
        final(kernel).pid2tcb.tasks@ == tasks_with_status(
            old(kernel).pid2tcb.tasks@,
            old(kernel).current(hart_id).unwrap(),
            TaskStatus::Blocking,
        ),
        switch == (SwitchRequest {
            save: ContextSlot::Task(old(kernel).current(hart_id).unwrap()),
            load: ContextSlot::Idle(hart_id),
        }),
        switch.through_idle(hart_id),
{
    let pid = kernel.processors[hart_id].take_current().unwrap();
    assert(old(kernel).current(hart_id) == Some(pid));
    assert(kernel.live(pid));
    let task = kernel.pid2tcb.get_mut(pid);
    task.inner.task_status = TaskStatus::Blocking;
    proof {
        let before = *old(kernel);
        assert(!before.ready().contains(pid));
        kernel.lemma_moved_task(before, pid);
    }
    schedule(hart_id, ContextSlot::Task(pid))
}

/// Wakes the task `pid` if it is blocking: it is ready again and goes to
/// the back of the ready queue. The answer says whether it was woken; a
/// task that does not exist or does not block stays as it is.
pub fn wakeup_task(kernel: &mut Kernel, pid: usize) -> (woken: bool)
    requires
        old(kernel).wf(),
    ensures
        final(kernel).wf(),
        woken == (old(kernel).live(pid) && old(kernel).task(pid).inner.task_status == TaskStatus::Blocking),
        !woken ==> *final(kernel) == *old(kernel),
        woken ==> {
            &&& final(kernel).same_resources(*old(kernel))
            &&& final(kernel).processors@ == old(kernel).processors@
            &&& final(kernel).ready() == old(kernel).ready().push(pid)
            &&& final(kernel).pid2tcb.tasks@ == tasks_with_status(old(kernel).pid2tcb.tasks@, pid, TaskStatus::Ready)
        },
{
    match kernel.pid2tcb.get(pid) {
        Some(task) => {
            if task.inner.task_status != TaskStatus::Blocking {
                return false;
            }
        },
        None => {
            return false;
        },
    }
    kernel.pid2tcb.get_mut(pid).inner.task_status = TaskStatus::Ready;
    kernel.task_manager.add(pid);
    proof {
        let before = *old(kernel);
        assert(!before.ready().contains(pid));
        crate::kernel::lemma_push_contains(before.ready(), pid);
        assert forall|hart_id: usize| hart_id < CPU_NUM implies before.current(hart_id) != Some(pid) by {
            if before.current(hart_id) == Some(pid) {
                assert(before.current(hart_id).is_some());
            }
        }
        assert(before.live(pid));
        kernel.lemma_moved_task(before, pid);
    }
    true
}

impl Kernel {
    /// What `self`, the state after the exit of the group leader `pid` of
    /// `before`, has made of the other tasks: the children of `pid` name
    /// `init` as their parent and are children of `init`, after those that
    /// `init` had, each once; the parent of `pid` has lost it; nothing else
    /// has changed in any task.
    pub open spec fn after_leader_exit(self, before: Kernel, pid: usize, init: usize) -> bool {
        let orphans = before.task(pid).inner.children@;
        &&& !self.live(pid)
        &&& forall|other: usize| other != pid ==> #[trigger] self.live(other) == before.live(other)
        &&& forall|other: usize| #[trigger]
            self.live(other) ==> {
                let was = before.task(other);
                let adopted = if other == init {
                    was.inner.children@ + orphans
                } else {
                    was.inner.children@
                };
                &&& self.task(other).same_but_children(with_parent(was, self.task(other).inner.parent))
                &&& self.task(other).inner.parent == (if orphans.contains(other) {
                    Some(init)
                } else {
                    was.inner.parent
                })
                &&& self.task(other).inner.children@ == (if before.task(pid).inner.parent == Some(other) {
                    without_first(adopted, pid)
                } else {
                    adopted
                })
                &&& other != init && before.task(pid).inner.parent != Some(other) ==> self.task(other)
                    == with_parent(was, self.task(other).inner.parent)
            }
    }

    /// `self` is the state after the task that ran on core `hart_id` in
    /// `before` has exited with `exit_code`, and `switch` the switch that
    /// follows, which enters the scheduling loop of the core and saves
    /// nothing that will be resumed. The core runs nothing. A thread that
    /// did not lead its group is a zombie with that exit code. The leader
    /// of a group is gone: its children are with the init process, its
    /// parent has lost it, its identifier and its kernel stack are free
    /// again, the stack is unmapped, and its user resources are recycled.
    pub open spec fn user_exited(self, before: Kernel, hart_id: usize, exit_code: i32, switch: SwitchRequest) -> bool {
        let pid = before.current(hart_id).unwrap();
        let task = before.task(pid);
        &&& switch == (SwitchRequest { save: ContextSlot::Discard, load: ContextSlot::Idle(hart_id) })
        &&& switch.through_idle(hart_id)
        &&& self.same_cores_but(before, hart_id, None)
        &&& self.ready() == before.ready()
        &&& self.initproc == before.initproc
        &&& self.symbols == before.symbols
        &&& self.kernel_tgid_allocator@ == before.kernel_tgid_allocator@
        &&& if task.tgid != pid {
            &&& self.same_resources(before)
            &&& self.pid2tcb.tasks@ == before.pid2tcb.tasks@.update(pid as int, Some(exited(task, exit_code)))
        } else {
            &&& self.after_leader_exit(before, pid, before.initproc.unwrap())
            &&& self.after_leader_exit_spaces(before, pid)
            &&& self.pid_allocator@ == (if pid != 0 {
                before.pid_allocator@.after_dealloc(pid)
            } else {
                before.pid_allocator@
            })
            &&& self.kernel_space.token == before.kernel_space.token
            &&& match task.kernel_stack {
                Some(kstack) => {
                    &&& self.kstack_allocator@ == before.kstack_allocator@.after_dealloc(kstack.0)
                    &&& self.kernel_space.areas@ == crate::mm::without_area(
                        before.kernel_space.areas@,
                        crate::task::pid::kernel_stack_bottom(kstack.0) as usize,
                    )
                },
                None => {
                    &&& self.kstack_allocator@ == before.kstack_allocator@
                    &&& self.kernel_space.areas@ == before.kernel_space.areas@
                },
            }
        }
    }

    /// What `self`, the state after the exit of the group leader `pid` of
    /// `before`, has made of the user resources in which `pid` worked:
    /// they are freed, or, where another task works in them, nothing is
    /// mapped in them and no file is open. No other user resources have
    /// changed.
    pub open spec fn after_leader_exit_spaces(self, before: Kernel, pid: usize) -> bool {
        let space = before.task(pid).inner.memory_set;
        &&& self.space_live(space) == self.space_in_use(space)
        &&& self.space_live(space) ==> {
            &&& self.space(space).memory_set.token == before.space(space).memory_set.token
            &&& self.space(space).memory_set.areas@ == Seq::<MapArea>::empty()
            &&& self.space(space).fd_table@ == Seq::<Option<usize>>::empty()
        }
        &&& self.space_allocator@ == (if self.space_in_use(space) {
            before.space_allocator@
        } else {
            before.space_allocator@.after_dealloc(space)
        })
        &&& forall|other: usize| other != space ==> #[trigger] self.space_live(other) == before.space_live(other)
        &&& forall|other: usize|
            other != space && #[trigger] self.space_live(other) ==> self.space(other) == before.space(other)
    }
}

impl Kernel {
    /// After the exit of the leader of a group, every task that was its
    /// child is a child of the init process, once, and names the init
    /// process as its parent; and the children that the init process had
    /// are its children still, but for the one that exited.
    pub proof fn lemma_orphans_adopted_once(self, before: Kernel, pid: usize, init: usize, child: usize)
        requires
            before.wf(),
            self.wf(),
            before.live(pid),
            before.live(init),
            pid != init,
            before.task(init).inner.parent.is_none(),
            self.after_leader_exit(before, pid, init),
            before.task(pid).inner.children@.contains(child),
        ensures
            self.live(init),
            self.live(child),
            self.task(child) == with_parent(before.task(child), Some(init)),
            self.task(init).inner.children@.contains(child),
            self.task(init).inner.children@.no_duplicates(),
            forall|i: int, j: int|
                0 <= i < self.task(init).inner.children@.len() && 0 <= j < self.task(init).inner.children@.len()
                    && self.task(init).inner.children@[i] == child && self.task(init).inner.children@[j] == child
                    ==> i == j,
            forall|other: usize|
                other != pid && before.task(init).inner.children@.contains(other) ==> self.task(
                    init,
                ).inner.children@.contains(other),
    {
        let orphans = before.task(pid).inner.children@;
        let had = before.task(init).inner.children@;
        let adopted = had + orphans;
        let at = choose|at: int| 0 <= at < orphans.len() && orphans[at] == child;
        assert(before.live(before.task(pid).inner.children@[at]));
        assert(before.task(child).inner.parent == Some(pid));
        assert(child != pid);
        assert(child != init);
        assert(self.live(init));
        assert(self.live(child));
        assert(before.task(pid).inner.parent != Some(child)) by {
            let rank = choose|rank: spec_fn(usize) -> nat| #[trigger] before.ranked(rank);
            assert(rank(pid) < rank(child));
        }
        assert(adopted[had.len() + at] == child);
        assert(adopted.contains(child));
        assert forall|i: int, j: int| 0 <= i < adopted.len() && 0 <= j < adopted.len() && i != j implies adopted[i]
            != adopted[j] by {
            if i < had.len() && j >= had.len() {
                assert(before.live(before.task(init).inner.children@[i]));
                assert(before.live(before.task(pid).inner.children@[j - had.len()]));
            }
            if j < had.len() && i >= had.len() {
                assert(before.live(before.task(init).inner.children@[j]));
                assert(before.live(before.task(pid).inner.children@[i - had.len()]));
            }
        }
        crate::task::exit::lemma_without_first(adopted, pid);
        assert forall|other: usize| other != pid && had.contains(other) implies self.task(
            init,
        ).inner.children@.contains(other) by {
            let k = choose|k: int| 0 <= k < had.len() && had[k] == other;
            assert(adopted[k] == other);
        }
    }
}

/// The task that runs on core `hart_id` exits with `exit_code`. A thread
/// that does not lead its group stays in the table of tasks as a zombie,
/// until its exit code is collected. The leader of a group is removed at
/// once: its children go to the init process, its user resources are
/// recycled, its identifier and its kernel stack are free again. The
/// switch that is returned enters the core's scheduling loop and saves
/// nothing that will be resumed.
pub fn exit_current_and_run_next(kernel: &mut Kernel, hart_id: usize, exit_code: i32) -> (switch: SwitchRequest)
    requires
        old(kernel).wf(),
        hart_id < CPU_NUM,
        old(kernel).current(hart_id).is_some(),
        old(kernel).initproc.is_some(),
        old(kernel).initproc != old(kernel).current(hart_id),
    ensures
        final(kernel).wf(),
        final(kernel).user_exited(*old(kernel), hart_id, exit_code, switch),
{
    let ghost before = *old(kernel);
    // take from Processor, change status to Zombie, record exit code
    let pid = kernel.retire_current(hart_id, exit_code);
    let ghost retired = *kernel;
    assert(before.live(pid));
    assert(kernel.live(pid));
    let tgid = kernel.pid2tcb.get(pid).unwrap().tgid;
    // main thread exit
    if pid == tgid {
        let init = kernel.initproc.unwrap();
        assert(kernel.live(init));
        // move child to initproc
        kernel.reparent_children(pid, init);
        let ghost adopted = *kernel;
        assert(kernel.live(pid));
        let space = kernel.pid2tcb.get(pid).unwrap().inner.memory_set;
        assert(kernel.space_live(space));
        match &mut kernel.spaces[space] {
            Some(resources) => {
                // deallocate user space
                resources.memory_set.recycle_data_pages();
                // deallocate fdtable
                resources.fd_table.clear();
            },
            None => {},
        }
        let ghost recycled = *kernel;
        proof {
            assert forall|other: usize| #[trigger] recycled.space_live(other) == adopted.space_live(other) by {}
            assert forall|other: usize| #[trigger] recycled.space_live(other) implies recycled.space_allocator@.outstanding(
                other,
            ) by {
                assert(adopted.space_live(other));
            }
            recycled.lemma_resources_grew(adopted);
            assert(recycled.live(pid));
            assert(recycled.task(pid) == adopted.task(pid));
            assert(adopted.task(pid).same_but_children(
                with_parent(retired.task(pid), adopted.task(pid).inner.parent),
            ));
        }
        kernel.remove_task(pid);
        proof {
            let after = *kernel;
            let orphans = before.task(pid).inner.children@;
            assert(retired.task(pid).inner.children@ == orphans);
            assert(retired.task(init) == before.task(init));
            assert(adopted.task(pid).inner.parent == before.task(pid).inner.parent);
            assert forall|other: usize| other != pid implies #[trigger] after.live(other) == before.live(other) by {
                assert(recycled.live(other) == adopted.live(other));
                assert(adopted.live(other) == retired.live(other));
            }
            assert forall|other: usize| #[trigger] after.live(other) implies {
                let was = before.task(other);
                let adopted_children = if other == init {
                    was.inner.children@ + orphans
                } else {
                    was.inner.children@
                };
                &&& after.task(other).same_but_children(with_parent(was, after.task(other).inner.parent))
                &&& after.task(other).inner.parent == (if orphans.contains(other) {
                    Some(init)
                } else {
                    was.inner.parent
                })
                &&& after.task(other).inner.children@ == (if before.task(pid).inner.parent == Some(other) {
                    without_first(adopted_children, pid)
                } else {
                    adopted_children
                })
                &&& other != init && before.task(pid).inner.parent != Some(other) ==> after.task(other)
                    == with_parent(was, after.task(other).inner.parent)
            } by {
                assert(other != pid);
                assert(recycled.live(other));
                assert(adopted.live(other));
                assert(retired.live(other));
                assert(before.live(other));
                assert(retired.task(other) == before.task(other));
                assert(recycled.task(other) == adopted.task(other));
                if orphans.contains(other) {
                    let i = choose|i: int| 0 <= i < orphans.len() && orphans[i] == other;
                    assert(adopted.task(orphans[i]) == with_parent(retired.task(orphans[i]), Some(init)));
                    assert(retired.live(retired.task(pid).inner.children@[i]));
                    assert(retired.task(other).inner.parent == Some(pid));
                    assert(other != init);
                } else if other != init {
                    assert(adopted.task(other) == retired.task(other));
                }
                if adopted.task(pid).inner.parent != Some(other) {
                    assert(after.task(other) == recycled.task(other));
                }
            }
            assert(kernel.space_in_use(space) == kernel.space_in_use(before.task(pid).inner.memory_set));
        }
    }
    // there is no task context to save
    schedule(hart_id, ContextSlot::Discard)
}

/// The exit status and the message of the fatal signal that is pending on
/// the task that runs on core `hart_id`, if one is.
pub fn check_signals_error_of_current(kernel: &Kernel, hart_id: usize) -> (fatal: Option<(i32, &'static str)>)
    requires
        kernel.wf(),
        hart_id < CPU_NUM,
        kernel.current(hart_id).is_some(),
    ensures
        fatal == fatal_status(kernel.task(kernel.current(hart_id).unwrap()).inner.signals.bits),
{
    let pid = kernel.processors[hart_id].current().unwrap();
    assert(kernel.live(pid));
    kernel.pid2tcb.get(pid).unwrap().inner.signals.check_error()
}

/// Leaves the signals of `signal` pending on the task that runs on core
/// `hart_id`.
pub fn current_add_signal(kernel: &mut Kernel, hart_id: usize, signal: SignalFlags)
    requires
        old(kernel).wf(),
        hart_id < CPU_NUM,
        old(kernel).current(hart_id).is_some(),
    ensures
        final(kernel).wf(),
        final(kernel).same_resources(*old(kernel)),
        final(kernel).processors@ == old(kernel).processors@,
        final(kernel).ready() == old(kernel).ready(),
        ({
            let pid = old(kernel).current(hart_id).unwrap();
            let inner = old(kernel).task(pid).inner;
            final(kernel).pid2tcb.tasks@ == old(kernel).tasks_with_inner(
                pid,
                TaskControlBlockInner { signals: SignalFlags { bits: inner.signals.bits | signal.bits }, ..inner },
            )
        }),
{
    let pid = kernel.processors[hart_id].current().unwrap();
    assert(kernel.live(pid));
    kernel.pid2tcb.get_mut(pid).inner.signals.insert(signal);
    proof {
        kernel.lemma_signals_changed(*old(kernel), pid);
    }
}

/// Makes the init process from the program `image` and puts it in the
/// ready queue. Orphans go to this process from now on. `sstatus` is the
/// current value of the status register.
pub fn add_initproc(kernel: &mut Kernel, image: LoadedImage, sstatus: usize) -> (pid: usize)
    requires
        old(kernel).wf(),
        old(kernel).initproc.is_none(),
        old(kernel).can_admit(),
        old(kernel).space_allocator@.next_id() < usize::MAX,
    ensures
        final(kernel).wf(),
        pid == old(kernel).pid_allocator@.next_id(),
        final(kernel).initproc == Some(pid),
        final(kernel).live(pid),
        !old(kernel).live(pid),
        final(kernel).ready() == old(kernel).ready().push(pid),
        final(kernel).processors@ == old(kernel).processors@,
        final(kernel).symbols == old(kernel).symbols,
        forall|other: usize| other != pid ==> #[trigger] final(kernel).live(other) == old(kernel).live(other),
        forall|other: usize|
            other != pid && #[trigger] final(kernel).live(other) ==> final(kernel).task(other) == old(kernel).task(
                other,
            ),
        final(kernel).pid_allocator@ == old(kernel).pid_allocator@.after_alloc(),
        final(kernel).kstack_allocator@ == old(kernel).kstack_allocator@.after_alloc(),
        final(kernel).space_allocator@ == old(kernel).space_allocator@.after_alloc(),
        final(kernel).kernel_tgid_allocator@ == old(kernel).kernel_tgid_allocator@,
        final(kernel).task(pid).is_process(
            pid,
            old(kernel).kstack_allocator@.next_id() as usize,
            old(kernel).space_allocator@.next_id() as usize,
            image.entry,
            image.user_sp,
            old(kernel).symbols,
            sstatus,
        ),
        final(kernel).space_live(final(kernel).task(pid).inner.memory_set),
        final(kernel).space(final(kernel).task(pid).inner.memory_set).memory_set == image.memory_set,
        final(kernel).space(final(kernel).task(pid).inner.memory_set).fd_table@ == standard_files(),
        forall|other: usize|
            other != final(kernel).task(pid).inner.memory_set ==> #[trigger] final(kernel).space_live(other) == old(
                kernel,
            ).space_live(other),
        forall|other: usize|
            other != final(kernel).task(pid).inner.memory_set && #[trigger] final(kernel).space_live(other)
                ==> final(kernel).space(other) == old(kernel).space(other),
        final(kernel).kernel_space.token == old(kernel).kernel_space.token,
        final(kernel).kernel_space.areas@ == old(kernel).kernel_space.areas@.push(
            kernel_stack_area(old(kernel).kstack_allocator@.next_id() as usize),
        ),
{
    let pid = kernel.new_process(image, sstatus);
    let ghost made = *kernel;
    kernel.initproc = Some(pid);
    proof {
        assert forall|other: usize| #[trigger] kernel.space_live(other) == made.space_live(other) by {}
        assert forall|other: usize| other != pid implies #[trigger] kernel.live(other) == old(kernel).live(other) by {
            assert(made.live(other) == old(kernel).live(other));
        }
        assert forall|other: usize| other != pid && #[trigger] kernel.live(other) implies kernel.task(other) == old(
            kernel,
        ).task(other) by {
            assert(made.live(other));
        }
        kernel.lemma_keeps_ids(made);
        kernel.lemma_keeps_spaces(made);
        kernel.lemma_keeps_status(made);
        kernel.lemma_keeps_schedule(made);
        assert(kernel.wf_forest()) by {
            let rank = choose|rank: spec_fn(usize) -> nat| #[trigger] made.ranked(rank);
            assert(kernel.ranked(rank)) by {
                assert forall|q: usize| #[trigger] kernel.live(q) implies match kernel.task(q).inner.parent {
                    Some(up) => rank(up) < rank(q),
                    None => true,
                } by {
                    assert(made.live(q));
                }
            }
        }
        assert(kernel.wf_tree()) by {
            assert forall|q: usize| #[trigger] kernel.live(q) implies made.live(q) by {}
            assert forall|q: usize, i: int| #[trigger]
                kernel.live(q) && 0 <= i < kernel.task(q).inner.children@.len() implies {
                let child = #[trigger] kernel.task(q).inner.children@[i];
                kernel.live(child) && kernel.task(child).inner.parent == Some(q)
            } by {
                assert(made.live(q));
                assert(made.live(made.task(q).inner.children@[i]));
            }
        }
    }
    pid
}

impl TaskControlBlockInner {
    /// The task may go on: it is not frozen, or it has been killed.
    pub open spec fn may_go_on(self) -> bool {
        !self.frozen || self.killed
    }

    /// The task after one round of signal handling. The first round of a
    /// return from a trap looks at the signals; a round after the task has
    /// been resumed does not. If the task may go on then, that is all;
    /// else the signals are looked at once more before it gives up the
    /// core.
    pub open spec fn after_handle_signals(self, resumed: bool) -> TaskControlBlockInner {
        let checked = if resumed {
            self
        } else {
            self.after_pending_signals()
        };
        if checked.may_go_on() {
            checked
        } else {
            checked.after_pending_signals()
        }
    }

    /// Whether the task gives up the core after one round of signal
    /// handling: it does while it is frozen and not killed.
    pub open spec fn handle_signals_waits(self, resumed: bool) -> bool {
        let checked = if resumed {
            self
        } else {
            self.after_pending_signals()
        };
        !checked.may_go_on()
    }

    /// A round of signal handling on a task on which no signal is pending
    /// and which is not frozen changes nothing and lets the task go on,
    /// however often it is repeated.
    pub proof fn lemma_handle_signals_idle(self, resumed: bool)
        requires
            self.signals.bits == 0,
            !self.frozen,
        ensures
            self.after_handle_signals(resumed) == self,
            !self.handle_signals_waits(resumed),
            self.after_handle_signals(resumed).after_handle_signals(resumed) == self,
            fatal_status(self.signals.bits).is_none(),
    {
        self.lemma_no_pending_is_noop(0);
        assert(0u32 & (1u32 << 2) != (1u32 << 2) && 0u32 & (1u32 << 4) != (1u32 << 4) && 0u32 & (1u32 << 6) != (1u32
            << 6) && 0u32 & (1u32 << 8) != (1u32 << 8) && 0u32 & (1u32 << 9) != (1u32 << 9) && 0u32 & (1u32
            << 11) != (1u32 << 11)) by (bit_vector);
    }
}

/// One round of the handling of signals of the task that runs on core
/// `hart_id`. In the first round after a trap, `resumed` is false, and
/// the pending signals are looked at. If the task is then frozen and not
/// killed, the signals are looked at again and the task gives up the
/// core: the switch that is returned saves it, and when it runs again the
/// caller asks for another round, with `resumed` true. Otherwise nothing
/// is returned, and the task goes on.
pub fn handle_signals(kernel: &mut Kernel, hart_id: usize, resumed: bool) -> (switch: Option<SwitchRequest>)
    requires
        old(kernel).wf(),
        hart_id < CPU_NUM,
        old(kernel).current(hart_id).is_some(),
    ensures
        final(kernel).wf(),
        final(kernel).same_resources(*old(kernel)),
        final(kernel).processors@ == old(kernel).processors@,
        final(kernel).ready() == old(kernel).ready(),
        ({
            let pid = old(kernel).current(hart_id).unwrap();
            let inner = old(kernel).task(pid).inner;
            &&& final(kernel).pid2tcb.tasks@ == old(kernel).tasks_with_inner(
                pid,
                inner.after_handle_signals(resumed),
            )
            &&& switch == (if inner.handle_signals_waits(resumed) {
                Some(SwitchRequest { save: ContextSlot::Task(pid), load: ContextSlot::Idle(hart_id) })
            } else {
                None
            })
        }),
{
    let pid = kernel.processors[hart_id].current().unwrap();
    assert(kernel.live(pid));
    let ghost before = *old(kernel);
    let task_inner = &mut kernel.pid2tcb.get_mut(pid).inner;
    proof {
        before.task(pid).inner.lemma_after_pending_frame(0);
        before.task(pid).inner.after_pending_signals().lemma_after_pending_frame(0);
    }
    if !resumed {
        check_pending_signals(task_inner);
    }
    let frozen_flag = task_inner.frozen;
    let killed_flag = task_inner.killed;
    let waits = !((!frozen_flag) || killed_flag);
    if waits {
        check_pending_signals(task_inner);
    }
    proof {
        assert(kernel.pid2tcb.tasks@ =~= before.tasks_with_inner(
            pid,
            before.task(pid).inner.after_handle_signals(resumed),
        ));
        kernel.lemma_signals_changed(before, pid);
    }
    if waits {
        Some(suspend_current_and_run_next(kernel, hart_id))
    } else {
        None
    }
}

} // verus!
