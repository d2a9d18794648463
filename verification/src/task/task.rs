//! The task control block: what the kernel knows of one schedulable unit.

use vstd::prelude::*;
use crate::config::{KernelSymbols, USER_STACK_SIZE};
use crate::task::action::SignalActions;
use crate::task::context::TaskContext;
use crate::task::pid::{
    kernel_stack_top, kstack_in_range, pid_in_range, ustack_bottom_from_pid, KernelStack, PidHandle,
    USER_STACK_BASE,
};
use crate::task::signal::SignalFlags;
use crate::trap::context::{sstatus_with, TrapContext, REG_A0, SSTATUS_SPP};
use crate::config::PAGE_SIZE;

verus! {

/// Where a task stands in its life.
#[derive(Clone, Copy, Debug, PartialEq, Eq, Structural)]
pub enum TaskStatus {
    /// Waits in the ready queue for a core.
    Ready,
    /// Runs on the core with this number.
    Running(usize),
    /// Has exited; its exit code waits to be collected.
    Zombie,
    /// Has suspended itself and waits to be woken.
    Blocking,
}

/// The part of a task control block that changes while the task lives.
#[derive(Debug)]
pub struct TaskControlBlockInner {
    pub task_status: TaskStatus,
    /// Registers with which the task resumes in the kernel.
    pub task_cx: TaskContext,
    /// The task's trap frame.
    pub trap_cx: TrapContext,
    /// Identifier of the user resources that the task works in; the
    /// threads of a process share one.
    pub memory_set: usize,
    /// The task that is asked about this one; a lookup key only.
    pub parent: Option<usize>,
    /// The tasks that this one created or adopted.
    pub children: Vec<usize>,
    /// Set when the task exits.
    pub exit_code: Option<i32>,
    /// Pending signals.
    pub signals: SignalFlags,
    /// Signals that are held back.
    pub signal_mask: SignalFlags,
    /// Number of the signal whose handler runs, or -1.
    pub handling_sig: isize,
    pub signal_actions: SignalActions,
    pub killed: bool,
    pub frozen: bool,
    /// The trap frame as it was when a handler took over.
    pub trap_ctx_backup: Option<TrapContext>,
    /// Requests to a kernel thread, one bit each.
    pub flags: usize,
}

/// A schedulable unit: a process's main thread, a further thread of a
/// process, or a kernel thread.
#[derive(Debug)]
pub struct TaskControlBlock {
    pub pid: PidHandle,
    /// Thread group; equal to `pid` for the leader of a group.
    pub tgid: usize,
    /// The kernel stack of a user task; a kernel thread has none of these,
    /// its stack lies where its group identifier says.
    pub kernel_stack: Option<KernelStack>,
    pub inner: TaskControlBlockInner,
}

/// The address just above the user stack of task `pid`.
pub open spec fn ustack_top(pid: usize) -> int {
    USER_STACK_BASE + pid * (PAGE_SIZE + USER_STACK_SIZE) + USER_STACK_SIZE
}

impl TaskControlBlock {
    /// The main thread of a process that starts at `entry` with its stack
    /// pointer at `user_sp`, in the user resources `memory_set`: it leads
    /// its own group, is ready, and enters user mode through the routine
    /// that returns from traps. `sstatus` is the current value of the
    /// status register.
    pub open spec fn is_process(
        self,
        pid: usize,
        kstack: usize,
        memory_set: usize,
        entry: usize,
        user_sp: usize,
        symbols: KernelSymbols,
        sstatus: usize,
    ) -> bool {
        &&& self.pid == PidHandle(pid)
        &&& self.tgid == pid
        &&& self.kernel_stack == Some(KernelStack(kstack))
        &&& self.inner.is_new(
            TaskContext::resuming_at(symbols.trap_return, kernel_stack_top(kstack) as usize),
            TrapContext::fresh(
                entry,
                user_sp,
                sstatus_with(sstatus, SSTATUS_SPP, false),
                symbols.kernel_token,
                kernel_stack_top(kstack) as usize,
                symbols.trap_handler,
            ),
            memory_set,
            None,
            SignalFlags { bits: 0 },
            self.inner.signal_actions,
        )
        &&& self.inner.signal_actions.all_default()
    }

    /// The child that a fork of `parent` makes: a process of its own, in
    /// the user resources `memory_set`, with the trap frame of the parent
    /// but for the kernel stack, and with the parent's signal mask and
    /// actions.
    pub open spec fn is_fork_of(
        self,
        parent: TaskControlBlock,
        pid: usize,
        kstack: usize,
        memory_set: usize,
        symbols: KernelSymbols,
    ) -> bool {
        &&& self.pid == PidHandle(pid)
        &&& self.tgid == pid
        &&& self.kernel_stack == Some(KernelStack(kstack))
        &&& self.inner.is_new(
            TaskContext::resuming_at(symbols.trap_return, kernel_stack_top(kstack) as usize),
            TrapContext { kernel_sp: kernel_stack_top(kstack) as usize, ..parent.inner.trap_cx },
            memory_set,
            Some(parent.pid.0),
            parent.inner.signal_mask,
            parent.inner.signal_actions,
        )
    }

    /// The thread that `creator` makes: it works in the creator's user
    /// resources, belongs to the group `group_pid`, and starts at `entry`
    /// on a user stack of its own with `arg` as its argument.
    pub open spec fn is_thread_of(
        self,
        creator: TaskControlBlock,
        pid: usize,
        kstack: usize,
        entry: usize,
        arg: usize,
        group_pid: usize,
        symbols: KernelSymbols,
        sstatus: usize,
    ) -> bool {
        &&& self.pid == PidHandle(pid)
        &&& self.tgid == group_pid
        &&& self.kernel_stack == Some(KernelStack(kstack))
        &&& self.inner.is_new(
            TaskContext::resuming_at(symbols.trap_return, kernel_stack_top(kstack) as usize),
            TrapContext::fresh(
                entry,
                ustack_top(pid) as usize,
                sstatus_with(sstatus, SSTATUS_SPP, false),
                symbols.kernel_token,
                kernel_stack_top(kstack) as usize,
                symbols.trap_handler,
            ).with_reg(REG_A0 as int, arg),
            creator.inner.memory_set,
            Some(creator.pid.0),
            SignalFlags { bits: 0 },
            self.inner.signal_actions,
        )
        &&& self.inner.signal_actions.all_default()
    }

    /// Makes the main thread of a process.
    pub fn new(
        pid: PidHandle,
        kernel_stack: KernelStack,
        memory_set: usize,
        entry: usize,
        user_sp: usize,
        symbols: &KernelSymbols,
        sstatus: usize,
    ) -> (task: Self)
        requires
            kstack_in_range(kernel_stack.0),
        ensures
            task.is_process(pid.0, kernel_stack.0, memory_set, entry, user_sp, *symbols, sstatus),
    {
        let kernel_stack_top = kernel_stack.get_top();
        let trap_cx = TrapContext::app_init_context(
            entry,
            user_sp,
            symbols.kernel_token,
            kernel_stack_top,
            symbols.trap_handler,
            sstatus,
        );
        let tgid = pid.0;
        TaskControlBlock {
            pid,
            tgid,
            kernel_stack: Some(kernel_stack),
            inner: TaskControlBlockInner::new(
                TaskContext::goto_trap_return(kernel_stack_top, symbols.trap_return),
                trap_cx,
                memory_set,
                None,
                SignalFlags::empty(),
                SignalActions::new(),
            ),
        }
    }

    /// Makes the child of a fork of `self`.
    pub fn fork(&self, pid: PidHandle, kernel_stack: KernelStack, memory_set: usize, symbols: &KernelSymbols) -> (child:
        Self)
        requires
            kstack_in_range(kernel_stack.0),
        ensures
            child.is_fork_of(*self, pid.0, kernel_stack.0, memory_set, *symbols),
    {
        let kernel_stack_top = kernel_stack.get_top();
        // the frame of the parent, but for the kernel stack
        let mut trap_cx = self.inner.trap_cx;
        trap_cx.kernel_sp = kernel_stack_top;
        let tgid = pid.0;
        TaskControlBlock {
            pid,
            tgid,
            kernel_stack: Some(kernel_stack),
            inner: TaskControlBlockInner::new(
                TaskContext::goto_trap_return(kernel_stack_top, symbols.trap_return),
                trap_cx,
                memory_set,
                Some(self.pid.0),
                self.inner.signal_mask,
                self.inner.signal_actions,
            ),
        }
    }

    /// Makes a thread that shares the user resources of `self`.
    pub fn new_user_thread(
        &self,
        pid: PidHandle,
        kernel_stack: KernelStack,
        entry: usize,
        arg: usize,
        group_pid: usize,
        symbols: &KernelSymbols,
        sstatus: usize,
    ) -> (thread: Self)
        requires
            kstack_in_range(kernel_stack.0),
            pid_in_range(pid.0),
        ensures
            thread.is_thread_of(*self, pid.0, kernel_stack.0, entry, arg, group_pid, *symbols, sstatus),
    {
        let kernel_stack_top = kernel_stack.get_top();
        let user_sp = ustack_bottom_from_pid(pid.0) + USER_STACK_SIZE;
        let mut trap_cx = TrapContext::app_init_context(
            entry,
            user_sp,
            symbols.kernel_token,
            kernel_stack_top,
            symbols.trap_handler,
            sstatus,
        );
        trap_cx.x[REG_A0] = arg;
        TaskControlBlock {
            pid,
            tgid: group_pid,
            kernel_stack: Some(kernel_stack),
            inner: TaskControlBlockInner::new(
                TaskContext::goto_trap_return(kernel_stack_top, symbols.trap_return),
                trap_cx,
                self.inner.memory_set,
                Some(self.pid.0),
                SignalFlags::empty(),
                SignalActions::new(),
            ),
        }
    }

    /// The part of `self` that changes while the task lives. Whoever holds
    /// the result holds the task.
    pub fn acquire_inner_lock(&mut self) -> (inner: &mut TaskControlBlockInner)
        ensures
            *inner == old(self).inner,
            final(self).pid == old(self).pid,
            final(self).tgid == old(self).tgid,
            final(self).kernel_stack == old(self).kernel_stack,
            final(self).inner == *final(inner),
    {
        &mut self.inner
    }

    /// `self` and `other` differ at most in their children.
    pub open spec fn same_but_children(self, other: TaskControlBlock) -> bool {
        &&& self.pid == other.pid
        &&& self.tgid == other.tgid
        &&& self.kernel_stack == other.kernel_stack
        &&& self.inner.same_but_children(other.inner)
    }
}

impl TaskControlBlockInner {
    /// This state and `other` differ at most in the children.
    pub open spec fn same_but_children(self, other: TaskControlBlockInner) -> bool {
        &&& self.task_status == other.task_status
        &&& self.task_cx == other.task_cx
        &&& self.trap_cx == other.trap_cx
        &&& self.memory_set == other.memory_set
        &&& self.parent == other.parent
        &&& self.exit_code == other.exit_code
        &&& self.signals == other.signals
        &&& self.signal_mask == other.signal_mask
        &&& self.handling_sig == other.handling_sig
        &&& self.signal_actions == other.signal_actions
        &&& self.killed == other.killed
        &&& self.frozen == other.frozen
        &&& self.trap_ctx_backup == other.trap_ctx_backup
        &&& self.flags == other.flags
    }

    /// The state of a task that has just been made: it is ready, has no
    /// child and no exit code, no signal is pending on it or handled by it.
    pub open spec fn is_new(
        self,
        task_cx: TaskContext,
        trap_cx: TrapContext,
        memory_set: usize,
        parent: Option<usize>,
        signal_mask: SignalFlags,
        signal_actions: SignalActions,
    ) -> bool {
        &&& self.task_status == TaskStatus::Ready
        &&& self.task_cx == task_cx
        &&& self.trap_cx == trap_cx
        &&& self.memory_set == memory_set
        &&& self.parent == parent
        &&& self.children@ == Seq::<usize>::empty()
        &&& self.exit_code.is_none()
        &&& self.signals.bits == 0
        &&& self.signal_mask == signal_mask
        &&& self.handling_sig == -1
        &&& self.signal_actions == signal_actions
        &&& !self.killed
        &&& !self.frozen
        &&& self.trap_ctx_backup.is_none()
        &&& self.flags == 0
    }

    /// A new state around the given contexts.
    pub fn new(
        task_cx: TaskContext,
        trap_cx: TrapContext,
        memory_set: usize,
        parent: Option<usize>,
        signal_mask: SignalFlags,
        signal_actions: SignalActions,
    ) -> (inner: Self)
        ensures
            inner.is_new(task_cx, trap_cx, memory_set, parent, signal_mask, signal_actions),
    {
        TaskControlBlockInner {
            task_status: TaskStatus::Ready,
            task_cx,
            trap_cx,
            memory_set,
            parent,
            children: Vec::new(),
            exit_code: None,
            signals: SignalFlags::empty(),
            signal_mask,
            handling_sig: -1,
            signal_actions,
            killed: false,
            frozen: false,
            trap_ctx_backup: None,
            flags: 0,
        }
    }

    /// The slot in which the task's kernel registers are saved.
    pub fn get_task_cx_ptr(&mut self) -> (task_cx: &mut TaskContext)
        ensures
            *task_cx == old(self).task_cx,
            *final(self) == (TaskControlBlockInner { task_cx: *final(task_cx), ..*old(self) }),
    {
        &mut self.task_cx
    }

    /// The task's trap frame.
    pub fn get_trap_cx(&mut self) -> (trap_cx: &mut TrapContext)
        ensures
            *trap_cx == old(self).trap_cx,
            *final(self) == (TaskControlBlockInner { trap_cx: *final(trap_cx), ..*old(self) }),
    {
        &mut self.trap_cx
    }

    /// Whether the task has exited.
    pub fn is_zombie(&self) -> (zombie: bool)
        ensures
            zombie == (self.task_status == TaskStatus::Zombie),
    {
        self.task_status == TaskStatus::Zombie
    }
}

} // verus!
