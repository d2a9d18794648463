//! Traps: the frame that is saved on entry, and what the kernel does on
//! each cause.

pub mod context;

use vstd::prelude::*;
use riscv::register::scause::Scause;
use crate::config::{KernelSymbols, CPU_NUM, MEMORY_END, PAGE_SIZE, TRAMPOLINE, TRAP_CONTEXT_BASE};
use crate::kernel::Kernel;
use crate::task::kthread::kthread_trap_cx_bottom_from_tid;
use crate::task::pid::trap_cx_bottom_from_pid;
use crate::task::processor::{current_user_token, ContextSlot, SwitchRequest};
use crate::task::signal::{SignalFlags, SIGILL, SIGSEGV};
use crate::task::task::{TaskControlBlock, TaskControlBlockInner};
use crate::task::signal::fatal_status;
use crate::task::{
    check_signals_error_of_current, current_add_signal, exit_current_and_run_next,
    suspend_current_and_run_next,
};
use crate::trap::context::{
    sstatus_bit, sstatus_sie, sstatus_spp_is_supervisor, TrapContext, REG_A0, REG_A1, REG_A2, REG_A7,
    SSTATUS_SIE, SSTATUS_SPP,
};

verus! {

/// Whether a trap cause register value stands for an interrupt: its
/// highest bit says so.
pub open spec fn cause_is_interrupt(scause: usize) -> bool {
    (scause >> ((usize::BITS - 1) as usize)) & 1 != 0
}

/// The code of a trap cause register value: all bits but the highest.
pub open spec fn cause_code(scause: usize) -> usize {
    scause & (usize::MAX >> 1)
}

/// `Scause::is_interrupt` of the riscv crate, on a register value given as
/// bits: whether the highest bit is set.
#[verifier::external_body]
fn scause_is_interrupt(scause: usize) -> (interrupt: bool)
    ensures
        interrupt == cause_is_interrupt(scause),
{
    Scause::from_bits(scause).is_interrupt()
}

/// `Scause::code` of the riscv crate, on a register value given as bits:
/// the value without its highest bit.
#[verifier::external_body]
fn scause_code(scause: usize) -> (code: usize)
    ensures
        code == cause_code(scause),
{
    Scause::from_bits(scause).code()
}

/// Why a trap was taken, as far as the kernel tells causes apart.
#[derive(Clone, Copy, Debug, PartialEq, Eq, Structural)]
pub enum TrapCause {
    /// A system call from user mode.
    UserEnvCall,
    StoreFault,
    StorePageFault,
    InstructionFault,
    InstructionPageFault,
    LoadFault,
    LoadPageFault,
    IllegalInstruction,
    /// The timer of this core.
    SupervisorTimer,
    /// A device.
    SupervisorExternal,
    /// Any other cause.
    Unsupported,
}

impl TrapCause {
    /// The cause that an interrupt flag and a code stand for.
    pub open spec fn of(interrupt: bool, code: usize) -> TrapCause {
        if interrupt {
            if code == 5 {
                TrapCause::SupervisorTimer
            } else if code == 9 {
                TrapCause::SupervisorExternal
            } else {
                TrapCause::Unsupported
            }
        } else if code == 1 {
            TrapCause::InstructionFault
        } else if code == 2 {
            TrapCause::IllegalInstruction
        } else if code == 5 {
            TrapCause::LoadFault
        } else if code == 7 {
            TrapCause::StoreFault
        } else if code == 8 {
            TrapCause::UserEnvCall
        } else if code == 12 {
            TrapCause::InstructionPageFault
        } else if code == 13 {
            TrapCause::LoadPageFault
        } else if code == 15 {
            TrapCause::StorePageFault
        } else {
            TrapCause::Unsupported
        }
    }

    /// The cause that a trap cause register value stands for.
    pub open spec fn decode(scause: usize) -> TrapCause {
        TrapCause::of(cause_is_interrupt(scause), cause_code(scause))
    }

    /// The access to memory, or the fetch of an instruction, was not allowed.
    pub open spec fn is_memory_fault(self) -> bool {
        self == TrapCause::StoreFault || self == TrapCause::StorePageFault || self
            == TrapCause::InstructionFault || self == TrapCause::InstructionPageFault || self
            == TrapCause::LoadFault || self == TrapCause::LoadPageFault
    }

    /// The cause that an interrupt flag and a code stand for.
    pub fn classify(interrupt: bool, code: usize) -> (cause: TrapCause)
        ensures
            cause == TrapCause::of(interrupt, code),
    {
        if interrupt {
            match code {
                5 => TrapCause::SupervisorTimer,
                9 => TrapCause::SupervisorExternal,
                _ => TrapCause::Unsupported,
            }
        } else {
            match code {
                1 => TrapCause::InstructionFault,
                2 => TrapCause::IllegalInstruction,
                5 => TrapCause::LoadFault,
                7 => TrapCause::StoreFault,
                8 => TrapCause::UserEnvCall,
                12 => TrapCause::InstructionPageFault,
                13 => TrapCause::LoadPageFault,
                15 => TrapCause::StorePageFault,
                _ => TrapCause::Unsupported,
            }
        }
    }

    /// The cause that the trap cause register value `scause` stands for.
    pub fn from_scause(scause: usize) -> (cause: TrapCause)
        ensures
            cause == TrapCause::decode(scause),
    {
        TrapCause::classify(scause_is_interrupt(scause), scause_code(scause))
    }
}

/// What is to be written to the trap registers of a core.
#[derive(Clone, Copy, Debug, PartialEq, Eq, Structural)]
pub struct TrapEntry {
    /// Address of the trap vector, entered directly.
    pub stvec: usize,
    /// Value of the scratch register, if it is to be written.
    pub sscratch: Option<usize>,
    /// Whether supervisor interrupts are to be enabled.
    pub enable_interrupts: bool,
}

/// The trap registers while the kernel runs: the vector is the kernel trap
/// vector, at its place in the trampoline page, the scratch register holds
/// the handler of traps from the kernel, and interrupts are enabled.
pub fn set_kernel_trap_entry(symbols: &KernelSymbols) -> (entry: TrapEntry)
    requires
        symbols.wf(),
    ensures
        entry == (TrapEntry {
            stvec: (symbols.alltraps_k - symbols.alltraps + TRAMPOLINE) as usize,
            sscratch: Some(symbols.trap_from_kernel),
            enable_interrupts: true,
        }),
{
    let alltraps_k_va = symbols.alltraps_k - symbols.alltraps + TRAMPOLINE;
    TrapEntry { stvec: alltraps_k_va, sscratch: Some(symbols.trap_from_kernel), enable_interrupts: true }
}

/// The trap registers while a user task runs: the vector is the user trap
/// vector at the start of the trampoline page.
pub fn set_user_trap_entry() -> (entry: TrapEntry)
    ensures
        entry == (TrapEntry { stvec: TRAMPOLINE, sscratch: None, enable_interrupts: false }),
{
    TrapEntry { stvec: TRAMPOLINE, sscratch: None, enable_interrupts: false }
}

/// The trap registers with which a core starts: those of the kernel.
pub fn init(symbols: &KernelSymbols) -> (entry: TrapEntry)
    requires
        symbols.wf(),
    ensures
        entry == (TrapEntry {
            stvec: (symbols.alltraps_k - symbols.alltraps + TRAMPOLINE) as usize,
            sscratch: Some(symbols.trap_from_kernel),
            enable_interrupts: true,
        }),
{
    set_kernel_trap_entry(symbols)
}

/// What the caller is to do after a trap from user mode has been looked at.
#[derive(Clone, Copy, Debug)]
pub enum TrapAction {
    /// Enable interrupts, perform the system call `id` with `args`, and
    /// hand its result to `syscall_return`.
    Syscall { id: usize, args: [usize; 3] },
    /// Go on with the check for a fatal signal.
    CheckSignals,
    /// Rearm the timer, run the timer callbacks, and perform the switch,
    /// which gives up the core; when the task runs again, go on with the
    /// check for a fatal signal.
    Yield(SwitchRequest),
    /// The kernel cannot go on: a trap with this cause and this trap
    /// value is not provided for.
    Unsupported { scause: usize, stval: usize },
}

impl Kernel {
    /// The table of tasks with `inner` as the changing part of the task `pid`.
    pub open spec fn tasks_with_inner(self, pid: usize, inner: TaskControlBlockInner) -> Seq<
        Option<TaskControlBlock>,
    > {
        self.pid2tcb.tasks@.update(pid as int, Some(TaskControlBlock { inner, ..self.task(pid) }))
    }

    /// A change of the trap frame and of the signal state of one task keeps
    /// the invariant.
    pub proof fn lemma_signals_changed(self, before: Kernel, pid: usize)
        requires
            before.wf(),
            before.live(pid),
            self.same_resources(before),
            self.processors@ == before.processors@,
            self.ready() == before.ready(),
            self.pid2tcb.tasks@ == before.tasks_with_inner(pid, self.task(pid).inner),
            self.task(pid).inner.signal_wf(),
            self.task(pid).inner.task_status == before.task(pid).inner.task_status,
            self.task(pid).inner.memory_set == before.task(pid).inner.memory_set,
            self.task(pid).inner.parent == before.task(pid).inner.parent,
            self.task(pid).inner.children == before.task(pid).inner.children,
            self.task(pid).inner.exit_code == before.task(pid).inner.exit_code,
        ensures
            self.wf(),
    {
        assert forall|q: usize| #[trigger] self.live(q) == before.live(q) by {}
        assert forall|q: usize| q != pid && #[trigger] self.live(q) implies self.task(q) == before.task(q) by {}
        self.lemma_keeps_ids(before);
        self.lemma_keeps_spaces(before);
        self.lemma_keeps_links(before);
        self.lemma_keeps_schedule(before);
        assert(self.wf_tasks()) by {
            assert forall|q: usize| #[trigger] self.live(q) implies {
                &&& self.task(q).inner.signal_wf()
                &&& (self.task(q).inner.task_status == crate::task::task::TaskStatus::Zombie) == self.task(
                    q,
                ).inner.exit_code.is_some()
            } by {
                assert(before.live(q));
            }
        }
    }
}

/// The trap frame `cx` with the resume address moved past the instruction
/// that made the system call.
pub open spec fn past_call(cx: TrapContext) -> TrapContext {
    TrapContext { sepc: cx.sepc.wrapping_add(4), ..cx }
}

/// The changing part `inner` of a task after a trap with cause `cause` has
/// been looked at: a system call resumes past the instruction that made
/// it; a fault of memory leaves a segmentation violation pending, an
/// illegal instruction the signal of that name.
pub open spec fn after_trap(inner: TaskControlBlockInner, cause: TrapCause) -> TaskControlBlockInner {
    if cause == TrapCause::UserEnvCall {
        TaskControlBlockInner { trap_cx: past_call(inner.trap_cx), ..inner }
    } else if cause.is_memory_fault() {
        TaskControlBlockInner { signals: SignalFlags { bits: inner.signals.bits | SIGSEGV }, ..inner }
    } else if cause == TrapCause::IllegalInstruction {
        TaskControlBlockInner { signals: SignalFlags { bits: inner.signals.bits | SIGILL }, ..inner }
    } else {
        inner
    }
}

/// What the caller is to do after a trap with cause `cause` of the task
/// `pid` with trap frame `cx`, on core `hart_id`.
pub open spec fn action_of(cause: TrapCause, cx: TrapContext, pid: usize, hart_id: usize, scause: usize, stval: usize) -> TrapAction {
    if cause == TrapCause::UserEnvCall {
        TrapAction::Syscall { id: cx.x@[REG_A7 as int], args: call_args(cx) }
    } else if cause.is_memory_fault() || cause == TrapCause::IllegalInstruction {
        TrapAction::CheckSignals
    } else if cause == TrapCause::SupervisorTimer {
        TrapAction::Yield(SwitchRequest { save: ContextSlot::Task(pid), load: ContextSlot::Idle(hart_id) })
    } else {
        TrapAction::Unsupported { scause, stval }
    }
}

/// The three arguments of a system call in the trap frame `cx`.
pub open spec fn call_args(cx: TrapContext) -> [usize; 3] {
    [cx.x@[REG_A0 as int], cx.x@[REG_A1 as int], cx.x@[REG_A2 as int]]
}

/// Looks at a trap from user mode of the task that runs on core `hart_id`,
/// with `scause` and `stval` as the values of the cause and trap value
/// registers, and says what is to be done. The caller has installed the
/// kernel trap vector before, and after the action goes on with the check
/// for a fatal signal and the return to user mode.
pub fn trap_handler(kernel: &mut Kernel, hart_id: usize, scause: usize, stval: usize) -> (action: TrapAction)
    requires
        old(kernel).wf(),
        hart_id < CPU_NUM,
        old(kernel).current(hart_id).is_some(),
    ensures
        final(kernel).wf(),
        final(kernel).same_resources(*old(kernel)),
        final(kernel).processors@ == old(kernel).processors@,
        final(kernel).ready() == old(kernel).ready(),
        ({
            let pid = old(kernel).current(hart_id).unwrap();
            let cause = TrapCause::decode(scause);
            &&& final(kernel).pid2tcb.tasks@ == old(kernel).tasks_with_inner(
                pid,
                after_trap(old(kernel).task(pid).inner, cause),
            )
            &&& action == action_of(cause, old(kernel).task(pid).inner.trap_cx, pid, hart_id, scause, stval)
        }),
{
    let pid = kernel.processors[hart_id].current().unwrap();
    assert(kernel.live(pid));
    let ghost before = *old(kernel);
    let action = match TrapCause::from_scause(scause) {
        TrapCause::UserEnvCall => {
            // jump to next instruction anyway
            let cx = &mut kernel.pid2tcb.get_mut(pid).inner.trap_cx;
            let id = cx.x[REG_A7];
            let args = [cx.x[REG_A0], cx.x[REG_A1], cx.x[REG_A2]];
            cx.sepc = cx.sepc.wrapping_add(4);
            TrapAction::Syscall { id, args }
        },
        TrapCause::StoreFault
        | TrapCause::StorePageFault
        | TrapCause::InstructionFault
        | TrapCause::InstructionPageFault
        | TrapCause::LoadFault
        | TrapCause::LoadPageFault => {
            current_add_signal(kernel, hart_id, SignalFlags { bits: SIGSEGV });
            TrapAction::CheckSignals
        },
        TrapCause::IllegalInstruction => {
            current_add_signal(kernel, hart_id, SignalFlags { bits: SIGILL });
            TrapAction::CheckSignals
        },
        TrapCause::SupervisorTimer => {
            TrapAction::Yield(suspend_current_and_run_next(kernel, hart_id))
        },
        _ => TrapAction::Unsupported { scause, stval },
    };
    proof {
        assert(kernel.pid2tcb.tasks@ =~= before.tasks_with_inner(
            pid,
            after_trap(before.task(pid).inner, TrapCause::decode(scause)),
        ));
        kernel.lemma_signals_changed(before, pid);
    }
    action
}

/// Hands the result of a system call to the task that runs on core
/// `hart_id`: it stands in the register of the return value.
pub fn syscall_return(kernel: &mut Kernel, hart_id: usize, result: isize)
    requires
        old(kernel).wf(),
        hart_id < CPU_NUM,
        old(kernel).current(hart_id).is_some(),
    ensures
        final(kernel).wf(),
        final(kernel).same_resources(*old(kernel)),
        final(kernel).processors@ == old(kernel).processors@,
        final(kernel).ready() == old(kernel).ready(),
        ({
            let pid = old(kernel).current(hart_id).unwrap();
            let inner = old(kernel).task(pid).inner;
            final(kernel).pid2tcb.tasks@ == old(kernel).tasks_with_inner(
                pid,
                TaskControlBlockInner { trap_cx: inner.trap_cx.with_reg(REG_A0 as int, result as usize), ..inner },
            )
        }),
{
    let pid = kernel.processors[hart_id].current().unwrap();
    assert(kernel.live(pid));
    kernel.pid2tcb.get_mut(pid).inner.trap_cx.x[REG_A0] = result as usize;
    proof {
        kernel.lemma_signals_changed(*old(kernel), pid);
    }
}

/// With what the routine that restores a trap frame is entered.
#[derive(Clone, Copy, Debug, PartialEq, Eq, Structural)]
pub struct TrapReturn {
    /// The trap vector for the time in user mode.
    pub stvec: usize,
    /// Address of the trap frame in the address space of the task.
    pub trap_cx_ptr: usize,
    /// Token of the address space of the task.
    pub user_satp: usize,
    /// Address of the restore routine in the trampoline page.
    pub restore_va: usize,
}

impl Kernel {
    /// The address of the trap frame of the task `pid` in its address
    /// space: that of a user task lies where its identifier says, that of
    /// a kernel thread where its group identifier says.
    pub open spec fn trap_cx_user_va(self, pid: usize) -> int {
        match self.task(pid).kernel_stack {
            Some(_) => TRAP_CONTEXT_BASE - pid * PAGE_SIZE,
            None => MEMORY_END + PAGE_SIZE + self.task(pid).tgid * PAGE_SIZE,
        }
    }
}

/// The address of the trap frame of the task that runs on core `hart_id`
/// in the address space of that task.
pub fn current_trap_cx_user_va(kernel: &Kernel, hart_id: usize) -> (va: usize)
    requires
        kernel.wf(),
        hart_id < CPU_NUM,
        kernel.current(hart_id).is_some(),
    ensures
        va == kernel.trap_cx_user_va(kernel.current(hart_id).unwrap()),
{
    let pid = kernel.processors[hart_id].current().unwrap();
    assert(kernel.live(pid));
    let task = kernel.pid2tcb.get(pid).unwrap();
    match task.kernel_stack {
        Some(_) => trap_cx_bottom_from_pid(pid),
        None => kthread_trap_cx_bottom_from_tid(task.tgid),
    }
}

/// The trap frame of the task that runs on core `hart_id`, to be read and
/// changed in place. Nothing else changes.
pub fn current_trap_cx(kernel: &mut Kernel, hart_id: usize) -> (cx: &mut TrapContext)
    requires
        old(kernel).wf(),
        hart_id < CPU_NUM,
        old(kernel).current(hart_id).is_some(),
    ensures
        *cx == old(kernel).task(old(kernel).current(hart_id).unwrap()).inner.trap_cx,
        final(kernel).wf(),
        final(kernel).same_resources(*old(kernel)),
        final(kernel).processors@ == old(kernel).processors@,
        final(kernel).ready() == old(kernel).ready(),
        ({
            let pid = old(kernel).current(hart_id).unwrap();
            let inner = old(kernel).task(pid).inner;
            final(kernel).pid2tcb.tasks@ == old(kernel).tasks_with_inner(
                pid,
                TaskControlBlockInner { trap_cx: *final(cx), ..inner },
            )
        }),
{
    let pid = kernel.processors[hart_id].current().unwrap();
    assert(kernel.live(pid));
    let cx = &mut kernel.pid2tcb.get_mut(pid).inner.trap_cx;
    proof {
        let after = after_borrow(*kernel);
        after.lemma_signals_changed(*old(kernel), pid);
    }
    cx
}

/// Prepares the return of the task that runs on core `hart_id` to user
/// mode: the trap vector is that for user mode, and the restore routine,
/// at its place in the trampoline page, gets the address of the task's
/// trap frame and the token of its address space. The caller disables
/// interrupts before, and sets the privilege to return to.
pub fn trap_return(kernel: &Kernel, hart_id: usize) -> (ret: TrapReturn)
    requires
        kernel.wf(),
        kernel.symbols.wf(),
        hart_id < CPU_NUM,
        kernel.current(hart_id).is_some(),
    ensures
        ret == (TrapReturn {
            stvec: TRAMPOLINE,
            trap_cx_ptr: kernel.trap_cx_user_va(kernel.current(hart_id).unwrap()) as usize,
            user_satp: kernel.space(
                kernel.task(kernel.current(hart_id).unwrap()).inner.memory_set,
            ).memory_set.token,
            restore_va: (kernel.symbols.restore - kernel.symbols.alltraps + TRAMPOLINE) as usize,
        }),
{
    let entry = set_user_trap_entry();
    let trap_cx_ptr = current_trap_cx_user_va(kernel, hart_id);
    let user_satp = current_user_token(kernel, hart_id);
    let restore_va = kernel.symbols.restore - kernel.symbols.alltraps + TRAMPOLINE;
    TrapReturn { stvec: entry.stvec, trap_cx_ptr, user_satp, restore_va }
}

/// How the handling of a trap from user mode ends.
#[derive(Clone, Copy, Debug)]
pub enum TrapExit {
    /// The task has been terminated by a fatal signal, with exit status
    /// `errno`: print `msg`, and perform `switch`.
    Exit { errno: i32, msg: &'static str, switch: SwitchRequest },
    /// Return to user mode.
    Return(TrapReturn),
}

/// Ends the handling of a trap of the task that runs on core `hart_id`,
/// after the action that the cause of the trap asked for: if a fatal
/// signal is pending on the task, the task exits with the exit status of
/// that signal; else it returns to user mode.
pub fn trap_finish(kernel: &mut Kernel, hart_id: usize) -> (exit: TrapExit)
    requires
        old(kernel).wf(),
        old(kernel).symbols.wf(),
        hart_id < CPU_NUM,
        old(kernel).current(hart_id).is_some(),
        fatal_status(old(kernel).task(old(kernel).current(hart_id).unwrap()).inner.signals.bits).is_some() ==> old(
            kernel,
        ).initproc.is_some() && old(kernel).initproc != old(kernel).current(hart_id),
    ensures
        final(kernel).wf(),
        match fatal_status(old(kernel).task(old(kernel).current(hart_id).unwrap()).inner.signals.bits) {
            Some(fatal) => exit matches TrapExit::Exit { errno, msg, switch } && errno == fatal.0 && msg == fatal.1
                && final(kernel).user_exited(*old(kernel), hart_id, fatal.0, switch),
            None => {
                &&& *final(kernel) == *old(kernel)
                &&& exit matches TrapExit::Return(ret) && ret == (TrapReturn {
                    stvec: TRAMPOLINE,
                    trap_cx_ptr: old(kernel).trap_cx_user_va(old(kernel).current(hart_id).unwrap()) as usize,
                    user_satp: old(kernel).space(
                        old(kernel).task(old(kernel).current(hart_id).unwrap()).inner.memory_set,
                    ).memory_set.token,
                    restore_va: (old(kernel).symbols.restore - old(kernel).symbols.alltraps + TRAMPOLINE) as usize,
                })
            },
        },
{
    // check error signals (if error then exit)
    if let Some((errno, msg)) = check_signals_error_of_current(kernel, hart_id) {
        let switch = exit_current_and_run_next(kernel, hart_id, errno);
        TrapExit::Exit { errno, msg, switch }
    } else {
        TrapExit::Return(trap_return(kernel, hart_id))
    }
}

/// What the caller is to do after a trap from kernel mode has been looked at.
#[derive(Clone, Copy, Debug, PartialEq, Eq, Structural)]
pub enum KernelTrapAction {
    /// Ask the interrupt controller which device interrupted, and serve it.
    ExternalInterrupt,
    /// Rearm the timer. The kernel is not preempted.
    RearmTimer,
    /// The kernel cannot go on: the trap did not come from supervisor mode.
    NotFromSupervisor,
    /// The kernel cannot go on: interrupts were enabled on entry.
    InterruptsEnabled,
    /// The kernel cannot go on: a trap with this cause and this trap
    /// value is not provided for in kernel mode.
    Unsupported { scause: usize, stval: usize },
}

/// The action on a trap from kernel mode with the given register values.
pub open spec fn kernel_trap_action(sstatus: usize, scause: usize, stval: usize) -> KernelTrapAction {
    if !sstatus_bit(sstatus, SSTATUS_SPP) {
        KernelTrapAction::NotFromSupervisor
    } else if sstatus_bit(sstatus, SSTATUS_SIE) {
        KernelTrapAction::InterruptsEnabled
    } else if TrapCause::decode(scause) == TrapCause::SupervisorExternal {
        KernelTrapAction::ExternalInterrupt
    } else if TrapCause::decode(scause) == TrapCause::SupervisorTimer {
        KernelTrapAction::RearmTimer
    } else {
        KernelTrapAction::Unsupported { scause, stval }
    }
}

/// Looks at a trap that was taken while the kernel ran, with `sstatus`,
/// `scause` and `stval` as the values of the status, cause and trap value
/// registers. Such a trap comes from supervisor mode with interrupts
/// disabled, and is an interrupt of a device or of the timer; anything
/// else stops the kernel.
pub fn trap_from_kernel(sstatus: usize, scause: usize, stval: usize) -> (action: KernelTrapAction)
    ensures
        action == kernel_trap_action(sstatus, scause, stval),
{
    if !sstatus_spp_is_supervisor(sstatus) {
        return KernelTrapAction::NotFromSupervisor;
    }
    if sstatus_sie(sstatus) {
        return KernelTrapAction::InterruptsEnabled;
    }
    match TrapCause::from_scause(scause) {
        TrapCause::SupervisorExternal => KernelTrapAction::ExternalInterrupt,
        TrapCause::SupervisorTimer => KernelTrapAction::RearmTimer,
        _ => KernelTrapAction::Unsupported { scause, stval },
    }
}

} // verus!
