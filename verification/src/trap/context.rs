//! The trap frame: the register file of a task as it was when it trapped.

use vstd::prelude::*;
use riscv::register::sstatus::{Sstatus, SPP};
use vstd::array::{spec_array_fill_for_copy_type, spec_array_update};

verus! {

/// Bit of the status register that enables supervisor interrupts.
pub const SSTATUS_SIE: usize = 1;

/// Bit of the status register that holds the interrupt enable before the trap.
pub const SSTATUS_SPIE: usize = 5;

/// Bit of the status register that holds the privilege before the trap.
pub const SSTATUS_SPP: usize = 8;

/// The bits of the supervisor status register that carry a field.
pub open spec fn sstatus_mask() -> usize {
    if usize::BITS == 64 {
        0x8000_0003_000d_e762u64 as usize
    } else {
        0x800d_e762usize
    }
}

/// A status register value with every bit without a field cleared and the
/// one-bit field at `bit` set to `on`.
pub open spec fn sstatus_with(bits: usize, bit: usize, on: bool) -> usize {
    if on {
        (bits & sstatus_mask()) | (1usize << bit)
    } else {
        (bits & sstatus_mask()) & !(1usize << bit)
    }
}

/// Whether the one-bit field at `bit` is set in a status register value.
pub open spec fn sstatus_bit(bits: usize, bit: usize) -> bool {
    ((bits & sstatus_mask()) >> bit) & 1 != 0
}

/// `Sstatus::set_spp` of the riscv crate, on a register value given as
/// bits: the value keeps its defined fields, with the previous privilege
/// set to supervisor or user.
#[verifier::external_body]
pub(crate) fn sstatus_set_spp(bits: usize, supervisor: bool) -> (updated: usize)
    ensures
        updated == sstatus_with(bits, SSTATUS_SPP, supervisor),
{
    let mut sstatus = Sstatus::from_bits(bits);
    sstatus.set_spp(if supervisor { SPP::Supervisor } else { SPP::User });
    sstatus.bits()
}

/// `Sstatus::set_spie` of the riscv crate, on a register value given as
/// bits: the value keeps its defined fields, with the previous interrupt
/// enable set to `on`.
#[verifier::external_body]
pub(crate) fn sstatus_set_spie(bits: usize, on: bool) -> (updated: usize)
    ensures
        updated == sstatus_with(bits, SSTATUS_SPIE, on),
{
    let mut sstatus = Sstatus::from_bits(bits);
    sstatus.set_spie(on);
    sstatus.bits()
}

/// `Sstatus::set_sie` of the riscv crate, on a register value given as
/// bits: the value keeps its defined fields, with the interrupt enable set
/// to `on`.
#[verifier::external_body]
pub(crate) fn sstatus_set_sie(bits: usize, on: bool) -> (updated: usize)
    ensures
        updated == sstatus_with(bits, SSTATUS_SIE, on),
{
    let mut sstatus = Sstatus::from_bits(bits);
    sstatus.set_sie(on);
    sstatus.bits()
}

/// `Sstatus::spp` of the riscv crate: whether the privilege before the trap
/// was supervisor.
#[verifier::external_body]
pub(crate) fn sstatus_spp_is_supervisor(bits: usize) -> (supervisor: bool)
    ensures
        supervisor == sstatus_bit(bits, SSTATUS_SPP),
{
    match Sstatus::from_bits(bits).spp() {
        SPP::Supervisor => true,
        SPP::User => false,
    }
}

/// `Sstatus::sie` of the riscv crate: whether supervisor interrupts are enabled.
#[verifier::external_body]
pub(crate) fn sstatus_sie(bits: usize) -> (enabled: bool)
    ensures
        enabled == sstatus_bit(bits, SSTATUS_SIE),
{
    Sstatus::from_bits(bits).sie()
}

/// Index of the stack pointer among the general registers.
pub const REG_SP: usize = 2;

/// Index of the first argument and return value register.
pub const REG_A0: usize = 10;

/// Index of the second argument register.
pub const REG_A1: usize = 11;

/// Index of the third argument register.
pub const REG_A2: usize = 12;

/// Index of the register that carries the system call number.
pub const REG_A7: usize = 17;

/// The saved register file of a task, and what the trap vector needs to
/// enter the kernel and to return.
#[derive(Clone, Copy, Debug)]
pub struct TrapContext {
    /// General registers.
    pub x: [usize; 32],
    /// Status register, as bits.
    pub sstatus: usize,
    /// Program counter at which the task resumes.
    pub sepc: usize,
    /// Token of the kernel's address space.
    pub kernel_satp: usize,
    /// Kernel stack pointer to use while the trap is handled.
    pub kernel_sp: usize,
    /// Address of the trap handler.
    pub trap_handler: usize,
}

impl TrapContext {
    /// The frame with every register zero but the stack pointer.
    pub open spec fn fresh(
        entry: usize,
        sp: usize,
        sstatus: usize,
        kernel_satp: usize,
        kernel_sp: usize,
        trap_handler: usize,
    ) -> TrapContext {
        TrapContext {
            x: spec_array_update(spec_array_fill_for_copy_type::<usize, 32>(0), REG_SP as int, sp),
            sstatus,
            sepc: entry,
            kernel_satp,
            kernel_sp,
            trap_handler,
        }
    }

    /// This frame with general register `index` holding `value`.
    pub open spec fn with_reg(self, index: int, value: usize) -> TrapContext {
        TrapContext { x: spec_array_update(self.x, index, value), ..self }
    }

    /// Sets the saved stack pointer.
    pub fn set_sp(&mut self, sp: usize)
        ensures
            *final(self) == old(self).with_reg(REG_SP as int, sp),
    {
        self.x[REG_SP] = sp;
    }

    /// The first frame of a user task: it resumes at `entry` in user mode
    /// with stack `sp`. `sstatus` is the current value of the status register.
    pub fn app_init_context(
        entry: usize,
        sp: usize,
        kernel_satp: usize,
        kernel_sp: usize,
        trap_handler: usize,
        sstatus: usize,
    ) -> (cx: TrapContext)
        ensures
            cx == TrapContext::fresh(
                entry,
                sp,
                sstatus_with(sstatus, SSTATUS_SPP, false),
                kernel_satp,
                kernel_sp,
                trap_handler,
            ),
    {
        let sstatus = sstatus_set_spp(sstatus, false);
        let mut cx = TrapContext {
            x: [0; 32],
            sstatus,
            sepc: entry,
            kernel_satp,
            kernel_sp,
            trap_handler,
        };
        cx.set_sp(sp);
        cx
    }

    /// The first frame of a task that runs kernel code at `entry` on the
    /// stack `sp`, which also serves while its traps are handled.
    pub fn kernel_init_context(
        entry: usize,
        sp: usize,
        kernel_satp: usize,
        trap_handler: usize,
        sstatus: usize,
    ) -> (cx: TrapContext)
        ensures
            cx == TrapContext::fresh(
                entry,
                sp,
                sstatus_with(sstatus, SSTATUS_SPP, true),
                kernel_satp,
                sp,
                trap_handler,
            ),
    {
        let sstatus = sstatus_set_spp(sstatus, true);
        let mut cx = TrapContext {
            x: [0; 32],
            sstatus,
            sepc: entry,
            kernel_satp,
            kernel_sp: sp,
            trap_handler,
        };
        cx.set_sp(sp);
        cx
    }
}

} // verus!
