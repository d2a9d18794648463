//! The virtual machine: where its devices lie, and how its interrupt
//! controller is set up, asked and answered. Nothing here touches a
//! device: the functions say which register is to be written with what.

use vstd::prelude::*;
use crate::config::CPU_NUM;

verus! {

/// Clock ticks per second.
pub const CLOCK_FREQ: usize = 12500000;

/// Where the platform-level interrupt controller lies.
pub const PLIC_BASE: usize = 0x0c000000;

/// Where the registers of the serial port lie.
pub const UART0: usize = 0x10000000;

/// Interrupt source of the serial port.
pub const UART0_IRQ: u32 = 10;

/// Where the registers of the block device lie.
pub const VIRTIO0: usize = 0x10001000;

/// Interrupt source of the block device.
pub const VIRTIO0_IRQ: u32 = 1;

/// A write of `val` to the device register at `addr`.
#[derive(Clone, Copy, Debug, PartialEq, Eq, Structural)]
pub struct MmioWrite {
    pub addr: usize,
    pub val: u32,
}

/// A device that raises interrupts.
#[derive(Clone, Copy, Debug, PartialEq, Eq, Structural)]
pub enum Device {
    Block,
    Uart,
}

/// What is to be done about an interrupt of a device.
#[derive(Clone, Copy, Debug, PartialEq, Eq, Structural)]
pub enum IrqAction {
    /// No device waits to be served.
    Nothing,
    /// Let the driver of `device` handle the interrupt, then tell the
    /// controller that it has been served, by the write `complete`.
    Serve { device: Device, complete: MmioWrite },
    /// The kernel cannot go on: no driver serves this interrupt source.
    Unsupported { irq: u32 },
}

/// The register that enables interrupt sources for supervisor mode of
/// core `hart_id`.
pub open spec fn spec_plic_senable(hart_id: usize) -> int {
    PLIC_BASE + 0x2080 + hart_id * 0x100
}

/// The register that holds the priority threshold for supervisor mode of
/// core `hart_id`.
pub open spec fn spec_plic_spriority(hart_id: usize) -> int {
    PLIC_BASE + 0x201000 + hart_id * 0x2000
}

/// The register by which core `hart_id` claims an interrupt in supervisor
/// mode, and says that it has served it.
pub open spec fn spec_plic_sclaim(hart_id: usize) -> int {
    PLIC_BASE + 0x201004 + hart_id * 0x2000
}

/// The register that enables interrupt sources for supervisor mode of
/// core `hart_id`.
pub fn plic_senable(hart_id: usize) -> (addr: usize)
    requires
        hart_id < CPU_NUM,
    ensures
        addr == spec_plic_senable(hart_id),
{
    PLIC_BASE + 0x2080 + hart_id * 0x100
}

/// The register that holds the priority threshold for supervisor mode of
/// core `hart_id`.
pub fn plic_spriority(hart_id: usize) -> (addr: usize)
    requires
        hart_id < CPU_NUM,
    ensures
        addr == spec_plic_spriority(hart_id),
{
    PLIC_BASE + 0x201000 + hart_id * 0x2000
}

/// The register by which core `hart_id` claims an interrupt in supervisor
/// mode, and says that it has served it.
pub fn plic_sclaim(hart_id: usize) -> (addr: usize)
    requires
        hart_id < CPU_NUM,
    ensures
        addr == spec_plic_sclaim(hart_id),
{
    PLIC_BASE + 0x201004 + hart_id * 0x2000
}

/// The writes that give the serial port and the block device a priority
/// other than zero, which would disable them.
pub fn plic_init() -> (writes: [MmioWrite; 2])
    ensures
        writes@ == seq![
            MmioWrite { addr: (PLIC_BASE + 40) as usize, val: 1 },
            MmioWrite { addr: (PLIC_BASE + 4) as usize, val: 1 },
        ],
{
    [
        MmioWrite { addr: PLIC_BASE + (UART0_IRQ as usize) * 4, val: 1 },
        MmioWrite { addr: PLIC_BASE + (VIRTIO0_IRQ as usize) * 4, val: 1 },
    ]
}

/// The writes that enable the serial port and the block device for
/// supervisor mode of core `hart_id`, and set the priority threshold of
/// that mode to zero. After them the caller enables external interrupts.
pub fn plic_init_hart(hart_id: usize) -> (writes: [MmioWrite; 2])
    requires
        hart_id < CPU_NUM,
    ensures
        writes@ == seq![
            MmioWrite { addr: spec_plic_senable(hart_id) as usize, val: 1026 },
            MmioWrite { addr: spec_plic_spriority(hart_id) as usize, val: 0 },
        ],
{
    let enabled: u32 = 1026;
    assert(enabled == (1u32 << 10) | (1u32 << 1)) by (bit_vector)
        requires
            enabled == 1026,
    ;
    [
        // set the enable bits of the serial port and of the block device
        MmioWrite { addr: plic_senable(hart_id), val: enabled },
        // set the priority threshold to 0
        MmioWrite { addr: plic_spriority(hart_id), val: 0 },
    ]
}

/// The writes that set up the interrupt controller for core `hart_id`:
/// those for the devices, then those for the core.
pub fn device_init(hart_id: usize) -> (writes: Vec<MmioWrite>)
    requires
        hart_id < CPU_NUM,
    ensures
        writes@ == seq![
            MmioWrite { addr: (PLIC_BASE + 40) as usize, val: 1 },
            MmioWrite { addr: (PLIC_BASE + 4) as usize, val: 1 },
            MmioWrite { addr: spec_plic_senable(hart_id) as usize, val: 1026 },
            MmioWrite { addr: spec_plic_spriority(hart_id) as usize, val: 0 },
        ],
{
    let devices = plic_init();
    let core = plic_init_hart(hart_id);
    let mut writes: Vec<MmioWrite> = Vec::new();
    writes.push(devices[0]);
    writes.push(devices[1]);
    writes.push(core[0]);
    writes.push(core[1]);
    assert(writes@ =~= seq![
        MmioWrite { addr: (PLIC_BASE + 40) as usize, val: 1 },
        MmioWrite { addr: (PLIC_BASE + 4) as usize, val: 1 },
        MmioWrite { addr: spec_plic_senable(hart_id) as usize, val: 1026 },
        MmioWrite { addr: spec_plic_spriority(hart_id) as usize, val: 0 },
    ]);
    writes
}

/// The interrupt that is to be served, given what the claim register
/// held: zero means that there is none.
pub fn plic_claim(interrupt: u32) -> (claimed: Option<u32>)
    ensures
        claimed == (if interrupt == 0 {
            None
        } else {
            Some(interrupt)
        }),
{
    if interrupt == 0 {
        None
    } else {
        Some(interrupt)
    }
}

/// The write by which core `hart_id` tells the controller that it has
/// served `interrupt`.
pub fn plic_complete(hart_id: usize, interrupt: u32) -> (write: MmioWrite)
    requires
        hart_id < CPU_NUM,
    ensures
        write == (MmioWrite { addr: spec_plic_sclaim(hart_id) as usize, val: interrupt }),
{
    MmioWrite { addr: plic_sclaim(hart_id), val: interrupt }
}

/// What is to be done about an interrupt of a device on core `hart_id`,
/// given what the claim register of the core held: source 1 is the block
/// device, source 10 the serial port.
pub open spec fn irq_action(hart_id: usize, interrupt: u32) -> IrqAction {
    let complete = MmioWrite { addr: spec_plic_sclaim(hart_id) as usize, val: interrupt };
    if interrupt == 0 {
        IrqAction::Nothing
    } else if interrupt == 1 {
        IrqAction::Serve { device: Device::Block, complete }
    } else if interrupt == 10 {
        IrqAction::Serve { device: Device::Uart, complete }
    } else {
        IrqAction::Unsupported { irq: interrupt }
    }
}

/// Says what is to be done about an interrupt of a device on core
/// `hart_id`, given what the claim register of the core held.
pub fn irq_handler(hart_id: usize, interrupt: u32) -> (action: IrqAction)
    requires
        hart_id < CPU_NUM,
    ensures
        action == irq_action(hart_id, interrupt),
{
    // which device interrupted?
    if let Some(irq) = plic_claim(interrupt) {
        match irq {
            1 => IrqAction::Serve { device: Device::Block, complete: plic_complete(hart_id, irq) },
            10 => IrqAction::Serve { device: Device::Uart, complete: plic_complete(hart_id, irq) },
            _ => IrqAction::Unsupported { irq },
        }
    } else {
        IrqAction::Nothing
    }
}

} // verus!
