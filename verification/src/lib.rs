//! Scheduling and privilege-transition core of a small multi-core kernel:
//! task control blocks, the ready queue, per-core processors, trap dispatch,
//! kernel threads and signals.
//!
//! The core is a state machine over plain values. [`kernel::Kernel`] holds
//! the scheduling state of the whole machine, with an invariant that every
//! operation keeps: a task waits in the ready queue exactly if it is ready,
//! runs on the core that its status names and on no other, is a child of
//! the task that it names as its parent, and holds its identifier, its
//! kernel stack and its user resources.
//!
//! Nothing here touches the machine. A function that would switch contexts,
//! write a register or call a driver says instead what is to be done: a
//! [`task::processor::SwitchRequest`], a [`trap::TrapAction`], a list of
//! [`boards::qemu::MmioWrite`]s. The kernel around the core does it, and
//! hands back what the machine answered: the number of the core, the value
//! of a status or cause register, the token of an address space.

pub mod boards;
pub mod boot;
pub mod config;
pub mod console;
pub mod coroutine;
pub mod kernel;
pub mod logging;
pub mod mm;
pub mod sync;
pub mod syscall;
pub mod task;
pub mod trap;
