//! The set of signals that can be pending on, or masked by, a task.

use vstd::prelude::*;

verus! {

/// Highest signal number.
pub const MAX_SIG: usize = 31;

/// The signal that stands for the default action.
pub const SIGDEF: u32 = 1;
/// Hang up.
pub const SIGHUP: u32 = 1 << 1;
/// Interrupt from the keyboard; fatal.
pub const SIGINT: u32 = 1 << 2;
/// Quit.
pub const SIGQUIT: u32 = 1 << 3;
/// Illegal instruction; fatal.
pub const SIGILL: u32 = 1 << 4;
/// Trace or breakpoint trap.
pub const SIGTRAP: u32 = 1 << 5;
/// Abort; fatal.
pub const SIGABRT: u32 = 1 << 6;
/// Bus error.
pub const SIGBUS: u32 = 1 << 7;
/// Erroneous arithmetic operation; fatal.
pub const SIGFPE: u32 = 1 << 8;
/// Kill; fatal, and handled by the kernel.
pub const SIGKILL: u32 = 1 << 9;
/// First signal for the use of programs.
pub const SIGUSR1: u32 = 1 << 10;
/// Segmentation violation; fatal.
pub const SIGSEGV: u32 = 1 << 11;
/// Second signal for the use of programs.
pub const SIGUSR2: u32 = 1 << 12;
/// Broken pipe.
pub const SIGPIPE: u32 = 1 << 13;
/// Alarm clock.
pub const SIGALRM: u32 = 1 << 14;
/// Termination.
pub const SIGTERM: u32 = 1 << 15;
/// Stack fault.
pub const SIGSTKFLT: u32 = 1 << 16;
/// A child has stopped or exited.
pub const SIGCHLD: u32 = 1 << 17;
/// Continue; handled by the kernel.
pub const SIGCONT: u32 = 1 << 18;
/// Stop; handled by the kernel.
pub const SIGSTOP: u32 = 1 << 19;
/// Stop from the terminal.
pub const SIGTSTP: u32 = 1 << 20;
/// Input for a background process.
pub const SIGTTIN: u32 = 1 << 21;
/// Output of a background process.
pub const SIGTTOU: u32 = 1 << 22;
/// Urgent condition on a socket.
pub const SIGURG: u32 = 1 << 23;
/// Processor time limit exceeded.
pub const SIGXCPU: u32 = 1 << 24;
/// File size limit exceeded.
pub const SIGXFSZ: u32 = 1 << 25;
/// Virtual alarm clock.
pub const SIGVTALRM: u32 = 1 << 26;
/// Profiling timer.
pub const SIGPROF: u32 = 1 << 27;
/// The window has changed its size.
pub const SIGWINCH: u32 = 1 << 28;
/// Input or output is possible.
pub const SIGIO: u32 = 1 << 29;
/// Power failure.
pub const SIGPWR: u32 = 1 << 30;
/// Bad system call.
pub const SIGSYS: u32 = 1 << 31;

/// A set of signals, one bit per signal number.
#[derive(Clone, Copy, Debug, PartialEq, Eq, Structural)]
pub struct SignalFlags {
    pub bits: u32,
}

/// The exit status and the message of the fatal signal that takes
/// precedence in `bits`, if one is pending.
pub open spec fn fatal_status(bits: u32) -> Option<(i32, &'static str)> {
    if bits & SIGINT == SIGINT {
        Some((-2i32, "Killed, SIGINT=2"))
    } else if bits & SIGILL == SIGILL {
        Some((-4i32, "Illegal Instruction, SIGILL=4"))
    } else if bits & SIGABRT == SIGABRT {
        Some((-6i32, "Aborted, SIGABRT=6"))
    } else if bits & SIGFPE == SIGFPE {
        Some((-8i32, "Erroneous Arithmetic Operation, SIGFPE=8"))
    } else if bits & SIGKILL == SIGKILL {
        Some((-9i32, "Killed, SIGKILL=9"))
    } else if bits & SIGSEGV == SIGSEGV {
        Some((-11i32, "Segmentation Fault, SIGSEGV=11"))
    } else {
        None
    }
}

impl SignalFlags {
    /// Every signal of `other` is in this set.
    pub open spec fn has(self, other: SignalFlags) -> bool {
        self.bits & other.bits == other.bits
    }

    /// The set with no signal in it.
    pub fn empty() -> (flags: SignalFlags)
        ensures
            flags.bits == 0,
    {
        SignalFlags { bits: 0 }
    }

    /// The set with exactly the signals whose bits are set in `bits`. Every
    /// bit stands for a signal, so every value is a set.
    pub fn from_bits(bits: u32) -> (flags: Option<SignalFlags>)
        ensures
            flags == Some(SignalFlags { bits }),
    {
        Some(SignalFlags { bits })
    }

    /// Whether every signal of `other` is in this set.
    pub fn contains(&self, other: SignalFlags) -> (found: bool)
        ensures
            found == self.has(other),
    {
        self.bits & other.bits == other.bits
    }

    /// Adds the signals of `other`.
    pub fn insert(&mut self, other: SignalFlags)
        ensures
            final(self).bits == old(self).bits | other.bits,
    {
        self.bits = self.bits | other.bits;
    }

    /// Flips the signals of `other`: those that are in the set leave it.
    pub fn toggle(&mut self, other: SignalFlags)
        ensures
            final(self).bits == old(self).bits ^ other.bits,
    {
        self.bits = self.bits ^ other.bits;
    }

    /// The exit status and message of the pending fatal signal, if any. Where
    /// several are pending, the one tested first wins: interrupt, illegal
    /// instruction, abort, arithmetic error, kill, segmentation violation.
    pub fn check_error(&self) -> (fatal: Option<(i32, &'static str)>)
        ensures
            fatal == fatal_status(self.bits),
    {
        if self.contains(SignalFlags { bits: SIGINT }) {
            Some((-2, "Killed, SIGINT=2"))
        } else if self.contains(SignalFlags { bits: SIGILL }) {
            Some((-4, "Illegal Instruction, SIGILL=4"))
        } else if self.contains(SignalFlags { bits: SIGABRT }) {
            Some((-6, "Aborted, SIGABRT=6"))
        } else if self.contains(SignalFlags { bits: SIGFPE }) {
            Some((-8, "Erroneous Arithmetic Operation, SIGFPE=8"))
        } else if self.contains(SignalFlags { bits: SIGKILL }) {
            Some((-9, "Killed, SIGKILL=9"))
        } else if self.contains(SignalFlags { bits: SIGSEGV }) {
            Some((-11, "Segmentation Fault, SIGSEGV=11"))
        } else {
            None
        }
    }
}

} // verus!
