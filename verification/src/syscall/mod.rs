//! The calls by which user tasks ask the kernel for processes, threads and
//! signals.

pub mod process;
pub mod signal;
pub mod thread;
