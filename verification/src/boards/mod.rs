//! The machines that the kernel runs on.

pub mod qemu;
