//! Kernel threads that run a kernel function on a kernel stack of their own.

pub mod kernel_stackful_coroutine;
