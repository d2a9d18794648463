[package]
name = "task_kernel"
version = "0.1.0"
edition = "2021"
publish = false

[dependencies]
riscv = "=0.16.1"
spin = "=0.12.3"
lazy_static = "=1.5.1"
log = "=0.4.34"
buddy_system_allocator = "=0.13.0"
