//! Bookkeeping for sections in which interrupts stay masked.

pub mod up;
