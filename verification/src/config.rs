//! Layout constants of the machine and of the kernel's virtual address space.

use vstd::prelude::*;

verus! {

/// Bytes in a page.
pub const PAGE_SIZE: usize = 0x1000;

/// Bytes in a user stack.
pub const USER_STACK_SIZE: usize = 0x2000;

/// Bytes in a kernel stack of a user task.
pub const KERNEL_STACK_SIZE: usize = 0x2000;

/// Highest page of every address space, where the trap vector is mapped.
pub const TRAMPOLINE: usize = usize::MAX - PAGE_SIZE + 1;

/// Page just below the trampoline; trap frames grow downward from here.
pub const TRAP_CONTEXT_BASE: usize = TRAMPOLINE - PAGE_SIZE;

/// End of physical memory.
pub const MEMORY_END: usize = 0x8800_0000;

/// Number of cores.
pub const CPU_NUM: usize = 4;

/// Addresses of the kernel's own entry points, and the token of its
/// address space. They are fixed when the kernel is linked and booted.
#[derive(Clone, Copy, Debug)]
pub struct KernelSymbols {
    /// Token of the kernel's address space.
    pub kernel_token: usize,
    /// The handler of traps from user mode.
    pub trap_handler: usize,
    /// The handler of traps from kernel mode.
    pub trap_from_kernel: usize,
    /// The routine that returns to user mode.
    pub trap_return: usize,
    /// Link address of the user trap vector.
    pub alltraps: usize,
    /// Link address of the kernel trap vector.
    pub alltraps_k: usize,
    /// Link address of the routine that restores a trap frame.
    pub restore: usize,
}

impl KernelSymbols {
    /// The kernel trap vector and the restore routine lie in the page that
    /// begins with the user trap vector.
    pub open spec fn wf(self) -> bool {
        &&& self.alltraps <= self.alltraps_k
        &&& self.alltraps_k - self.alltraps < PAGE_SIZE
        &&& self.alltraps <= self.restore
        &&& self.restore - self.alltraps < PAGE_SIZE
    }

    /// Whether the kernel trap vector and the restore routine lie in the
    /// page that begins with the user trap vector.
    pub fn is_wf(&self) -> (ok: bool)
        ensures
            ok == self.wf(),
    {
        self.alltraps <= self.alltraps_k && self.alltraps_k - self.alltraps < PAGE_SIZE && self.alltraps
            <= self.restore && self.restore - self.alltraps < PAGE_SIZE
    }
}

} // verus!
