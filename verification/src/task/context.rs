//! The registers that a task needs to resume in the kernel.

use vstd::prelude::*;
use vstd::array::spec_array_fill_for_copy_type;

verus! {

/// Return address, stack pointer and callee-saved registers of a task that
/// is not running.
#[derive(Clone, Copy, Debug)]
pub struct TaskContext {
    /// Address at which the task resumes.
    pub ra: usize,
    /// Kernel stack pointer.
    pub sp: usize,
    /// Callee-saved registers.
    pub s: [usize; 12],
}

impl TaskContext {
    /// The context that resumes at `ra` on the stack that ends at `sp`,
    /// with every callee-saved register zero.
    pub open spec fn resuming_at(ra: usize, sp: usize) -> TaskContext {
        TaskContext { ra, sp, s: spec_array_fill_for_copy_type::<usize, 12>(0) }
    }

    /// The context with every register zero.
    pub fn zero_init() -> (cx: TaskContext)
        ensures
            cx == TaskContext::resuming_at(0, 0),
    {
        TaskContext { ra: 0, sp: 0, s: [0; 12] }
    }

    /// The context of a task that resumes in the routine at `trap_return`,
    /// which takes it to user mode, on the kernel stack that ends at
    /// `kstack_ptr`.
    pub fn goto_trap_return(kstack_ptr: usize, trap_return: usize) -> (cx: TaskContext)
        ensures
            cx == TaskContext::resuming_at(trap_return, kstack_ptr),
    {
        TaskContext { ra: trap_return, sp: kstack_ptr, s: [0; 12] }
    }

    /// The context of a task that resumes in the kernel function at
    /// `entry`, on the stack that ends at `kstack_ptr`.
    pub fn goto_kernel_entry(entry: usize, kstack_ptr: usize) -> (cx: TaskContext)
        ensures
            cx == TaskContext::resuming_at(entry, kstack_ptr),
    {
        TaskContext { ra: entry, sp: kstack_ptr, s: [0; 12] }
    }
}

} // verus!
