//! Recyclable identifiers, and the addresses that are derived from them.

use vstd::prelude::*;
use crate::config::{KERNEL_STACK_SIZE, PAGE_SIZE, TRAMPOLINE, TRAP_CONTEXT_BASE, USER_STACK_SIZE};
use crate::mm::{MapArea, MemorySet, MAP_R, MAP_W};

verus! {

/// Hands out integer identifiers and takes them back for reuse.
#[derive(Debug)]
pub struct RecycleAllocator {
    start: usize,
    current: usize,
    recycled: Vec<usize>,
}

/// What an allocator is, mathematically: the first identifier that it
/// ever hands out, the next fresh identifier, and the pool of freed ones,
/// most recently freed last.
pub struct RecycleAllocatorView {
    pub start: nat,
    pub current: nat,
    pub recycled: Seq<usize>,
}

impl RecycleAllocatorView {
    /// Every freed identifier was once handed out, and none is in the pool twice.
    pub open spec fn wf(self) -> bool {
        &&& self.start <= self.current
        &&& forall|i: int|
            0 <= i < self.recycled.len() ==> self.start <= (#[trigger] self.recycled[i]) < self.current
        &&& self.recycled.no_duplicates()
    }

    /// `id` has been handed out and not been given back. An identifier
    /// below the start is never handed out.
    pub open spec fn outstanding(self, id: usize) -> bool {
        self.start <= id < self.current && !self.recycled.contains(id)
    }

    /// The identifier that the next allocation returns.
    pub open spec fn next_id(self) -> nat {
        if self.recycled.len() > 0 {
            self.recycled.last() as nat
        } else {
            self.current
        }
    }

    /// The allocator after one allocation.
    pub open spec fn after_alloc(self) -> RecycleAllocatorView {
        if self.recycled.len() > 0 {
            RecycleAllocatorView { recycled: self.recycled.drop_last(), ..self }
        } else {
            RecycleAllocatorView { current: self.current + 1, ..self }
        }
    }

    /// The allocator after `id` has been given back.
    pub open spec fn after_dealloc(self, id: usize) -> RecycleAllocatorView {
        RecycleAllocatorView { recycled: self.recycled.push(id), ..self }
    }

    /// An allocation returns an identifier that nobody holds, marks it as
    /// held, and changes the standing of no other identifier. While the pool
    /// is not empty the identifier comes from the pool and the counter stays.
    pub proof fn lemma_alloc_fresh(self)
        requires
            self.wf(),
            self.next_id() <= usize::MAX,
        ensures
            self.after_alloc().wf(),
            self.start <= self.next_id(),
            !self.outstanding(self.next_id() as usize),
            self.after_alloc().outstanding(self.next_id() as usize),
            forall|other: usize| other != self.next_id() ==>
                (#[trigger] self.after_alloc().outstanding(other)) == self.outstanding(other),
            self.recycled.len() > 0 ==> self.recycled.contains(self.next_id() as usize)
                && self.after_alloc().current == self.current,
    {
        let id = self.next_id() as usize;
        let after = self.after_alloc();
        if self.recycled.len() > 0 {
            let last = self.recycled.len() - 1;
            assert(self.recycled[last] == id);
            assert forall|other: usize| other != id implies
                (#[trigger] after.outstanding(other)) == self.outstanding(other) by {
                if self.recycled.contains(other) {
                    let j = choose|j: int| 0 <= j < self.recycled.len() && self.recycled[j] == other;
                    assert(after.recycled[j] == other);
                }
            }
            assert(!after.recycled.contains(id)) by {
                if after.recycled.contains(id) {
                    let j = choose|j: int| 0 <= j < after.recycled.len() && after.recycled[j] == id;
                    assert(self.recycled[j] == id);
                }
            }
        }
    }

    /// Giving back an identifier that is held keeps the allocator well
    /// formed, and the next allocation returns that very identifier.
    pub proof fn lemma_dealloc_then_alloc(self, id: usize)
        requires
            self.wf(),
            self.outstanding(id),
        ensures
            self.after_dealloc(id).wf(),
            !self.after_dealloc(id).outstanding(id),
            self.after_dealloc(id).next_id() == id,
            self.after_dealloc(id).after_alloc() == self,
            forall|other: usize| other != id ==>
                (#[trigger] self.after_dealloc(id).outstanding(other)) == self.outstanding(other),
    {
        let after = self.after_dealloc(id);
        assert(after.recycled.drop_last() =~= self.recycled);
        assert(after.recycled[self.recycled.len() as int] == id);
        assert forall|other: usize| other != id implies
            (#[trigger] after.outstanding(other)) == self.outstanding(other) by {
            if self.recycled.contains(other) {
                let j = choose|j: int| 0 <= j < self.recycled.len() && self.recycled[j] == other;
                assert(after.recycled[j] == other);
            }
        }
    }

    /// When exactly one identifier is in the pool, or the most recently
    /// freed one is the smallest of the pool, the next allocation returns
    /// the smallest freed identifier.
    pub proof fn lemma_alloc_smallest_freed(self)
        requires
            self.wf(),
            self.recycled.len() > 0,
            forall|i: int| 0 <= i < self.recycled.len() ==> self.recycled.last() <= #[trigger] self.recycled[i],
        ensures
            self.recycled.contains(self.next_id() as usize),
            forall|freed: usize| self.recycled.contains(freed) ==> self.next_id() <= freed,
    {
        assert(self.recycled[self.recycled.len() - 1] == self.next_id());
    }
}

impl View for RecycleAllocator {
    type V = RecycleAllocatorView;

    closed spec fn view(&self) -> RecycleAllocatorView {
        RecycleAllocatorView {
            start: self.start as nat,
            current: self.current as nat,
            recycled: self.recycled@,
        }
    }
}

impl RecycleAllocator {
    /// An allocator whose first fresh identifier is `start`.
    pub fn new(start: usize) -> (allocator: Self)
        ensures
            allocator@.start == start,
            allocator@.current == start,
            allocator@.recycled == Seq::<usize>::empty(),
            allocator@.wf(),
    {
        RecycleAllocator { start, current: start, recycled: Vec::new() }
    }

    /// The most recently freed identifier if there is one, else a fresh one.
    pub fn allocate(&mut self) -> (id: usize)
        requires
            old(self)@.wf(),
            old(self)@.next_id() < usize::MAX,
        ensures
            id == old(self)@.next_id(),
            id >= old(self)@.start,
            final(self)@ == old(self)@.after_alloc(),
            final(self)@.wf(),
            !old(self)@.outstanding(id),
            final(self)@.outstanding(id),
            forall|other: usize| other != id ==>
                (#[trigger] final(self)@.outstanding(other)) == old(self)@.outstanding(other),
    {
        proof {
            self@.lemma_alloc_fresh();
        }
        if let Some(id) = self.recycled.pop() {
            id
        } else {
            self.current += 1;
            self.current - 1
        }
    }

    /// Gives `id`, which is held, back to the pool. An identifier that was
    /// never handed out, one below the start among them, or that is in the
    /// pool already, cannot be given back.
    pub fn dealloc(&mut self, id: usize)
        requires
            old(self)@.wf(),
            old(self)@.outstanding(id),
        ensures
            final(self)@ == old(self)@.after_dealloc(id),
            final(self)@.wf(),
            !final(self)@.outstanding(id),
            forall|other: usize| other != id ==>
                (#[trigger] final(self)@.outstanding(other)) == old(self)@.outstanding(other),
    {
        proof {
            self@.lemma_dealloc_then_alloc(id);
        }
        self.recycled.push(id);
    }

    /// The identifier that the next allocation returns.
    pub fn peek(&self) -> (id: usize)
        requires
            self@.wf(),
        ensures
            id == self@.next_id(),
    {
        let len = self.recycled.len();
        if len > 0 {
            self.recycled[len - 1]
        } else {
            self.current
        }
    }

    /// Whether `id` has been handed out and not been given back.
    pub fn is_outstanding(&self, id: usize) -> (held: bool)
        ensures
            held == self@.outstanding(id),
    {
        if id < self.start || id >= self.current {
            return false;
        }
        let mut i: usize = 0;
        while i < self.recycled.len()
            invariant
                i <= self.recycled.len(),
                forall|j: int| 0 <= j < i ==> self.recycled@[j] != id,
            decreases self.recycled.len() - i,
        {
            if self.recycled[i] == id {
                return false;
            }
            i += 1;
        }
        true
    }
}

/// An identifier of a task, held from its allocation until the task is gone.
#[derive(Debug, PartialEq, Eq, Structural)]
pub struct PidHandle(pub usize);

/// The slot of a kernel stack, held as long as the stack is mapped.
#[derive(Debug, PartialEq, Eq, Structural)]
pub struct KernelStack(pub usize);

/// Base of the region in which user stacks lie.
pub const USER_STACK_BASE: usize = 0x30000;

/// The kernel stack of slot `kstack_id` lies below the trampoline.
pub open spec fn kstack_in_range(kstack_id: usize) -> bool {
    kstack_id * (KERNEL_STACK_SIZE + PAGE_SIZE) + KERNEL_STACK_SIZE <= TRAMPOLINE
}

/// The trap frame and the user stack of task `pid` lie in the address space.
pub open spec fn pid_in_range(pid: usize) -> bool {
    &&& pid * PAGE_SIZE <= TRAP_CONTEXT_BASE
    &&& USER_STACK_BASE + (pid + 1) * (PAGE_SIZE + USER_STACK_SIZE) <= usize::MAX
}

/// The bottom of the kernel stack of slot `kstack_id`.
pub open spec fn kernel_stack_bottom(kstack_id: usize) -> int {
    kernel_stack_top(kstack_id) - KERNEL_STACK_SIZE
}

/// The top of the kernel stack of slot `kstack_id`: the stacks lie below
/// the trampoline, each followed by a guard page.
pub open spec fn kernel_stack_top(kstack_id: usize) -> int {
    TRAMPOLINE - kstack_id * (KERNEL_STACK_SIZE + PAGE_SIZE)
}

/// Bottom and top of the kernel stack of slot `kstack_id`.
pub fn kernel_stack_position(kstack_id: usize) -> (position: (usize, usize))
    requires
        kstack_in_range(kstack_id),
    ensures
        position.0 == kernel_stack_bottom(kstack_id),
        position.1 == kernel_stack_top(kstack_id),
{
    let top = TRAMPOLINE - kstack_id * (KERNEL_STACK_SIZE + PAGE_SIZE);
    let bottom = top - KERNEL_STACK_SIZE;
    (bottom, top)
}

/// The kernel stacks of two different slots do not overlap.
pub proof fn lemma_kernel_stacks_disjoint(a: usize, b: usize)
    requires
        a < b,
    ensures
        kernel_stack_top(b) <= kernel_stack_bottom(a) - PAGE_SIZE,
{
}

/// The address of the trap frame of task `pid`: the frames lie below the
/// trampoline, a page each.
pub fn trap_cx_bottom_from_pid(pid: usize) -> (bottom: usize)
    requires
        pid * PAGE_SIZE <= TRAP_CONTEXT_BASE,
    ensures
        bottom == TRAP_CONTEXT_BASE - pid * PAGE_SIZE,
{
    TRAP_CONTEXT_BASE - pid * PAGE_SIZE
}

/// The bottom of the user stack of task `pid`: the stacks lie above a fixed
/// base, each followed by a guard page.
pub fn ustack_bottom_from_pid(pid: usize) -> (bottom: usize)
    requires
        USER_STACK_BASE + pid * (PAGE_SIZE + USER_STACK_SIZE) <= usize::MAX,
    ensures
        bottom == USER_STACK_BASE + pid * (PAGE_SIZE + USER_STACK_SIZE),
{
    USER_STACK_BASE + pid * (PAGE_SIZE + USER_STACK_SIZE)
}

impl KernelStack {
    /// The address just above this stack.
    pub fn get_top(&self) -> (top: usize)
        requires
            kstack_in_range(self.0),
        ensures
            top == kernel_stack_top(self.0),
    {
        let (_, kernel_stack_top) = kernel_stack_position(self.0);
        kernel_stack_top
    }

    /// The address at which a value of `size` bytes that is pushed on the
    /// empty stack comes to lie.
    pub fn push_on_top(&self, size: usize) -> (address: usize)
        requires
            kstack_in_range(self.0),
            size <= KERNEL_STACK_SIZE,
        ensures
            address == kernel_stack_top(self.0) - size,
    {
        let kernel_stack_top = self.get_top();
        kernel_stack_top - size
    }
}

/// Takes a task identifier from `pid_allocator`.
pub fn pid_alloc(pid_allocator: &mut RecycleAllocator) -> (pid: PidHandle)
    requires
        old(pid_allocator)@.wf(),
        old(pid_allocator)@.next_id() < usize::MAX,
    ensures
        pid.0 == old(pid_allocator)@.next_id(),
        final(pid_allocator)@ == old(pid_allocator)@.after_alloc(),
        final(pid_allocator)@.wf(),
        !old(pid_allocator)@.outstanding(pid.0),
        final(pid_allocator)@.outstanding(pid.0),
        forall|other: usize| other != pid.0 ==>
            (#[trigger] final(pid_allocator)@.outstanding(other)) == old(pid_allocator)@.outstanding(other),
{
    PidHandle(pid_allocator.allocate())
}

/// Takes a kernel stack slot from `kstack_allocator` and maps the stack,
/// readable and writable, in `kernel_space`.
pub fn kstack_alloc(kstack_allocator: &mut RecycleAllocator, kernel_space: &mut MemorySet) -> (kstack:
    KernelStack)
    requires
        old(kstack_allocator)@.wf(),
        old(kstack_allocator)@.next_id() < usize::MAX,
        kstack_in_range(old(kstack_allocator)@.next_id() as usize),
    ensures
        kstack.0 == old(kstack_allocator)@.next_id(),
        final(kstack_allocator)@ == old(kstack_allocator)@.after_alloc(),
        final(kstack_allocator)@.wf(),
        !old(kstack_allocator)@.outstanding(kstack.0),
        final(kstack_allocator)@.outstanding(kstack.0),
        forall|other: usize| other != kstack.0 ==>
            (#[trigger] final(kstack_allocator)@.outstanding(other)) == old(kstack_allocator)@.outstanding(other),
        final(kernel_space).token == old(kernel_space).token,
        final(kernel_space).areas@ == old(kernel_space).areas@.push(kernel_stack_area(kstack.0)),
{
    let kstack_id = kstack_allocator.allocate();
    let (kstack_bottom, kstack_top) = kernel_stack_position(kstack_id);
    kernel_space.insert_framed_area(kstack_bottom, kstack_top, MAP_R | MAP_W);
    KernelStack(kstack_id)
}

/// The region of the kernel stack of slot `kstack_id`.
pub open spec fn kernel_stack_area(kstack_id: usize) -> MapArea {
    MapArea {
        start: kernel_stack_bottom(kstack_id) as usize,
        end: kernel_stack_top(kstack_id) as usize,
        perm: MAP_R | MAP_W,
    }
}

/// Gives the slot of `kstack` back to `kstack_allocator` and unmaps the
/// stack from `kernel_space`.
pub fn kstack_dealloc(kstack_allocator: &mut RecycleAllocator, kernel_space: &mut MemorySet, kstack: KernelStack)
    requires
        old(kstack_allocator)@.wf(),
        old(kstack_allocator)@.outstanding(kstack.0),
        kstack_in_range(kstack.0),
    ensures
        final(kstack_allocator)@ == old(kstack_allocator)@.after_dealloc(kstack.0),
        final(kstack_allocator)@.wf(),
        !final(kstack_allocator)@.outstanding(kstack.0),
        forall|other: usize| other != kstack.0 ==>
            (#[trigger] final(kstack_allocator)@.outstanding(other)) == old(kstack_allocator)@.outstanding(other),
        final(kernel_space).token == old(kernel_space).token,
        final(kernel_space).areas@ == crate::mm::without_area(
            old(kernel_space).areas@,
            kernel_stack_bottom(kstack.0) as usize,
        ),
{
    let (kernel_stack_bottom, _) = kernel_stack_position(kstack.0);
    kernel_space.remove_area_with_start_vpn(kernel_stack_bottom);
    kstack_allocator.dealloc(kstack.0);
}

/// Gives the identifier of `pid` back to `pid_allocator`.
pub fn pid_dealloc(pid_allocator: &mut RecycleAllocator, pid: PidHandle)
    requires
        old(pid_allocator)@.wf(),
        old(pid_allocator)@.outstanding(pid.0),
    ensures
        final(pid_allocator)@ == old(pid_allocator)@.after_dealloc(pid.0),
        final(pid_allocator)@.wf(),
        !final(pid_allocator)@.outstanding(pid.0),
        forall|other: usize| other != pid.0 ==>
            (#[trigger] final(pid_allocator)@.outstanding(other)) == old(pid_allocator)@.outstanding(other),
{
    pid_allocator.dealloc(pid.0);
}

} // verus!
