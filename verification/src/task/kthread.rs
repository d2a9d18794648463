//! Kernel threads: tasks that never leave kernel mode, and the supervisor
//! that is the parent of record of those that are created on demand.

use vstd::prelude::*;
use crate::config::{KernelSymbols, CPU_NUM, MEMORY_END, PAGE_SIZE};
use crate::kernel::{ktid_in_range, Kernel, UserSpace, KTHREAD_TRAP_CX_REGION};
use crate::mm::{MapArea, MemorySet, MAP_R, MAP_W};
use crate::task::action::SignalActions;
use crate::task::context::TaskContext;
use crate::task::exit::exited;
use crate::task::pid::{pid_alloc, pid_in_range, PidHandle, RecycleAllocator};
use crate::task::processor::{schedule, ContextSlot, SwitchRequest};
use crate::task::signal::SignalFlags;
use crate::task::suspend_current_and_run_next;
use crate::task::task::{TaskControlBlock, TaskControlBlockInner};
use crate::trap::context::{
    sstatus_set_sie, sstatus_set_spie, sstatus_set_spp, sstatus_with, TrapContext, SSTATUS_SIE, SSTATUS_SPIE,
    SSTATUS_SPP,
};

verus! {

/// Bytes in the stack of a kernel thread.
pub const STACK_SIZE: usize = 0x8000;

/// The group identifier of a kernel thread, which says where its trap
/// frame and its stack lie.
#[derive(Debug, PartialEq, Eq, Structural)]
pub struct TgidHandle(pub usize);

/// The address of the trap frame of the kernel thread group `tgid`: the
/// frames lie above the end of memory and a guard page, a page each, in
/// the region that is set aside for them. A group whose frame would lie
/// beyond that region, among the stacks, has no frame.
pub fn kthread_trap_cx_bottom_from_tid(tgid: usize) -> (bottom: usize)
    requires
        ktid_in_range(tgid),
    ensures
        bottom == MEMORY_END + PAGE_SIZE + tgid * PAGE_SIZE,
        bottom + PAGE_SIZE <= MEMORY_END + PAGE_SIZE + KTHREAD_TRAP_CX_REGION,
{
    // guard page
    let memory_end = MEMORY_END + PAGE_SIZE;
    memory_end + tgid * PAGE_SIZE
}

/// The bottom of the stack of the kernel thread group `tgid`, which has a
/// trap frame: the stacks lie above the region of the trap frames.
pub fn kthread_stack_bottom_from_tid(tgid: usize) -> (bottom: usize)
    requires
        ktid_in_range(tgid),
    ensures
        bottom == MEMORY_END + PAGE_SIZE + KTHREAD_TRAP_CX_REGION + tgid * STACK_SIZE,
        bottom >= MEMORY_END + PAGE_SIZE + KTHREAD_TRAP_CX_REGION,
        bottom + STACK_SIZE <= usize::MAX,
{
    // guard page + trap frames of kernel threads
    let memory_end = MEMORY_END + PAGE_SIZE + KTHREAD_TRAP_CX_REGION;
    memory_end + tgid * STACK_SIZE
}

/// Where the trap frame of the kernel thread group `tgid` begins.
pub open spec fn kthread_trap_cx_bottom(tgid: usize) -> int {
    MEMORY_END + PAGE_SIZE + tgid * PAGE_SIZE
}

/// Where the stack of the kernel thread group `tgid` begins.
pub open spec fn kthread_stack_bottom(tgid: usize) -> int {
    MEMORY_END + PAGE_SIZE + KTHREAD_TRAP_CX_REGION + tgid * STACK_SIZE
}

/// The trap frames and the stacks of the kernel thread groups that have
/// them lie above the end of memory and its guard page and have addresses;
/// the frame of no group reaches into the stack of any group; and neither
/// the frames nor the stacks of two groups overlap.
pub proof fn lemma_kthread_regions(a: usize, b: usize)
    requires
        ktid_in_range(a),
        ktid_in_range(b),
    ensures
        kthread_trap_cx_bottom(a) >= MEMORY_END + PAGE_SIZE,
        kthread_stack_bottom(a) + STACK_SIZE <= usize::MAX,
        kthread_trap_cx_bottom(a) + PAGE_SIZE <= kthread_stack_bottom(b),
        a < b ==> kthread_trap_cx_bottom(a) + PAGE_SIZE <= kthread_trap_cx_bottom(b),
        a < b ==> kthread_stack_bottom(a) + STACK_SIZE <= kthread_stack_bottom(b),
{
}

/// A stack that was allocated for a kernel thread, by its lowest address.
#[derive(Clone, Copy, Debug)]
pub struct KStack(pub usize);

impl KStack {
    /// The stack that begins at `bottom`.
    pub fn new(bottom: usize) -> (stack: KStack)
        ensures
            stack.0 == bottom,
    {
        KStack(bottom)
    }

    /// The address just above the stack.
    pub fn top(&self) -> (top: usize)
        requires
            self.0 + STACK_SIZE <= usize::MAX,
        ensures
            top == self.0 + STACK_SIZE,
    {
        self.0 + STACK_SIZE
    }
}

/// Takes a group identifier for a kernel thread from `kernel_tgid_allocator`.
pub fn kernel_tgid_alloc(kernel_tgid_allocator: &mut RecycleAllocator) -> (tgid: TgidHandle)
    requires
        old(kernel_tgid_allocator)@.wf(),
        old(kernel_tgid_allocator)@.next_id() < usize::MAX,
    ensures
        tgid.0 == old(kernel_tgid_allocator)@.next_id(),
        final(kernel_tgid_allocator)@ == old(kernel_tgid_allocator)@.after_alloc(),
        final(kernel_tgid_allocator)@.wf(),
{
    TgidHandle(kernel_tgid_allocator.allocate())
}

/// The status register value with which a kernel thread is entered: the
/// value `sstatus` with the previous privilege supervisor, the previous
/// interrupt enable set, and interrupts disabled.
pub open spec fn kthread_sstatus(sstatus: usize) -> usize {
    sstatus_with(
        sstatus_with(sstatus_with(sstatus, SSTATUS_SPP, true), SSTATUS_SPIE, true),
        SSTATUS_SIE,
        false,
    )
}

/// The first trap frame of a kernel thread that runs the function at
/// `entry` on the stack that ends at `kstack_top`: a return from the trap
/// stays in supervisor mode and enables interrupts; the one stack serves
/// the thread and its traps, which the handler at `trap_from_kernel`
/// takes. `sstatus` is the current value of the status register.
pub fn new_kthread_trap_cx(entry: usize, kstack_top: usize, kernel_token: usize, trap_from_kernel: usize, sstatus: usize) -> (cx:
    TrapContext)
    ensures
        cx == TrapContext::fresh(
            entry,
            kstack_top,
            kthread_sstatus(sstatus),
            kernel_token,
            kstack_top,
            trap_from_kernel,
        ),
{
    let sstatus = sstatus_set_spp(sstatus, true);
    // Supervisor Previous Interrupt Enable
    let sstatus = sstatus_set_spie(sstatus, true);
    // Supervisor Interrupt Disable
    let sstatus = sstatus_set_sie(sstatus, false);
    let mut cx = TrapContext {
        x: [0; 32],
        sstatus,
        sepc: entry,
        kernel_satp: kernel_token,
        kernel_sp: kstack_top,
        trap_handler: trap_from_kernel,
    };
    // a kernel thread uses one stack only
    cx.set_sp(kstack_top);
    cx
}

/// A request to a kernel thread.
#[derive(Clone, Copy, Debug, PartialEq, Eq, Structural)]
pub enum KthreadBits {
    /// The thread is asked to exit.
    KthreadShouldStop,
    /// The thread is asked to pause.
    KthreadShouldPark,
}

impl KthreadBits {
    /// The flag that stands for this request.
    pub open spec fn spec_bits(self) -> usize {
        match self {
            KthreadBits::KthreadShouldStop => 1,
            KthreadBits::KthreadShouldPark => 2,
        }
    }

    /// The flag that stands for this request.
    pub fn bits(self) -> (bits: usize)
        ensures
            bits == self.spec_bits(),
    {
        match self {
            KthreadBits::KthreadShouldStop => 1,
            KthreadBits::KthreadShouldPark => 2,
        }
    }
}

/// The address just above the stack of the kernel thread group `tgid`.
pub open spec fn kthread_stack_top(tgid: usize) -> int {
    MEMORY_END + PAGE_SIZE + KTHREAD_TRAP_CX_REGION + tgid * STACK_SIZE + STACK_SIZE
}

/// The region of the trap frame of the kernel thread group `tgid`.
pub open spec fn kthread_trap_cx_area(tgid: usize) -> MapArea {
    MapArea {
        start: (MEMORY_END + PAGE_SIZE + tgid * PAGE_SIZE) as usize,
        end: (MEMORY_END + PAGE_SIZE + tgid * PAGE_SIZE + PAGE_SIZE) as usize,
        perm: MAP_R | MAP_W,
    }
}

/// The region of the stack of the kernel thread group `tgid`.
pub open spec fn kthread_stack_area(tgid: usize) -> MapArea {
    MapArea {
        start: (kthread_stack_top(tgid) - STACK_SIZE) as usize,
        end: kthread_stack_top(tgid) as usize,
        perm: MAP_R | MAP_W,
    }
}

impl TaskControlBlock {
    /// A kernel thread of group `tgid` that runs the function at `entry`:
    /// it has no kernel stack of the kind that user tasks have, and its
    /// stack lies where its group says.
    pub open spec fn is_kernel_thread(
        self,
        pid: usize,
        tgid: usize,
        memory_set: usize,
        entry: usize,
        parent: Option<usize>,
        symbols: KernelSymbols,
        sstatus: usize,
    ) -> bool {
        &&& self.pid == PidHandle(pid)
        &&& self.tgid == tgid
        &&& self.kernel_stack.is_none()
        &&& self.inner.is_new(
            TaskContext::resuming_at(symbols.trap_return, kthread_stack_top(tgid) as usize),
            TrapContext::fresh(
                entry,
                kthread_stack_top(tgid) as usize,
                kthread_sstatus(sstatus),
                symbols.kernel_token,
                kthread_stack_top(tgid) as usize,
                symbols.trap_from_kernel,
            ),
            memory_set,
            parent,
            SignalFlags { bits: 0 },
            self.inner.signal_actions,
        )
        &&& self.inner.signal_actions.all_default()
    }

    /// Makes a kernel thread.
    pub fn new_kernel_thread(
        pid: PidHandle,
        tgid: TgidHandle,
        memory_set: usize,
        entry: usize,
        parent: Option<usize>,
        symbols: &KernelSymbols,
        sstatus: usize,
    ) -> (thread: Self)
        requires
            ktid_in_range(tgid.0),
        ensures
            thread.is_kernel_thread(pid.0, tgid.0, memory_set, entry, parent, *symbols, sstatus),
    {
        let kstack_top = kthread_stack_bottom_from_tid(tgid.0) + STACK_SIZE;
        let trap_cx = new_kthread_trap_cx(
            entry,
            kstack_top,
            symbols.kernel_token,
            symbols.trap_from_kernel,
            sstatus,
        );
        TaskControlBlock {
            pid,
            tgid: tgid.0,
            kernel_stack: None,
            inner: TaskControlBlockInner::new(
                TaskContext::goto_trap_return(kstack_top, symbols.trap_return),
                trap_cx,
                memory_set,
                parent,
                SignalFlags::empty(),
                SignalActions::new(),
            ),
        }
    }
}

impl Kernel {
    /// The address space of a kernel thread of group `tgid`: what is
    /// mapped in the kernel's own, and the thread's trap frame and stack.
    pub open spec fn kthread_areas(self, tgid: usize) -> Seq<MapArea> {
        self.kernel_space.areas@.push(kthread_trap_cx_area(tgid)).push(kthread_stack_area(tgid))
    }

    /// `self` is `before` with one more kernel thread: `pid`, of group
    /// `tgid`, which runs the function at `entry` and has `parent` as its
    /// parent. It works in user resources of its own, under the next
    /// identifier of such: an address space that `token` activates, with
    /// what is mapped in the kernel's own and the thread's trap frame and
    /// stack, and no open file. Nothing else has changed but that the
    /// thread waits in the ready queue and is the last child of its parent.
    pub open spec fn kthread_added(
        self,
        before: Kernel,
        pid: usize,
        tgid: usize,
        entry: usize,
        parent: Option<usize>,
        token: usize,
        sstatus: usize,
    ) -> bool {
        let space = self.task(pid).inner.memory_set;
        &&& self.joined_by(before, pid)
        &&& self.kstack_allocator@ == before.kstack_allocator@
        &&& self.kernel_space == before.kernel_space
        &&& self.space_allocator@ == before.space_allocator@.after_alloc()
        &&& self.task(pid).is_kernel_thread(
            pid,
            tgid,
            before.space_allocator@.next_id() as usize,
            entry,
            parent,
            before.symbols,
            sstatus,
        )
        &&& !before.space_live(space)
        &&& self.space_live(space)
        &&& self.space(space).memory_set.token == token
        &&& self.space(space).memory_set.areas@ == before.kthread_areas(tgid)
        &&& self.space(space).fd_table@ == Seq::<Option<usize>>::empty()
        &&& forall|other: usize| other != space ==> #[trigger] self.space_live(other) == before.space_live(other)
        &&& forall|other: usize|
            other != space && #[trigger] self.space_live(other) ==> self.space(other) == before.space(other)
    }

    /// Enters a kernel thread with identifier `pid` and group `tgid`,
    /// which runs the function at `entry`, in an address space of its own
    /// that `token` activates.
    pub fn add_kernel_thread(
        &mut self,
        pid: PidHandle,
        tgid: TgidHandle,
        entry: usize,
        parent: Option<usize>,
        token: usize,
        sstatus: usize,
    )
        requires
            old(self).wf(),
            !old(self).live(pid.0),
            old(self).pid_held(pid.0),
            pid_in_range(pid.0),
            ktid_in_range(tgid.0),
            old(self).space_allocator@.next_id() < usize::MAX,
            match parent {
                Some(parent) => old(self).live(parent),
                None => true,
            },
        ensures
            final(self).wf(),
            final(self).pid_allocator@ == old(self).pid_allocator@,
            final(self).kernel_tgid_allocator@ == old(self).kernel_tgid_allocator@,
            final(self).kthread_added(*old(self), pid.0, tgid.0, entry, parent, token, sstatus),
    {
        let ghost before = *old(self);
        let mut memory_set = MemorySet::from_existing_user(&self.kernel_space, token);
        let trap_cx_bottom = kthread_trap_cx_bottom_from_tid(tgid.0);
        memory_set.insert_framed_area(trap_cx_bottom, trap_cx_bottom + PAGE_SIZE, MAP_R | MAP_W);
        let stack_bottom = kthread_stack_bottom_from_tid(tgid.0);
        memory_set.insert_framed_area(stack_bottom, stack_bottom + STACK_SIZE, MAP_R | MAP_W);
        let space = self.add_space(UserSpace { memory_set, fd_table: Vec::new() });
        let ghost with_space = *self;
        let symbols = self.symbols;
        let task = TaskControlBlock::new_kernel_thread(pid, tgid, space, entry, parent, &symbols, sstatus);
        proof {
            assert(!self.live(task.pid.0));
            if let Some(up) = parent {
                assert(self.live(up));
            }
            assert(self.admits(task));
        }
        self.register_task(task);
        proof {
            assert forall|other: usize| other != space implies #[trigger] self.space_live(other) == before.space_live(
                other,
            ) by {
                assert(with_space.space_live(other) == before.space_live(other));
            }
            assert forall|other: usize| other != space && #[trigger] self.space_live(other) implies self.space(
                other,
            ) == before.space(other) by {
                assert(with_space.space_live(other));
            }
        }
    }
}

/// Makes the supervisor of kernel threads: the kernel thread with
/// identifier 0 and group 0, which runs the function at `entry` and has
/// no parent. It waits in the ready queue.
pub fn kthreadd_create(kernel: &mut Kernel, entry: usize, token: usize, sstatus: usize)
    requires
        old(kernel).wf(),
        !old(kernel).live(0),
        old(kernel).space_allocator@.next_id() < usize::MAX,
    ensures
        final(kernel).wf(),
        final(kernel).pid_allocator@ == old(kernel).pid_allocator@,
        final(kernel).kernel_tgid_allocator@ == old(kernel).kernel_tgid_allocator@,
        final(kernel).kthread_added(*old(kernel), 0, 0, entry, None, token, sstatus),
{
    // other kernel threads get this one as their parent
    kernel.add_kernel_thread(PidHandle(0), TgidHandle(0), entry, None, token, sstatus);
}

impl Kernel {
    /// The identifiers that the next kernel thread gets have addresses,
    /// and its supervisor exists.
    pub open spec fn can_admit_kthread(self) -> bool {
        &&& self.live(0)
        &&& self.pid_allocator@.next_id() < usize::MAX
        &&& pid_in_range(self.pid_allocator@.next_id() as usize)
        &&& self.kernel_tgid_allocator@.next_id() < usize::MAX
        &&& ktid_in_range(self.kernel_tgid_allocator@.next_id() as usize)
        &&& self.space_allocator@.next_id() < usize::MAX
    }

    /// Whether the identifiers that the next kernel thread gets have
    /// addresses, and its supervisor exists.
    pub fn has_room_for_kthread(&self) -> (room: bool)
        requires
            self.wf(),
        ensures
            room == self.can_admit_kthread(),
    {
        let pid = self.pid_allocator.peek();
        let tgid = self.kernel_tgid_allocator.peek();
        let space = self.space_allocator.peek();
        self.pid2tcb.get(0).is_some() && pid < usize::MAX && pid <= crate::config::TRAP_CONTEXT_BASE / PAGE_SIZE
            && pid < (usize::MAX - crate::task::pid::USER_STACK_BASE) / (PAGE_SIZE
            + crate::config::USER_STACK_SIZE) && tgid < KTHREAD_TRAP_CX_REGION / PAGE_SIZE && space
            < usize::MAX
    }
}

/// Creates a kernel thread that runs the function at `entry`, as a child
/// of the supervisor of kernel threads, in an address space of its own
/// that `token` activates. It gets the next task identifier and the next
/// group identifier of kernel threads, and waits in the ready queue. The
/// answer is its identifier.
pub fn create_kthread(kernel: &mut Kernel, entry: usize, token: usize, sstatus: usize) -> (new_pid: i32)
    requires
        old(kernel).wf(),
        old(kernel).can_admit_kthread(),
    ensures
        final(kernel).wf(),
        new_pid == (old(kernel).pid_allocator@.next_id() as usize) as i32,
        final(kernel).pid_allocator@ == old(kernel).pid_allocator@.after_alloc(),
        final(kernel).kernel_tgid_allocator@ == old(kernel).kernel_tgid_allocator@.after_alloc(),
        final(kernel).kthread_added(
            *old(kernel),
            old(kernel).pid_allocator@.next_id() as usize,
            old(kernel).kernel_tgid_allocator@.next_id() as usize,
            entry,
            Some(0usize),
            token,
            sstatus,
        ),
{
    let ghost before = *old(kernel);
    // create kernel thread
    let pid = pid_alloc(&mut kernel.pid_allocator);
    let tgid = kernel_tgid_alloc(&mut kernel.kernel_tgid_allocator);
    proof {
        assert forall|space: usize| #[trigger] kernel.space_live(space) implies kernel.space_allocator@.outstanding(
            space,
        ) by {
            assert(before.space_live(space));
        }
        kernel.lemma_resources_grew(before);
        if kernel.live(pid.0) {
            assert(before.live(pid.0));
        }
        assert(kernel.live(0)) by {
            assert(before.live(0));
        }
    }
    let new_pid = pid.0;
    let ghost with_ids = *kernel;
    // add kernel thread into the ready queue
    kernel.add_kernel_thread(pid, tgid, entry, Some(0), token, sstatus);
    proof {
        assert forall|other: usize| other != new_pid implies #[trigger] kernel.live(other) == before.live(other) by {
            assert(with_ids.live(other) == before.live(other));
        }
        assert forall|other: usize| other != new_pid && other != 0 && #[trigger] kernel.live(other) implies kernel.task(
            other,
        ) == before.task(other) by {
            assert(with_ids.live(other));
        }
        let space = kernel.task(new_pid).inner.memory_set;
        assert forall|other: usize| other != space implies #[trigger] kernel.space_live(other) == before.space_live(
            other,
        ) by {
            assert(with_ids.space_live(other) == before.space_live(other));
        }
        assert forall|other: usize| other != space && #[trigger] kernel.space_live(other) implies kernel.space(
            other,
        ) == before.space(other) by {
            assert(with_ids.space_live(other));
        }
    }
    new_pid as i32
}

/// The kernel thread that runs on core `hart_id` gives up the core for now.
pub fn kthread_yield(kernel: &Kernel, hart_id: usize) -> (switch: SwitchRequest)
    requires
        hart_id < kernel.processors@.len(),
        kernel.current(hart_id).is_some(),
    ensures
        switch == (SwitchRequest {
            save: ContextSlot::Task(kernel.current(hart_id).unwrap()),
            load: ContextSlot::Idle(hart_id),
        }),
{
    suspend_current_and_run_next(kernel, hart_id)
}

impl Kernel {
    /// `self` is the state after the kernel thread that ran on core
    /// `hart_id` in `before` has exited with `exit_code`, and `switch` the
    /// switch that follows. The core runs nothing. A thread that did not
    /// lead its group is a zombie with that exit code, and the switch
    /// saves its registers. The leader of a group is gone: its children
    /// have no parent, its parent has lost it, its resources are
    /// released, and the switch saves nothing that will be resumed.
    pub open spec fn kthread_exited(self, before: Kernel, hart_id: usize, exit_code: i32, switch: SwitchRequest) -> bool {
        let pid = before.current(hart_id).unwrap();
        let task = before.task(pid);
        &&& switch.through_idle(hart_id)
        &&& self.same_cores_but(before, hart_id, None)
        &&& self.ready() == before.ready()
        &&& self.initproc == before.initproc
        &&& self.symbols == before.symbols
        &&& self.kernel_tgid_allocator@ == before.kernel_tgid_allocator@
        &&& if task.tgid != pid {
            &&& self.same_resources(before)
            &&& self.pid2tcb.tasks@ == before.pid2tcb.tasks@.update(pid as int, Some(exited(task, exit_code)))
            &&& switch == (SwitchRequest { save: ContextSlot::Task(pid), load: ContextSlot::Idle(hart_id) })
        } else {
            &&& self.after_join(before, pid)
            &&& self.released(before, pid)
            &&& switch == (SwitchRequest { save: ContextSlot::Discard, load: ContextSlot::Idle(hart_id) })
        }
    }

    /// `self` is `before` but that the task `pid` has been asked to stop.
    pub open spec fn stop_requested(self, before: Kernel, pid: usize) -> bool {
        let inner = before.task(pid).inner;
        &&& self.same_resources(before)
        &&& self.processors@ == before.processors@
        &&& self.ready() == before.ready()
        &&& self.pid2tcb.tasks@ == before.tasks_with_inner(
            pid,
            TaskControlBlockInner { flags: inner.flags | KthreadBits::KthreadShouldStop.spec_bits(), ..inner },
        )
    }
}

/// The kernel thread that runs on core `hart_id` exits with `exit_code`. A
/// thread that leads its group is removed with its children cut loose;
/// any other stays in the table of tasks as a zombie. The switch that is
/// returned enters the core's scheduling loop.
pub fn exit_kthread_and_run_next(kernel: &mut Kernel, hart_id: usize, exit_code: i32) -> (switch: SwitchRequest)
    requires
        old(kernel).wf(),
        hart_id < CPU_NUM,
        old(kernel).current(hart_id).is_some(),
        old(kernel).initproc != old(kernel).current(hart_id),
    ensures
        final(kernel).wf(),
        final(kernel).kthread_exited(*old(kernel), hart_id, exit_code, switch),
{
    let ghost before = *old(kernel);
    // change status to zombie and record the exit code
    let pid = kernel.retire_current(hart_id, exit_code);
    let ghost retired = *kernel;
    assert(before.live(pid));
    assert(kernel.live(pid));
    let tgid = kernel.pid2tcb.get(pid).unwrap().tgid;
    // normal kthread exit
    if pid == tgid {
        // clean up children, and leave the table of tasks
        kernel.join_task(pid);
        proof {
            kernel.lemma_join_of_exited(retired, before, pid, exit_code);
        }
        schedule(hart_id, ContextSlot::Discard)
    } else {
        schedule(hart_id, ContextSlot::Task(pid))
    }
}

/// The kernel thread that runs on core `hart_id` exits with `exit_code`.
pub fn do_exit(kernel: &mut Kernel, hart_id: usize, exit_code: i32) -> (switch: SwitchRequest)
    requires
        old(kernel).wf(),
        hart_id < CPU_NUM,
        old(kernel).current(hart_id).is_some(),
        old(kernel).initproc != old(kernel).current(hart_id),
    ensures
        final(kernel).wf(),
        final(kernel).kthread_exited(*old(kernel), hart_id, exit_code, switch),
{
    exit_kthread_and_run_next(kernel, hart_id, exit_code)
}

/// The flags `flags` of a kernel thread hold the request to stop.
pub open spec fn stop_is_requested(flags: usize) -> bool {
    flags & KthreadBits::KthreadShouldStop.spec_bits() != 0
}

/// A request to stop that has been made is seen, whatever the flags held
/// before, and a request to park neither makes nor hides one.
pub proof fn lemma_stop_is_seen(flags: usize)
    ensures
        stop_is_requested(flags | KthreadBits::KthreadShouldStop.spec_bits()),
        stop_is_requested(flags | KthreadBits::KthreadShouldPark.spec_bits()) == stop_is_requested(flags),
        !stop_is_requested(0),
{
    assert((flags | 1usize) & 1usize != 0) by (bit_vector);
    assert(((flags | 2usize) & 1usize != 0) == (flags & 1usize != 0)) by (bit_vector);
    assert(0usize & 1usize == 0) by (bit_vector);
}

/// Whether the kernel thread that runs on core `hart_id` has been asked
/// to stop, whatever else it has been asked. Nothing changes: the thread
/// that finds the request exits of its own accord.
pub fn kthread_should_stop(kernel: &Kernel, hart_id: usize) -> (stop: bool)
    requires
        kernel.wf(),
        hart_id < CPU_NUM,
        kernel.current(hart_id).is_some(),
    ensures
        stop == stop_is_requested(kernel.task(kernel.current(hart_id).unwrap()).inner.flags),
{
    let pid = kernel.processors[hart_id].current().unwrap();
    assert(kernel.live(pid));
    let flags = kernel.pid2tcb.get(pid).unwrap().inner.flags;
    flags & KthreadBits::KthreadShouldStop.bits() != 0
}

/// Asks the kernel thread `pid` to stop: the request stands in the flags
/// of the thread, which sees it when it next looks for it and then exits
/// of its own accord. Nothing else changes, neither for the thread nor
/// for who asks.
pub fn send_kthread_stop(kernel: &mut Kernel, pid: usize)
    requires
        old(kernel).wf(),
        old(kernel).live(pid),
    ensures
        final(kernel).wf(),
        final(kernel).stop_requested(*old(kernel), pid),
{
    let stop = KthreadBits::KthreadShouldStop.bits();
    let task = kernel.pid2tcb.get_mut(pid);
    task.inner.flags = task.inner.flags | stop;
    proof {
        kernel.lemma_signals_changed(*old(kernel), pid);
    }
}

/// Whether the task `pid` has gone. Who waits for its completion asks
/// again until it has.
pub fn wait_for_completion(kernel: &Kernel, pid: usize) -> (completed: bool)
    ensures
        completed == !kernel.live(pid),
{
    kernel.pid2tcb.get(pid).is_none()
}

} // verus!
