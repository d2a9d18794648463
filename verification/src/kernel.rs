//! The kernel's scheduling state as one value: the identifier allocators,
//! the table of tasks, the ready queue, the processors and the address
//! spaces, with the invariant that ties them together.

use vstd::prelude::*;
use crate::config::{KernelSymbols, CPU_NUM, PAGE_SIZE};
use crate::mm::{MapArea, MemorySet};
use crate::task::manager::{PidTable, TaskManager};
use crate::task::pid::{
    kernel_stack_area, kstack_alloc, kstack_in_range, pid_alloc, pid_in_range, KernelStack, PidHandle,
    RecycleAllocator,
};
use crate::task::processor::Processor;
use crate::task::task::{TaskControlBlock, TaskControlBlockInner, TaskStatus};

verus! {

/// Bytes set aside for the trap frames of kernel threads, a page each.
pub const KTHREAD_TRAP_CX_REGION: usize = 0x100000;

/// The trap frame of the kernel thread group `tgid` lies in the region set
/// aside for such frames.
pub open spec fn ktid_in_range(tgid: usize) -> bool {
    (tgid + 1) * PAGE_SIZE <= KTHREAD_TRAP_CX_REGION
}

/// What the threads of one process share: the address space and the table
/// of open files, each file given by its handle.
#[derive(Debug)]
pub struct UserSpace {
    pub memory_set: MemorySet,
    pub fd_table: Vec<Option<usize>>,
}

/// The scheduling state of the kernel.
#[derive(Debug)]
pub struct Kernel {
    pub symbols: KernelSymbols,
    /// Identifiers of tasks; 0 is never handed out.
    pub pid_allocator: RecycleAllocator,
    /// Slots of kernel stacks.
    pub kstack_allocator: RecycleAllocator,
    /// Group identifiers of kernel threads.
    pub kernel_tgid_allocator: RecycleAllocator,
    /// Identifiers of shared user resources.
    pub space_allocator: RecycleAllocator,
    /// The kernel's own address space.
    pub kernel_space: MemorySet,
    /// User resources by identifier.
    pub spaces: Vec<Option<UserSpace>>,
    pub pid2tcb: PidTable,
    pub task_manager: TaskManager,
    /// One processor per core.
    pub processors: Vec<Processor>,
    /// The process that adopts orphans, once it has been made.
    pub initproc: Option<usize>,
}

impl Kernel {
    /// A task with identifier `pid` exists.
    pub open spec fn live(self, pid: usize) -> bool {
        self.pid2tcb.live(pid)
    }

    /// The task with identifier `pid`.
    pub open spec fn task(self, pid: usize) -> TaskControlBlock
        recommends
            self.live(pid),
    {
        self.pid2tcb.task(pid)
    }

    /// The ready queue, the task that is fetched next first.
    pub open spec fn ready(self) -> Seq<usize> {
        self.task_manager@
    }

    /// The task that runs on core `hart_id`.
    pub open spec fn current(self, hart_id: usize) -> Option<usize>
        recommends
            hart_id < CPU_NUM,
    {
        self.processors@[hart_id as int].current
    }

    /// User resources with identifier `space` exist.
    pub open spec fn space_live(self, space: usize) -> bool {
        space < self.spaces@.len() && self.spaces@[space as int].is_some()
    }

    /// The user resources with identifier `space`.
    pub open spec fn space(self, space: usize) -> UserSpace
        recommends
            self.space_live(space),
    {
        self.spaces@[space as int].unwrap()
    }

    /// The identifier `pid` is in the hands of a task: it is 0, which is
    /// set aside for the supervisor of kernel threads and never comes from
    /// the allocator, or the allocator has handed it out.
    pub open spec fn pid_held(self, pid: usize) -> bool {
        pid == 0 || self.pid_allocator@.outstanding(pid)
    }

    /// Every task holds its own identifier and, if it is a user task, its
    /// own kernel stack slot, both within the range that has addresses.
    pub open spec fn wf_ids(self) -> bool {
        &&& self.pid_allocator@.wf()
        &&& self.kstack_allocator@.wf()
        &&& self.kernel_tgid_allocator@.wf()
        &&& self.space_allocator@.wf()
        &&& self.pid_allocator@.start >= 1
        &&& forall|pid: usize| #[trigger]
            self.live(pid) ==> {
                &&& self.task(pid).pid.0 == pid
                &&& self.pid_held(pid)
                &&& pid_in_range(pid)
                &&& match self.task(pid).kernel_stack {
                    Some(kstack) => self.kstack_allocator@.outstanding(kstack.0) && kstack_in_range(kstack.0),
                    None => ktid_in_range(self.task(pid).tgid),
                }
            }
        &&& forall|p: usize, q: usize|
            (#[trigger] self.live(p)) && (#[trigger] self.live(q)) && p != q && self.task(
                p,
            ).kernel_stack.is_some() ==> self.task(p).kernel_stack != self.task(q).kernel_stack
    }

    /// A task waits in the ready queue, once, exactly if it is ready.
    pub open spec fn wf_queue(self) -> bool {
        &&& self.ready().no_duplicates()
        &&& forall|pid: usize| #[trigger]
            self.ready().contains(pid) ==> self.live(pid) && self.task(pid).inner.task_status
                == TaskStatus::Ready
        &&& forall|pid: usize| #[trigger]
            self.live(pid) && self.task(pid).inner.task_status == TaskStatus::Ready
                ==> self.ready().contains(pid)
    }

    /// A task is the task of a core exactly if its status says that it runs
    /// on that core.
    pub open spec fn wf_cores(self) -> bool {
        &&& self.processors@.len() == CPU_NUM
        &&& forall|hart_id: usize|
            hart_id < CPU_NUM && (#[trigger] self.current(hart_id)).is_some() ==> self.live(
                self.current(hart_id).unwrap(),
            ) && self.task(self.current(hart_id).unwrap()).inner.task_status == TaskStatus::Running(
                hart_id,
            )
        &&& forall|pid: usize, hart_id: usize| #[trigger]
            self.live(pid) && self.task(pid).inner.task_status == TaskStatus::Running(hart_id)
                ==> hart_id < CPU_NUM && (#[trigger] self.current(hart_id)) == Some(pid)
    }

    /// Parents and children agree: a task is a child of the task that its
    /// parent link names, once, and of no other; no task is its own parent.
    pub open spec fn wf_tree(self) -> bool {
        &&& forall|pid: usize| #[trigger]
            self.live(pid) ==> {
                &&& self.task(pid).inner.children@.no_duplicates()
                &&& self.task(pid).inner.parent != Some(pid)
                &&& match self.task(pid).inner.parent {
                    Some(parent) => self.live(parent) && self.task(parent).inner.children@.contains(pid),
                    None => true,
                }
            }
        &&& forall|pid: usize, i: int| #[trigger]
            self.live(pid) && 0 <= i < self.task(pid).inner.children@.len() ==> {
                let child = #[trigger] self.task(pid).inner.children@[i];
                self.live(child) && self.task(child).inner.parent == Some(pid)
            }
    }

    /// `rank` orders the tasks so that every task comes after its parent.
    pub open spec fn ranked(self, rank: spec_fn(usize) -> nat) -> bool {
        forall|pid: usize| #[trigger]
            self.live(pid) ==> match self.task(pid).inner.parent {
                Some(parent) => rank(parent) < rank(pid),
                None => true,
            }
    }

    /// The tasks can be ordered so that every task comes after its parent:
    /// no chain of parent links leads back to where it began.
    pub open spec fn wf_forest(self) -> bool {
        exists|rank: spec_fn(usize) -> nat| #[trigger] self.ranked(rank)
    }

    /// The task that is reached from `pid` by `steps` parent links, if the
    /// chain of links is that long.
    pub open spec fn ancestor(self, pid: usize, steps: nat) -> Option<usize>
        decreases steps,
    {
        if steps == 0 {
            Some(pid)
        } else {
            match self.ancestor(pid, (steps - 1) as nat) {
                Some(up) => if self.live(up) {
                    self.task(up).inner.parent
                } else {
                    None
                },
                None => None,
            }
        }
    }

    /// The chain of parent links from a task leads through tasks that
    /// exist, each of an earlier rank, and so never back to the task.
    pub proof fn lemma_no_cycle(self, pid: usize, steps: nat)
        requires
            self.wf(),
            self.live(pid),
        ensures
            match self.ancestor(pid, steps) {
                Some(up) => self.live(up) && (steps > 0 ==> up != pid),
                None => true,
            },
    {
        let rank = choose|rank: spec_fn(usize) -> nat| #[trigger] self.ranked(rank);
        self.lemma_ancestor_rank(rank, pid, steps);
    }

    /// Every parent link of the chain from a task leads to an earlier rank.
    pub proof fn lemma_ancestor_rank(self, rank: spec_fn(usize) -> nat, pid: usize, steps: nat)
        requires
            self.wf_tree(),
            self.ranked(rank),
            self.live(pid),
        ensures
            match self.ancestor(pid, steps) {
                Some(up) => self.live(up) && rank(up) + steps <= rank(pid),
                None => true,
            },
        decreases steps,
    {
        if steps > 0 {
            self.lemma_ancestor_rank(rank, pid, (steps - 1) as nat);
            if let Some(up) = self.ancestor(pid, (steps - 1) as nat) {
                assert(self.live(up));
            }
        }
    }

    /// The init process, once made, exists, leads its group and has no
    /// parent.
    pub open spec fn wf_init(self) -> bool {
        match self.initproc {
            Some(init) => self.live(init) && self.task(init).tgid == init && self.task(init).inner.parent.is_none(),
            None => true,
        }
    }

    /// Every task works in user resources that exist, and user resources
    /// exist only under an identifier that is held.
    pub open spec fn wf_spaces(self) -> bool {
        &&& forall|pid: usize| #[trigger] self.live(pid) ==> self.space_live(self.task(pid).inner.memory_set)
        &&& forall|space: usize| #[trigger]
            self.space_live(space) ==> self.space_allocator@.outstanding(space)
    }

    /// A task has an exit code exactly if it has exited, and the number of
    /// the signal that it handles is that of a signal, or -1.
    pub open spec fn wf_tasks(self) -> bool {
        forall|pid: usize| #[trigger]
            self.live(pid) ==> {
                &&& self.task(pid).inner.signal_wf()
                &&& (self.task(pid).inner.task_status == TaskStatus::Zombie) == self.task(
                    pid,
                ).inner.exit_code.is_some()
            }
    }

    /// The invariant of the scheduling state.
    pub open spec fn wf(self) -> bool {
        &&& self.wf_ids()
        &&& self.wf_queue()
        &&& self.wf_cores()
        &&& self.wf_tree()
        &&& self.wf_forest()
        &&& self.wf_init()
        &&& self.wf_spaces()
        &&& self.wf_tasks()
    }

    /// A kernel without tasks. Identifiers of tasks start at 1, those of
    /// kernel thread groups too; 0 stays with the supervisor of kernel
    /// threads.
    pub fn new(symbols: KernelSymbols) -> (kernel: Kernel)
        ensures
            kernel.wf(),
            kernel.symbols == symbols,
            forall|pid: usize| !kernel.live(pid),
            forall|space: usize| !kernel.space_live(space),
            kernel.ready() == Seq::<usize>::empty(),
            forall|hart_id: usize| hart_id < CPU_NUM ==> kernel.current(hart_id).is_none(),
            kernel.initproc.is_none(),
            kernel.pid_allocator@.start == 1,
            kernel.pid_allocator@.current == 1,
            kernel.pid_allocator@.recycled == Seq::<usize>::empty(),
            kernel.kstack_allocator@.start == 0,
            kernel.kstack_allocator@.current == 0,
            kernel.kstack_allocator@.recycled == Seq::<usize>::empty(),
            kernel.kernel_tgid_allocator@.start == 1,
            kernel.kernel_tgid_allocator@.current == 1,
            kernel.kernel_tgid_allocator@.recycled == Seq::<usize>::empty(),
            kernel.space_allocator@.start == 0,
            kernel.space_allocator@.current == 0,
            kernel.space_allocator@.recycled == Seq::<usize>::empty(),
            kernel.kernel_space.token == symbols.kernel_token,
            kernel.kernel_space.areas@ == Seq::<MapArea>::empty(),
    {
        let mut processors: Vec<Processor> = Vec::new();
        let mut i: usize = 0;
        while i < CPU_NUM
            invariant
                i <= CPU_NUM,
                processors@.len() == i,
                forall|j: int| 0 <= j < i ==> processors@[j].current.is_none(),
            decreases CPU_NUM - i,
        {
            processors.push(Processor::new());
            i += 1;
        }
        let kernel = Kernel {
            symbols,
            pid_allocator: RecycleAllocator::new(1),
            kstack_allocator: RecycleAllocator::new(0),
            kernel_tgid_allocator: RecycleAllocator::new(1),
            space_allocator: RecycleAllocator::new(0),
            kernel_space: MemorySet::new_bare(symbols.kernel_token),
            spaces: Vec::new(),
            pid2tcb: PidTable::new(),
            task_manager: TaskManager::new(),
            processors,
            initproc: None,
        };
        proof {
            assert(kernel.ranked(|pid: usize| 0nat));
        }
        kernel
    }
}

impl Kernel {
    /// Every task of `self` is a task of `before`, with the same
    /// identifier, group and kernel stack.
    pub open spec fn keeps_ids(self, before: Kernel) -> bool {
        forall|pid: usize| #[trigger]
            self.live(pid) ==> {
                &&& before.live(pid)
                &&& self.task(pid).pid == before.task(pid).pid
                &&& self.task(pid).tgid == before.task(pid).tgid
                &&& self.task(pid).kernel_stack == before.task(pid).kernel_stack
            }
    }

    /// Every task of `self` is a task of `before`, in the same user
    /// resources.
    pub open spec fn keeps_spaces(self, before: Kernel) -> bool {
        forall|pid: usize| #[trigger]
            self.live(pid) ==> before.live(pid) && self.task(pid).inner.memory_set == before.task(
                pid,
            ).inner.memory_set
    }

    /// Every task of `self` is a task of `before`, with the same exit code
    /// and the same status, and handles a signal or none.
    pub open spec fn keeps_status(self, before: Kernel) -> bool {
        forall|pid: usize| #[trigger]
            self.live(pid) ==> {
                &&& before.live(pid)
                &&& self.task(pid).inner.task_status == before.task(pid).inner.task_status
                &&& self.task(pid).inner.exit_code == before.task(pid).inner.exit_code
                &&& self.task(pid).inner.signal_wf()
            }
    }

    /// `self` and `before` have the same tasks.
    pub open spec fn same_domain(self, before: Kernel) -> bool {
        forall|pid: usize| #[trigger] self.live(pid) == before.live(pid)
    }

    /// `self` and `before` have the same tasks, with the same parents and
    /// children, and the same init process.
    pub open spec fn keeps_links(self, before: Kernel) -> bool {
        &&& self.initproc == before.initproc
        &&& self.same_domain(before)
        &&& forall|pid: usize| #[trigger]
            self.live(pid) ==> {
                &&& self.task(pid).inner.parent == before.task(pid).inner.parent
                &&& self.task(pid).inner.children@ == before.task(pid).inner.children@
            }
    }

    /// `self` has the allocators of `before`.
    pub open spec fn same_allocators(self, before: Kernel) -> bool {
        &&& self.pid_allocator@ == before.pid_allocator@
        &&& self.kstack_allocator@ == before.kstack_allocator@
        &&& self.kernel_tgid_allocator@ == before.kernel_tgid_allocator@
        &&& self.space_allocator@ == before.space_allocator@
    }

    /// Tasks that keep their identifiers under the same allocators keep
    /// that part of the invariant. Tasks may have gone.
    pub proof fn lemma_keeps_ids(self, before: Kernel)
        requires
            before.wf_ids(),
            self.same_allocators(before) || self.ids_extend(before),
            self.keeps_ids(before),
        ensures
            self.wf_ids(),
    {
        assert forall|p: usize, q: usize|
            (#[trigger] self.live(p)) && (#[trigger] self.live(q)) && p != q && self.task(
                p,
            ).kernel_stack.is_some() implies self.task(p).kernel_stack != self.task(q).kernel_stack by {
            assert(before.live(p) && before.live(q));
        }
    }

    /// Tasks that stay in their user resources, which stay, keep that part
    /// of the invariant. Tasks may have gone.
    pub proof fn lemma_keeps_spaces(self, before: Kernel)
        requires
            before.wf_spaces(),
            self.space_allocator@ == before.space_allocator@,
            forall|space: usize| #[trigger] self.space_live(space) == before.space_live(space),
            self.keeps_spaces(before),
        ensures
            self.wf_spaces(),
    {
        assert forall|pid: usize| #[trigger] self.live(pid) implies self.space_live(
            self.task(pid).inner.memory_set,
        ) by {
            assert(before.live(pid));
            assert(before.space_live(before.task(pid).inner.memory_set));
        }
        assert forall|space: usize| #[trigger] self.space_live(space) implies self.space_allocator@.outstanding(
            space,
        ) by {
            assert(before.space_live(space));
        }
    }

    /// Tasks that keep their status keep that part of the invariant. Tasks
    /// may have gone.
    pub proof fn lemma_keeps_status(self, before: Kernel)
        requires
            before.wf_tasks(),
            self.keeps_status(before),
        ensures
            self.wf_tasks(),
    {
    }

    /// The same tasks with the same links keep that part of the invariant.
    pub proof fn lemma_keeps_links(self, before: Kernel)
        requires
            before.wf_tree(),
            before.wf_forest(),
            before.wf_init(),
            self.keeps_links(before),
            self.keeps_ids(before),
        ensures
            self.wf_tree(),
            self.wf_forest(),
            self.wf_init(),
    {
        let rank = choose|rank: spec_fn(usize) -> nat| #[trigger] before.ranked(rank);
        assert(self.ranked(rank)) by {
            assert forall|pid: usize| #[trigger] self.live(pid) implies match self.task(pid).inner.parent {
                Some(parent) => rank(parent) < rank(pid),
                None => true,
            } by {
                assert(before.live(pid));
            }
        }
        assert forall|pid: usize| #[trigger] self.live(pid) implies {
            &&& self.task(pid).inner.children@.no_duplicates()
            &&& self.task(pid).inner.parent != Some(pid)
            &&& match self.task(pid).inner.parent {
                Some(parent) => self.live(parent) && self.task(parent).inner.children@.contains(pid),
                None => true,
            }
        } by {
            assert(before.live(pid));
            if let Some(parent) = self.task(pid).inner.parent {
                assert(before.live(parent));
                assert(self.live(parent));
            }
        }
        assert forall|pid: usize, i: int| #[trigger]
            self.live(pid) && 0 <= i < self.task(pid).inner.children@.len() implies {
            let child = #[trigger] self.task(pid).inner.children@[i];
            self.live(child) && self.task(child).inner.parent == Some(pid)
        } by {
            assert(before.live(pid));
            let child = before.task(pid).inner.children@[i];
            assert(before.live(child));
            assert(self.live(child));
        }
        if let Some(init) = self.initproc {
            assert(before.live(init));
            assert(self.live(init));
        }
    }

    /// The same tasks with the same status, the same queue and the same
    /// tasks on the cores keep those parts of the invariant.
    pub proof fn lemma_keeps_schedule(self, before: Kernel)
        requires
            before.wf_queue(),
            before.wf_cores(),
            self.same_domain(before),
            self.keeps_status(before),
            self.ready() == before.ready(),
            self.processors@.len() == before.processors@.len(),
            forall|hart_id: usize| hart_id < CPU_NUM ==> #[trigger] self.current(hart_id) == before.current(hart_id),
        ensures
            self.wf_queue(),
            self.wf_cores(),
    {
        assert forall|pid: usize| #[trigger] self.ready().contains(pid) implies self.live(pid) && self.task(
            pid,
        ).inner.task_status == TaskStatus::Ready by {
            assert(before.ready().contains(pid));
            assert(before.live(pid));
        }
        assert forall|pid: usize| #[trigger]
            self.live(pid) && self.task(pid).inner.task_status == TaskStatus::Ready implies self.ready().contains(
            pid,
        ) by {
            assert(before.live(pid));
        }
        assert forall|hart_id: usize| hart_id < CPU_NUM && (#[trigger] self.current(hart_id)).is_some() implies self.live(
            self.current(hart_id).unwrap(),
        ) && self.task(self.current(hart_id).unwrap()).inner.task_status == TaskStatus::Running(hart_id) by {
            assert(before.current(hart_id).is_some());
            let pid = before.current(hart_id).unwrap();
            assert(before.live(pid));
            assert(self.live(pid));
        }
        assert forall|pid: usize, hart_id: usize| #[trigger]
            self.live(pid) && self.task(pid).inner.task_status == TaskStatus::Running(hart_id) implies hart_id
            < CPU_NUM && (#[trigger] self.current(hart_id)) == Some(pid) by {
            assert(before.live(pid));
            assert(before.current(hart_id) == Some(pid));
        }
    }

    /// The same tasks, unchanged, under the same allocators, in the same
    /// queue and on the same cores keep the invariant.
    pub proof fn lemma_unchanged_tasks(self, before: Kernel)
        requires
            before.wf(),
            self.same_allocators(before),
            self.pid2tcb.tasks@ == before.pid2tcb.tasks@,
            self.initproc == before.initproc,
            self.space_allocator@ == before.space_allocator@,
            forall|space: usize| #[trigger] self.space_live(space) == before.space_live(space),
            self.ready() == before.ready(),
            self.processors@.len() == before.processors@.len(),
            forall|hart_id: usize| hart_id < CPU_NUM ==> #[trigger] self.current(hart_id) == before.current(hart_id),
        ensures
            self.wf(),
    {
        self.lemma_keeps_ids(before);
        self.lemma_keeps_spaces(before);
        self.lemma_keeps_status(before);
        self.lemma_keeps_links(before);
        self.lemma_keeps_schedule(before);
    }

    /// `self` is `before` but for the status and the exit code of the task
    /// `pid`, with the ready queue and the processors brought in line.
    pub open spec fn moved_task(self, before: Kernel, pid: usize) -> bool {
        &&& self.same_allocators(before)
        &&& self.symbols == before.symbols
        &&& self.kernel_space == before.kernel_space
        &&& self.spaces@ == before.spaces@
        &&& self.initproc == before.initproc
        &&& self.pid2tcb.tasks@.len() == before.pid2tcb.tasks@.len()
        &&& forall|q: usize|
            q != pid && q < self.pid2tcb.tasks@.len() ==> #[trigger] self.pid2tcb.tasks@[q as int]
                == before.pid2tcb.tasks@[q as int]
        &&& self.live(pid)
        &&& before.live(pid)
        &&& self.task(pid) == (TaskControlBlock {
            inner: TaskControlBlockInner {
                task_status: self.task(pid).inner.task_status,
                exit_code: self.task(pid).inner.exit_code,
                ..before.task(pid).inner
            },
            ..before.task(pid)
        })
        &&& (self.task(pid).inner.task_status == TaskStatus::Zombie) == self.task(pid).inner.exit_code.is_some()
        &&& self.ready().no_duplicates()
        &&& forall|q: usize| #[trigger]
            self.ready().contains(q) == (if q == pid {
                self.task(pid).inner.task_status == TaskStatus::Ready
            } else {
                before.ready().contains(q)
            })
        &&& self.processors@.len() == before.processors@.len()
        &&& forall|hart_id: usize|
            hart_id < CPU_NUM ==> #[trigger] self.current(hart_id) == (if self.task(pid).inner.task_status
                == TaskStatus::Running(hart_id) {
                Some(pid)
            } else if before.current(hart_id) == Some(pid) {
                None
            } else {
                before.current(hart_id)
            })
        &&& forall|hart_id: usize|
            self.task(pid).inner.task_status == TaskStatus::Running(hart_id) ==> hart_id < CPU_NUM && (
            before.current(hart_id).is_none() || before.current(hart_id) == Some(pid))
    }

    /// A change of status of one task, with the ready queue and the
    /// processors brought in line, keeps the invariant.
    pub proof fn lemma_moved_task(self, before: Kernel, pid: usize)
        requires
            before.wf(),
            self.moved_task(before, pid),
        ensures
            self.wf(),
    {
        assert forall|q: usize| #[trigger] self.live(q) == before.live(q) by {
            if q != pid && q < self.pid2tcb.tasks@.len() {
                assert(self.pid2tcb.tasks@[q as int] == before.pid2tcb.tasks@[q as int]);
            }
        }
        assert forall|q: usize| q != pid && #[trigger] self.live(q) implies self.task(q) == before.task(q) by {
            assert(self.pid2tcb.tasks@[q as int] == before.pid2tcb.tasks@[q as int]);
        }
        self.lemma_keeps_ids(before);
        self.lemma_keeps_spaces(before);
        self.lemma_keeps_links(before);
        assert(self.wf_tasks()) by {
            assert forall|q: usize| #[trigger] self.live(q) implies {
                &&& self.task(q).inner.signal_wf()
                &&& (self.task(q).inner.task_status == TaskStatus::Zombie) == self.task(q).inner.exit_code.is_some()
            } by {
                assert(before.live(q));
            }
        }
        assert(self.wf_queue()) by {
            assert forall|q: usize| #[trigger] self.ready().contains(q) implies self.live(q) && self.task(
                q,
            ).inner.task_status == TaskStatus::Ready by {
                if q != pid {
                    assert(before.ready().contains(q));
                    assert(before.live(q));
                }
            }
            assert forall|q: usize| #[trigger]
                self.live(q) && self.task(q).inner.task_status == TaskStatus::Ready implies self.ready().contains(
                q,
            ) by {
                if q != pid {
                    assert(before.live(q));
                    assert(before.ready().contains(q));
                    assert(self.ready().contains(q));
                }
            }
        }
        assert(self.wf_cores()) by {
            assert forall|hart_id: usize|
                hart_id < CPU_NUM && (#[trigger] self.current(hart_id)).is_some() implies self.live(
                self.current(hart_id).unwrap(),
            ) && self.task(self.current(hart_id).unwrap()).inner.task_status == TaskStatus::Running(hart_id) by {
                let q = self.current(hart_id).unwrap();
                if q != pid {
                    assert(before.current(hart_id) == Some(q));
                    assert(before.live(q));
                }
            }
            assert forall|q: usize, hart_id: usize| #[trigger]
                self.live(q) && self.task(q).inner.task_status == TaskStatus::Running(hart_id) implies hart_id
                < CPU_NUM && (#[trigger] self.current(hart_id)) == Some(q) by {
                if q != pid {
                    assert(before.live(q));
                    assert(before.current(hart_id) == Some(q));
                    if self.task(pid).inner.task_status == TaskStatus::Running(hart_id) {
                        assert(false);
                    }
                }
            }
        }
    }
}

impl Kernel {
    /// `task` can join the kernel: it is ready and new, its identifier is
    /// held and names no task yet, its kernel stack is held by no task, its
    /// parent, if it has one, exists, and so do its user resources.
    pub open spec fn admits(self, task: TaskControlBlock) -> bool {
        &&& !self.live(task.pid.0)
        &&& self.pid_held(task.pid.0)
        &&& pid_in_range(task.pid.0)
        &&& match task.kernel_stack {
            Some(kstack) => {
                &&& self.kstack_allocator@.outstanding(kstack.0)
                &&& kstack_in_range(kstack.0)
                &&& forall|other: usize| #[trigger] self.live(other) ==> self.task(other).kernel_stack != Some(kstack)
            },
            None => ktid_in_range(task.tgid),
        }
        &&& task.inner.task_status == TaskStatus::Ready
        &&& task.inner.exit_code.is_none()
        &&& task.inner.children@.len() == 0
        &&& task.inner.signal_wf()
        &&& self.space_live(task.inner.memory_set)
        &&& match task.inner.parent {
            Some(parent) => self.live(parent),
            None => true,
        }
    }

    /// Enters `task` in the table of tasks and in the list of children of
    /// its parent, and puts it at the back of the ready queue.
    pub fn register_task(&mut self, task: TaskControlBlock)
        requires
            old(self).wf(),
            old(self).admits(task),
        ensures
            final(self).wf(),
            final(self).same_allocators(*old(self)),
            final(self).symbols == old(self).symbols,
            final(self).kernel_space == old(self).kernel_space,
            final(self).spaces@ == old(self).spaces@,
            final(self).initproc == old(self).initproc,
            final(self).processors@ == old(self).processors@,
            final(self).ready() == old(self).ready().push(task.pid.0),
            final(self).live(task.pid.0),
            final(self).task(task.pid.0) == task,
            forall|other: usize| other != task.pid.0 ==> #[trigger] final(self).live(other) == old(self).live(other),
            forall|other: usize|
                other != task.pid.0 && task.inner.parent != Some(other) && #[trigger] final(self).live(other)
                    ==> final(self).task(other) == old(self).task(other),
            match task.inner.parent {
                Some(parent) => with_child(final(self).task(parent), old(self).task(parent), task.pid.0),
                None => true,
            },
    {
        let pid = task.pid.0;
        let ghost before = *old(self);
        let ghost joined = task;
        if let Some(parent) = task.inner.parent {
            self.pid2tcb.get_mut(parent).inner.children.push(pid);
        }
        let ghost adopted = *self;
        self.pid2tcb.insert(pid, task);
        self.task_manager.add(pid);
        proof {
            let after = *self;
            assert forall|q: usize| q != pid implies #[trigger] after.live(q) == before.live(q) by {
                assert(adopted.live(q) == before.live(q));
            }
            assert forall|q: usize| q != pid && joined.inner.parent != Some(q) && #[trigger] after.live(q) implies after.task(
                q,
            ) == before.task(q) by {
                assert(adopted.live(q));
                assert(adopted.task(q) == before.task(q));
            }
            if let Some(parent) = joined.inner.parent {
                assert(with_child(adopted.task(parent), before.task(parent), pid));
                assert(after.live(parent));
                assert(after.task(parent) == adopted.task(parent));
                assert(!before.task(parent).inner.children@.contains(pid)) by {
                    if before.task(parent).inner.children@.contains(pid) {
                        let i = choose|i: int|
                            0 <= i < before.task(parent).inner.children@.len() && before.task(
                                parent,
                            ).inner.children@[i] == pid;
                        assert(before.live(before.task(parent).inner.children@[i]));
                    }
                }
                lemma_push_contains(before.task(parent).inner.children@, pid);
            }
            assert(after.live(pid));
            assert(after.task(pid) == joined);
            assert(after.spaces@ == before.spaces@);
            assert(after.ready() == before.ready().push(pid));
            assert forall|q: usize| q != pid && #[trigger] after.live(q) implies after.task(q).same_but_children(
                before.task(q),
            ) by {
                if joined.inner.parent != Some(q) {
                    assert(after.task(q) == before.task(q));
                }
            }
            assert(after.wf_ids()) by {
                assert forall|q: usize| #[trigger] after.live(q) implies {
                    &&& after.task(q).pid.0 == q
                    &&& after.pid_held(q)
                    &&& pid_in_range(q)
                    &&& match after.task(q).kernel_stack {
                        Some(kstack) => after.kstack_allocator@.outstanding(kstack.0) && kstack_in_range(kstack.0),
                        None => ktid_in_range(after.task(q).tgid),
                    }
                } by {
                    if q != pid {
                        assert(before.live(q));
                    }
                }
                assert forall|p: usize, q: usize|
                    (#[trigger] after.live(p)) && (#[trigger] after.live(q)) && p != q && after.task(
                        p,
                    ).kernel_stack.is_some() implies after.task(p).kernel_stack != after.task(q).kernel_stack by {
                    if p != pid {
                        assert(before.live(p));
                    }
                    if q != pid {
                        assert(before.live(q));
                    }
                }
            }
            assert(after.wf_queue()) by {
                lemma_push_contains(before.ready(), pid);
                assert(!before.ready().contains(pid));
                assert forall|q: usize| #[trigger] after.ready().contains(q) implies after.live(q) && after.task(
                    q,
                ).inner.task_status == TaskStatus::Ready by {
                    if q != pid {
                        assert(before.ready().contains(q));
                        assert(before.live(q));
                        assert(after.live(q));
                        assert(after.task(q).same_but_children(before.task(q)));
                    } else {
                        assert(joined.inner.task_status == TaskStatus::Ready);
                    }
                }
                assert forall|q: usize| #[trigger]
                    after.live(q) && after.task(q).inner.task_status == TaskStatus::Ready implies after.ready().contains(
                    q,
                ) by {
                    if q != pid {
                        assert(before.live(q));
                        assert(before.ready().contains(q));
                    }
                }
            }
            assert(after.wf_cores()) by {
                assert forall|hart_id: usize|
                    hart_id < CPU_NUM && (#[trigger] after.current(hart_id)).is_some() implies after.live(
                    after.current(hart_id).unwrap(),
                ) && after.task(after.current(hart_id).unwrap()).inner.task_status == TaskStatus::Running(
                    hart_id,
                ) by {
                    let q = before.current(hart_id).unwrap();
                    assert(before.live(q));
                    assert(after.live(q));
                }
                assert forall|q: usize, hart_id: usize| #[trigger]
                    after.live(q) && after.task(q).inner.task_status == TaskStatus::Running(hart_id) implies hart_id
                    < CPU_NUM && (#[trigger] after.current(hart_id)) == Some(q) by {
                    assert(before.live(q));
                    assert(before.current(hart_id) == Some(q));
                }
            }
            assert(after.wf_tree()) by {
                assert forall|q: usize| #[trigger] after.live(q) implies {
                    &&& after.task(q).inner.children@.no_duplicates()
                    &&& after.task(q).inner.parent != Some(q)
                    &&& match after.task(q).inner.parent {
                        Some(parent) => after.live(parent) && after.task(parent).inner.children@.contains(q),
                        None => true,
                    }
                } by {
                    if q != pid {
                        assert(before.live(q));
                        if let Some(parent) = after.task(q).inner.parent {
                            assert(before.live(parent));
                            assert(after.live(parent));
                        }
                    }
                }
                assert forall|q: usize, i: int| #[trigger]
                    after.live(q) && 0 <= i < after.task(q).inner.children@.len() implies {
                    let child = #[trigger] after.task(q).inner.children@[i];
                    after.live(child) && after.task(child).inner.parent == Some(q)
                } by {
                    assert(before.live(q));
                    let child = after.task(q).inner.children@[i];
                    if child != pid {
                        assert(i < before.task(q).inner.children@.len());
                        assert(before.task(q).inner.children@[i] == child);
                        assert(before.live(child));
                        assert(after.live(child));
                    } else {
                        assert(joined.inner.parent == Some(q)) by {
                            if i < before.task(q).inner.children@.len() {
                                assert(before.live(before.task(q).inner.children@[i]));
                            }
                        }
                    }
                }
            }
            assert(after.wf_forest()) by {
                let rank = choose|rank: spec_fn(usize) -> nat| #[trigger] before.ranked(rank);
                let above: nat = match joined.inner.parent {
                    Some(parent) => rank(parent) + 1,
                    None => 0,
                };
                let ranked = |q: usize|
                    if q == pid {
                        above
                    } else {
                        rank(q)
                    };
                assert(after.ranked(ranked)) by {
                    assert forall|q: usize| #[trigger] after.live(q) implies match after.task(q).inner.parent {
                        Some(parent) => ranked(parent) < ranked(q),
                        None => true,
                    } by {
                        if q != pid {
                            assert(before.live(q));
                            if let Some(parent) = before.task(q).inner.parent {
                                assert(before.live(parent));
                            }
                        }
                    }
                }
            }
            assert(after.wf_init()) by {
                if let Some(init) = after.initproc {
                    assert(before.live(init));
                    assert(after.live(init));
                    assert(after.task(init).same_but_children(before.task(init)));
                }
            }
            assert(after.wf_spaces()) by {
                assert forall|q: usize| #[trigger] after.live(q) implies after.space_live(
                    after.task(q).inner.memory_set,
                ) by {
                    if q != pid {
                        assert(before.live(q));
                        assert(before.space_live(before.task(q).inner.memory_set));
                    } else {
                        assert(before.space_live(joined.inner.memory_set));
                    }
                }
                assert forall|space: usize| #[trigger] after.space_live(space) implies after.space_allocator@.outstanding(
                    space,
                ) by {
                    assert(before.space_live(space));
                }
            }
            assert(after.wf_tasks()) by {
                assert forall|q: usize| #[trigger] after.live(q) implies {
                    &&& after.task(q).inner.signal_wf()
                    &&& (after.task(q).inner.task_status == TaskStatus::Zombie) == after.task(
                        q,
                    ).inner.exit_code.is_some()
                } by {
                    if q != pid {
                        assert(before.live(q));
                    }
                }
            }
        }
    }
}

impl Kernel {
    /// The allocators of `self` are well formed, and those of task
    /// identifiers and kernel stacks hold every identifier that those of
    /// `before` hold.
    pub open spec fn ids_extend(self, before: Kernel) -> bool {
        &&& self.pid_allocator@.wf()
        &&& self.kstack_allocator@.wf()
        &&& self.kernel_tgid_allocator@.wf()
        &&& self.space_allocator@.wf()
        &&& self.pid_allocator@.start == before.pid_allocator@.start
        &&& forall|id: usize| #[trigger]
            before.pid_allocator@.outstanding(id) ==> self.pid_allocator@.outstanding(id)
        &&& forall|id: usize| #[trigger]
            before.kstack_allocator@.outstanding(id) ==> self.kstack_allocator@.outstanding(id)
    }

    /// The allocators of `self` are well formed and hold every identifier
    /// that those of `before` hold.
    pub open spec fn allocators_extend(self, before: Kernel) -> bool {
        &&& self.ids_extend(before)
        &&& forall|id: usize| #[trigger]
            before.space_allocator@.outstanding(id) ==> self.space_allocator@.outstanding(id)
    }

    /// The tasks, the ready queue, the processors and the init process of
    /// `self` are those of `before`.
    pub open spec fn same_schedule(self, before: Kernel) -> bool {
        &&& self.pid2tcb.tasks@ == before.pid2tcb.tasks@
        &&& self.ready() == before.ready()
        &&& self.processors@ == before.processors@
        &&& self.initproc == before.initproc
        &&& self.symbols == before.symbols
    }

    /// Identifiers and user resources that are taken while the tasks stay
    /// as they are keep the invariant.
    pub proof fn lemma_resources_grew(self, before: Kernel)
        requires
            before.wf(),
            self.same_schedule(before),
            self.allocators_extend(before),
            forall|space: usize| #[trigger] before.space_live(space) ==> self.space_live(space),
            forall|space: usize| #[trigger] self.space_live(space) ==> self.space_allocator@.outstanding(space),
        ensures
            self.wf(),
    {
        assert(self.wf_ids()) by {
            assert forall|pid: usize| #[trigger] self.live(pid) implies {
                &&& self.task(pid).pid.0 == pid
                &&& self.pid_held(pid)
                &&& pid_in_range(pid)
                &&& match self.task(pid).kernel_stack {
                    Some(kstack) => self.kstack_allocator@.outstanding(kstack.0) && kstack_in_range(kstack.0),
                    None => ktid_in_range(self.task(pid).tgid),
                }
            } by {
                assert(before.live(pid));
            }
            assert forall|p: usize, q: usize|
                (#[trigger] self.live(p)) && (#[trigger] self.live(q)) && p != q && self.task(
                    p,
                ).kernel_stack.is_some() implies self.task(p).kernel_stack != self.task(q).kernel_stack by {
                assert(before.live(p) && before.live(q));
            }
        }
        assert(self.wf_spaces()) by {
            assert forall|pid: usize| #[trigger] self.live(pid) implies self.space_live(
                self.task(pid).inner.memory_set,
            ) by {
                assert(before.live(pid));
                assert(before.space_live(before.task(pid).inner.memory_set));
            }
        }
        self.lemma_keeps_status(before);
        self.lemma_keeps_links(before);
        self.lemma_keeps_schedule(before);
    }

    /// The identifiers that the next user task gets have addresses.
    pub open spec fn can_admit(self) -> bool {
        &&& self.pid_allocator@.next_id() < usize::MAX
        &&& pid_in_range(self.pid_allocator@.next_id() as usize)
        &&& self.kstack_allocator@.next_id() < usize::MAX
        &&& kstack_in_range(self.kstack_allocator@.next_id() as usize)
    }

    /// Whether the identifiers that the next user task gets have addresses.
    pub fn has_room_for_task(&self) -> (room: bool)
        requires
            self.wf(),
        ensures
            room == self.can_admit(),
    {
        let pid = self.pid_allocator.peek();
        let kstack = self.kstack_allocator.peek();
        pid < usize::MAX && pid <= crate::config::TRAP_CONTEXT_BASE / PAGE_SIZE && pid < (usize::MAX
            - crate::task::pid::USER_STACK_BASE) / (PAGE_SIZE + crate::config::USER_STACK_SIZE)
            && kstack < usize::MAX && kstack <= (crate::config::TRAMPOLINE
            - crate::config::KERNEL_STACK_SIZE) / (crate::config::KERNEL_STACK_SIZE + PAGE_SIZE)
    }

    /// Whether the identifiers that the next user task gets have
    /// addresses, and there is an identifier for user resources of its own.
    pub fn has_room(&self) -> (room: bool)
        requires
            self.wf(),
        ensures
            room == (self.can_admit() && self.space_allocator@.next_id() < usize::MAX),
    {
        self.has_room_for_task() && self.space_allocator.peek() < usize::MAX
    }

    /// Takes the identifier and the kernel stack of a new user task.
    pub fn allocate_ids(&mut self) -> (ids: (PidHandle, KernelStack))
        requires
            old(self).wf(),
            old(self).can_admit(),
        ensures
            final(self).wf(),
            final(self).same_schedule(*old(self)),
            final(self).spaces@ == old(self).spaces@,
            final(self).space_allocator@ == old(self).space_allocator@,
            final(self).kernel_tgid_allocator@ == old(self).kernel_tgid_allocator@,
            final(self).pid_allocator@ == old(self).pid_allocator@.after_alloc(),
            final(self).kstack_allocator@ == old(self).kstack_allocator@.after_alloc(),
            ids.0.0 == old(self).pid_allocator@.next_id(),
            ids.1.0 == old(self).kstack_allocator@.next_id(),
            final(self).kernel_space.token == old(self).kernel_space.token,
            final(self).kernel_space.areas@ == old(self).kernel_space.areas@.push(kernel_stack_area(ids.1.0)),
            !final(self).live(ids.0.0),
            final(self).pid_allocator@.outstanding(ids.0.0),
            pid_in_range(ids.0.0),
            final(self).kstack_allocator@.outstanding(ids.1.0),
            kstack_in_range(ids.1.0),
            forall|other: usize| #[trigger] final(self).live(other) ==> final(self).task(other).kernel_stack != Some(ids.1),
    {
        let pid = pid_alloc(&mut self.pid_allocator);
        let kstack = kstack_alloc(&mut self.kstack_allocator, &mut self.kernel_space);
        proof {
            let before = *old(self);
            assert forall|space: usize| #[trigger] self.space_live(space) implies self.space_allocator@.outstanding(
                space,
            ) by {
                assert(before.space_live(space));
            }
            self.lemma_resources_grew(before);
            if self.live(pid.0) {
                assert(before.live(pid.0));
            }
            assert forall|other: usize| #[trigger] self.live(other) implies self.task(other).kernel_stack != Some(
                kstack,
            ) by {
                assert(before.live(other));
            }
        }
        (pid, kstack)
    }

    /// Enters `space` under a new identifier.
    pub fn add_space(&mut self, space: UserSpace) -> (id: usize)
        requires
            old(self).wf(),
            old(self).space_allocator@.next_id() < usize::MAX,
        ensures
            final(self).wf(),
            final(self).same_schedule(*old(self)),
            final(self).kernel_space == old(self).kernel_space,
            final(self).pid_allocator@ == old(self).pid_allocator@,
            final(self).kstack_allocator@ == old(self).kstack_allocator@,
            final(self).kernel_tgid_allocator@ == old(self).kernel_tgid_allocator@,
            final(self).space_allocator@ == old(self).space_allocator@.after_alloc(),
            id == old(self).space_allocator@.next_id(),
            !old(self).space_live(id),
            final(self).space_live(id),
            final(self).space(id) == space,
            forall|other: usize| other != id ==> #[trigger] final(self).space_live(other) == old(self).space_live(other),
            forall|other: usize|
                other != id && #[trigger] final(self).space_live(other) ==> final(self).space(other) == old(self).space(
                    other,
                ),
    {
        let id = self.space_allocator.allocate();
        put_space(&mut self.spaces, id, space);
        proof {
            let before = *old(self);
            assert forall|other: usize| #[trigger] self.space_live(other) implies self.space_allocator@.outstanding(
                other,
            ) by {
                if other != id {
                    assert(before.space_live(other));
                }
            }
            self.lemma_resources_grew(before);
        }
        id
    }
}

/// Puts `space` into the table `spaces` under `id`.
pub fn put_space(spaces: &mut Vec<Option<UserSpace>>, id: usize, space: UserSpace)
    ensures
        id < final(spaces)@.len(),
        final(spaces)@[id as int] == Some(space),
        final(spaces)@.len() >= old(spaces)@.len(),
        forall|other: int|
            0 <= other < old(spaces)@.len() && other != id ==> #[trigger] final(spaces)@[other] == old(spaces)@[other],
        forall|other: int|
            old(spaces)@.len() <= other < final(spaces)@.len() && other != id ==> (#[trigger] final(spaces)@[other]).is_none(),
{
    while spaces.len() <= id
        invariant
            spaces@.len() >= old(spaces)@.len(),
            forall|other: int| 0 <= other < old(spaces)@.len() ==> #[trigger] spaces@[other] == old(spaces)@[other],
            forall|other: int| old(spaces)@.len() <= other < spaces@.len() ==> (#[trigger] spaces@[other]).is_none(),
        decreases id + 1 - spaces.len(),
    {
        spaces.push(None);
    }
    spaces[id] = Some(space);
}

impl Kernel {
    /// At most one core runs a task at a time, and it is the core that
    /// the status of the task names; and a task waits in the ready queue,
    /// once, exactly if it is ready.
    pub proof fn lemma_exclusive_execution(self, pid: usize, a: usize, b: usize)
        requires
            self.wf(),
            self.live(pid),
            a < CPU_NUM,
            b < CPU_NUM,
        ensures
            self.current(a) == Some(pid) && self.current(b) == Some(pid) ==> a == b,
            self.current(a) == Some(pid) <==> self.task(pid).inner.task_status == TaskStatus::Running(a),
            self.ready().contains(pid) <==> self.task(pid).inner.task_status == TaskStatus::Ready,
            self.ready().no_duplicates(),
            forall|i: int, j: int|
                0 <= i < self.ready().len() && 0 <= j < self.ready().len() && self.ready()[i] == pid
                    && self.ready()[j] == pid ==> i == j,
    {
        if self.current(a) == Some(pid) {
            assert(self.current(a).is_some());
        }
        if self.current(b) == Some(pid) {
            assert(self.current(b).is_some());
        }
    }
}

/// `after` is `before` with `child` as its last child.
pub open spec fn with_child(after: TaskControlBlock, before: TaskControlBlock, child: usize) -> bool {
    &&& after.same_but_children(before)
    &&& after.inner.children@ == before.inner.children@.push(child)
}

/// `after` is `before` without the child `child`.
pub open spec fn without_child(after: TaskControlBlock, before: TaskControlBlock, child: usize) -> bool {
    &&& after.same_but_children(before)
    &&& after.inner.children@ == crate::task::manager::without_first(before.inner.children@, child)
}

/// What a queue holds after an item has joined it at the back.
pub proof fn lemma_push_contains(queue: Seq<usize>, item: usize)
    ensures
        forall|other: usize| #[trigger] queue.push(item).contains(other) == (other == item || queue.contains(other)),
        queue.no_duplicates() && !queue.contains(item) ==> queue.push(item).no_duplicates(),
{
    let pushed = queue.push(item);
    assert forall|other: usize| #[trigger] pushed.contains(other) == (other == item || queue.contains(
        other,
    )) by {
        if other == item {
            assert(pushed[queue.len() as int] == item);
        }
        if queue.contains(other) {
            let i = choose|i: int| 0 <= i < queue.len() && queue[i] == other;
            assert(pushed[i] == other);
        }
        if pushed.contains(other) && other != item {
            let i = choose|i: int| 0 <= i < pushed.len() && pushed[i] == other;
            assert(queue[i] == other);
        }
    }
}

/// What a queue without duplicates holds after the item at `at` has left.
pub proof fn lemma_remove_contains(queue: Seq<usize>, at: int)
    requires
        queue.no_duplicates(),
        0 <= at < queue.len(),
    ensures
        forall|other: usize| #[trigger] queue.remove(at).contains(other) == (other != queue[at] && queue.contains(other)),
        queue.remove(at).no_duplicates(),
{
    let removed = queue.remove(at);
    assert forall|other: usize| #[trigger] removed.contains(other) == (other != queue[at] && queue.contains(
        other,
    )) by {
        if removed.contains(other) {
            let i = choose|i: int| 0 <= i < removed.len() && removed[i] == other;
            if i < at {
                assert(queue[i] == other);
            } else {
                assert(queue[i + 1] == other);
            }
        }
        if other != queue[at] && queue.contains(other) {
            let i = choose|i: int| 0 <= i < queue.len() && queue[i] == other;
            if i < at {
                assert(removed[i] == other);
            } else {
                assert(removed[i - 1] == other);
            }
        }
    }
    assert forall|i: int, j: int| 0 <= i < removed.len() && 0 <= j < removed.len() && i != j implies removed[i]
        != removed[j] by {
        let a = if i < at { i } else { i + 1 };
        let b = if j < at { j } else { j + 1 };
        assert(removed[i] == queue[a]);
        assert(removed[j] == queue[b]);
    }
}

} // verus!
