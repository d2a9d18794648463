//! How tasks come to be: the first thread of a process from a program, a
//! child by fork, a further thread of a process.

use vstd::prelude::*;
use crate::config::{CPU_NUM, PAGE_SIZE, TRAP_CONTEXT_BASE};
use crate::kernel::{with_child, Kernel, UserSpace};
use crate::mm::{LoadedImage, MapArea, MemorySet, MAP_R, MAP_W};
use crate::task::pid::{kernel_stack_area, trap_cx_bottom_from_pid};
use crate::task::task::TaskControlBlock;
use crate::trap::context::REG_A0;

verus! {

/// Handle of the standard input in a table of open files.
pub const STDIN: usize = 0;

/// Handle of the standard output in a table of open files.
pub const STDOUT: usize = 1;

/// Handle of the standard error output in a table of open files.
pub const STDERR: usize = 2;

/// The table of open files of a new process: input, output and error output.
pub open spec fn standard_files() -> Seq<Option<usize>> {
    seq![Some(STDIN), Some(STDOUT), Some(STDERR)]
}

/// A copy of the table of open files `fd_table`: the same handles at the
/// same places.
pub fn copy_fd_table(fd_table: &Vec<Option<usize>>) -> (copy: Vec<Option<usize>>)
    ensures
        copy@ == fd_table@,
{
    let mut copy: Vec<Option<usize>> = Vec::new();
    let mut i: usize = 0;
    while i < fd_table.len()
        invariant
            i <= fd_table.len(),
            copy@ == fd_table@.subrange(0, i as int),
        decreases fd_table.len() - i,
    {
        copy.push(fd_table[i]);
        proof {
            assert(copy@ =~= fd_table@.subrange(0, i + 1));
        }
        i += 1;
    }
    proof {
        assert(copy@ =~= fd_table@);
    }
    copy
}

/// The region of the trap frame of task `pid`.
pub open spec fn trap_cx_area(pid: usize) -> MapArea {
    MapArea {
        start: (TRAP_CONTEXT_BASE - pid * PAGE_SIZE) as usize,
        end: (TRAP_CONTEXT_BASE - pid * PAGE_SIZE + PAGE_SIZE) as usize,
        perm: MAP_R | MAP_W,
    }
}

impl Kernel {
    /// `self` differs from `before` by one new task, `pid`: it waits at the
    /// back of the ready queue, and every other task is as it was, but
    /// that the parent of the new task has it as its last child.
    pub open spec fn joined_by(self, before: Kernel, pid: usize) -> bool {
        &&& self.live(pid)
        &&& !before.live(pid)
        &&& self.task(pid).pid.0 == pid
        &&& self.ready() == before.ready().push(pid)
        &&& self.processors@ == before.processors@
        &&& self.initproc == before.initproc
        &&& self.symbols == before.symbols
        &&& forall|other: usize| other != pid ==> #[trigger] self.live(other) == before.live(other)
        &&& forall|other: usize|
            other != pid && self.task(pid).inner.parent != Some(other) && #[trigger] self.live(other)
                ==> self.task(other) == before.task(other)
        &&& match self.task(pid).inner.parent {
            Some(parent) => with_child(self.task(parent), before.task(parent), pid),
            None => true,
        }
    }

    /// Makes a process from the program `image`: its main thread gets the
    /// next task identifier and kernel stack, its user resources are the
    /// address space of the image and the three standard files.
    pub fn new_process(&mut self, image: LoadedImage, sstatus: usize) -> (pid: usize)
        requires
            old(self).wf(),
            old(self).can_admit(),
            old(self).space_allocator@.next_id() < usize::MAX,
        ensures
            final(self).wf(),
            pid == old(self).pid_allocator@.next_id(),
            final(self).joined_by(*old(self), pid),
            final(self).pid_allocator@ == old(self).pid_allocator@.after_alloc(),
            final(self).kstack_allocator@ == old(self).kstack_allocator@.after_alloc(),
            final(self).space_allocator@ == old(self).space_allocator@.after_alloc(),
            final(self).kernel_tgid_allocator@ == old(self).kernel_tgid_allocator@,
            final(self).task(pid).is_process(
                pid,
                old(self).kstack_allocator@.next_id() as usize,
                old(self).space_allocator@.next_id() as usize,
                image.entry,
                image.user_sp,
                old(self).symbols,
                sstatus,
            ),
            final(self).space_live(final(self).task(pid).inner.memory_set),
            !old(self).space_live(final(self).task(pid).inner.memory_set),
            final(self).space(final(self).task(pid).inner.memory_set).memory_set == image.memory_set,
            final(self).space(final(self).task(pid).inner.memory_set).fd_table@ == standard_files(),
            forall|other: usize|
                other != final(self).task(pid).inner.memory_set ==> #[trigger] final(self).space_live(other) == old(
                    self,
                ).space_live(other),
            forall|other: usize|
                other != final(self).task(pid).inner.memory_set && #[trigger] final(self).space_live(other)
                    ==> final(self).space(other) == old(self).space(other),
            final(self).kernel_space.token == old(self).kernel_space.token,
            final(self).kernel_space.areas@ == old(self).kernel_space.areas@.push(
                kernel_stack_area(old(self).kstack_allocator@.next_id() as usize),
            ),
    {
        let (pid_handle, kernel_stack) = self.allocate_ids();
        let pid = pid_handle.0;
        let mut fd_table: Vec<Option<usize>> = Vec::new();
        fd_table.push(Some(STDIN));
        fd_table.push(Some(STDOUT));
        fd_table.push(Some(STDERR));
        proof {
            assert(fd_table@ =~= standard_files());
        }
        let user_sp = image.user_sp;
        let entry = image.entry;
        let ghost with_ids = *self;
        let space = self.add_space(UserSpace { memory_set: image.memory_set, fd_table });
        let ghost with_space = *self;
        let symbols = self.symbols;
        let task = TaskControlBlock::new(pid_handle, kernel_stack, space, entry, user_sp, &symbols, sstatus);
        proof {
            assert forall|other: usize| #[trigger] self.live(other) implies self.task(other).kernel_stack != Some(
                kernel_stack,
            ) by {
                assert(with_ids.live(other));
            }
            assert(!self.live(pid)) by {
                assert(!with_ids.live(pid));
            }
            assert(self.admits(task));
        }
        self.register_task(task);
        proof {
            assert forall|other: usize| other != space implies #[trigger] self.space_live(other) == old(
                self,
            ).space_live(other) by {
                assert(with_space.space_live(other) == with_ids.space_live(other));
            }
            assert forall|other: usize| other != space && #[trigger] self.space_live(other) implies self.space(
                other,
            ) == old(self).space(other) by {
                assert(with_space.space_live(other));
            }
        }
        pid
    }

    /// `self` is `before` after a fork of the task that ran on core
    /// `hart_id`: the child `child` has the next identifier and kernel
    /// stack; it works in user resources of its own, under the next
    /// identifier of such, which hold what is mapped for the parent and
    /// the page of the child's trap frame, and the files that are open for
    /// the parent; nothing else has changed but that the child waits in
    /// the ready queue and is the last child of its parent.
    pub open spec fn forked(self, before: Kernel, hart_id: usize, child: usize, child_token: usize) -> bool {
        let parent = before.current(hart_id).unwrap();
        let parent_space = before.task(parent).inner.memory_set;
        let child_space = self.task(child).inner.memory_set;
        &&& child == before.pid_allocator@.next_id()
        &&& self.joined_by(before, child)
        &&& self.pid_allocator@ == before.pid_allocator@.after_alloc()
        &&& self.kstack_allocator@ == before.kstack_allocator@.after_alloc()
        &&& self.space_allocator@ == before.space_allocator@.after_alloc()
        &&& self.kernel_tgid_allocator@ == before.kernel_tgid_allocator@
        &&& self.task(child).is_fork_of(
            before.task(parent),
            child,
            before.kstack_allocator@.next_id() as usize,
            before.space_allocator@.next_id() as usize,
            before.symbols,
        )
        &&& child_space != parent_space
        &&& !before.space_live(child_space)
        &&& self.space_live(child_space)
        &&& self.space(child_space).memory_set.token == child_token
        &&& self.space(child_space).memory_set.areas@ == before.space(parent_space).memory_set.areas@.push(
            trap_cx_area(child),
        )
        &&& self.space(child_space).fd_table@ == before.space(parent_space).fd_table@
        &&& forall|other: usize| other != child_space ==> #[trigger] self.space_live(other) == before.space_live(other)
        &&& forall|other: usize|
            other != child_space && #[trigger] self.space_live(other) ==> self.space(other) == before.space(other)
        &&& self.kernel_space.token == before.kernel_space.token
        &&& self.kernel_space.areas@ == before.kernel_space.areas@.push(
            kernel_stack_area(before.kstack_allocator@.next_id() as usize),
        )
    }

    /// `self` is `before` after the task that ran on core `hart_id` has
    /// created the thread `thread`: it has the next identifier and kernel
    /// stack, and works in the user resources of its creator, in which the
    /// page of its trap frame is mapped now; nothing else has changed but
    /// that the thread waits in the ready queue and is the last child of
    /// its creator.
    pub open spec fn thread_created(
        self,
        before: Kernel,
        hart_id: usize,
        thread: usize,
        entry: usize,
        arg: usize,
        group_pid: usize,
        sstatus: usize,
    ) -> bool {
        let creator = before.current(hart_id).unwrap();
        let shared = before.task(creator).inner.memory_set;
        &&& thread == before.pid_allocator@.next_id()
        &&& self.joined_by(before, thread)
        &&& self.pid_allocator@ == before.pid_allocator@.after_alloc()
        &&& self.kstack_allocator@ == before.kstack_allocator@.after_alloc()
        &&& self.space_allocator@ == before.space_allocator@
        &&& self.kernel_tgid_allocator@ == before.kernel_tgid_allocator@
        &&& self.task(thread).is_thread_of(
            before.task(creator),
            thread,
            before.kstack_allocator@.next_id() as usize,
            entry,
            arg,
            group_pid,
            before.symbols,
            sstatus,
        )
        &&& self.space(shared).memory_set.token == before.space(shared).memory_set.token
        &&& self.space(shared).memory_set.areas@ == before.space(shared).memory_set.areas@.push(
            trap_cx_area(thread),
        )
        &&& self.space(shared).fd_table@ == before.space(shared).fd_table@
        &&& forall|other: usize| #[trigger] self.space_live(other) == before.space_live(other)
        &&& forall|other: usize|
            other != shared && #[trigger] self.space_live(other) ==> self.space(other) == before.space(other)
        &&& self.kernel_space.token == before.kernel_space.token
        &&& self.kernel_space.areas@ == before.kernel_space.areas@.push(
            kernel_stack_area(before.kstack_allocator@.next_id() as usize),
        )
    }

    /// After a fork, parent and child work in different user resources,
    /// which hold the same at the time of the fork but for the page of
    /// the child's trap frame: whatever is put in place of the one leaves
    /// the other as it is.
    pub proof fn lemma_fork_copies(self, before: Kernel, hart_id: usize, child: usize, child_token: usize, changed: UserSpace)
        requires
            before.wf(),
            hart_id < CPU_NUM,
            before.current(hart_id).is_some(),
            self.forked(before, hart_id, child, child_token),
        ensures
            ({
                let parent = before.current(hart_id).unwrap();
                let parent_space = self.task(parent).inner.memory_set;
                let child_space = self.task(child).inner.memory_set;
                &&& parent != child
                &&& parent_space != child_space
                &&& self.space_live(parent_space)
                &&& self.space_live(child_space)
                &&& self.space(parent_space) == before.space(parent_space)
                &&& self.space(child_space).memory_set.areas@.drop_last() == self.space(parent_space).memory_set.areas@
                &&& self.space(child_space).fd_table@ == self.space(parent_space).fd_table@
                &&& self.spaces@.update(child_space as int, Some(changed))[parent_space as int] == self.spaces@[parent_space as int]
                &&& self.spaces@.update(parent_space as int, Some(changed))[child_space as int] == self.spaces@[child_space as int]
            }),
    {
        let parent = before.current(hart_id).unwrap();
        assert(before.live(parent));
        assert(self.live(parent));
        assert(self.task(parent).same_but_children(before.task(parent)));
        let parent_space = before.task(parent).inner.memory_set;
        assert(before.space_live(parent_space));
        assert(self.space_live(parent_space));
        assert(before.space(parent_space).memory_set.areas@.push(trap_cx_area(child)).drop_last()
            == before.space(parent_space).memory_set.areas@);
    }

    /// A thread and its creator work in the same user resources, so that
    /// what one changes in them the other finds changed; but each has a
    /// trap frame of its own: a change of the frame of one leaves the
    /// other task as it is.
    pub proof fn lemma_thread_shares(
        self,
        before: Kernel,
        hart_id: usize,
        thread: usize,
        entry: usize,
        arg: usize,
        group_pid: usize,
        sstatus: usize,
        changed: TaskControlBlock,
    )
        requires
            before.wf(),
            hart_id < CPU_NUM,
            before.current(hart_id).is_some(),
            self.thread_created(before, hart_id, thread, entry, arg, group_pid, sstatus),
        ensures
            ({
                let creator = before.current(hart_id).unwrap();
                &&& creator != thread
                &&& self.live(creator)
                &&& self.live(thread)
                &&& self.task(thread).inner.memory_set == self.task(creator).inner.memory_set
                &&& self.task(creator).inner.trap_cx == before.task(creator).inner.trap_cx
                &&& self.task(thread).inner.trap_cx.sepc == entry
                &&& self.task(thread).inner.trap_cx.x@[REG_A0 as int] == arg
                &&& self.pid2tcb.tasks@.update(thread as int, Some(changed))[creator as int]
                    == self.pid2tcb.tasks@[creator as int]
                &&& self.pid2tcb.tasks@.update(creator as int, Some(changed))[thread as int]
                    == self.pid2tcb.tasks@[thread as int]
            }),
    {
        let creator = before.current(hart_id).unwrap();
        assert(before.live(creator));
        assert(self.live(creator));
        assert(self.task(creator).same_but_children(before.task(creator)));
        broadcast use vstd::array::group_array_axioms;
    }

    /// The creation of a thread leaves every task that works in other
    /// user resources than the creator, and those resources, as they are:
    /// the page of the new trap frame is mapped for the creator's group
    /// alone. So a thread that a forked child creates is nothing to the
    /// parent of the child.
    pub proof fn lemma_thread_leaves_others(
        self,
        before: Kernel,
        hart_id: usize,
        thread: usize,
        entry: usize,
        arg: usize,
        group_pid: usize,
        sstatus: usize,
        other: usize,
    )
        requires
            before.wf(),
            hart_id < CPU_NUM,
            before.current(hart_id).is_some(),
            self.thread_created(before, hart_id, thread, entry, arg, group_pid, sstatus),
            before.live(other),
            before.task(other).inner.memory_set != before.task(before.current(hart_id).unwrap()).inner.memory_set,
        ensures
            self.live(other),
            self.task(other) == before.task(other),
            self.space_live(before.task(other).inner.memory_set),
            self.space(before.task(other).inner.memory_set) == before.space(before.task(other).inner.memory_set),
            self.task(thread).inner.memory_set != before.task(other).inner.memory_set,
    {
        let creator = before.current(hart_id).unwrap();
        assert(before.live(creator));
        assert(other != creator);
        assert(other != thread);
        assert(self.live(other));
        assert(before.space_live(before.task(other).inner.memory_set));
        assert(self.space_live(before.task(other).inner.memory_set));
    }

    /// Forks the task that runs on core `hart_id`: the child is a process
    /// of its own, which works in a copy of the parent's address space,
    /// activated by `child_token`, with a trap frame page of its own, and
    /// in a copy of the parent's table of open files.
    pub fn fork(&mut self, hart_id: usize, child_token: usize) -> (child: usize)
        requires
            old(self).wf(),
            hart_id < CPU_NUM,
            old(self).current(hart_id).is_some(),
            old(self).can_admit(),
            old(self).space_allocator@.next_id() < usize::MAX,
        ensures
            final(self).wf(),
            final(self).forked(*old(self), hart_id, child, child_token),
    {
        let parent_pid = self.processors[hart_id].current().unwrap();
        assert(self.live(parent_pid));
        let (pid_handle, kernel_stack) = self.allocate_ids();
        let pid = pid_handle.0;
        let ghost with_ids = *self;
        assert(self.live(parent_pid));
        let parent_space = self.pid2tcb.get(parent_pid).unwrap().inner.memory_set;
        assert(self.space_live(parent_space));
        let copy = match &self.spaces[parent_space] {
            Some(space) => {
                let mut memory_set = MemorySet::from_existing_user(&space.memory_set, child_token);
                memory_set.insert_framed_area(
                    trap_cx_bottom_from_pid(pid),
                    trap_cx_bottom_from_pid(pid) + PAGE_SIZE,
                    MAP_R | MAP_W,
                );
                UserSpace { memory_set, fd_table: copy_fd_table(&space.fd_table) }
            },
            None => vstd::pervasive::unreached(),
        };
        let space = self.add_space(copy);
        let ghost with_space = *self;
        let symbols = self.symbols;
        assert(self.live(parent_pid));
        let task = self.pid2tcb.get(parent_pid).unwrap().fork(pid_handle, kernel_stack, space, &symbols);
        proof {
            assert forall|other: usize| #[trigger] self.live(other) implies self.task(other).kernel_stack != Some(
                kernel_stack,
            ) by {
                assert(with_ids.live(other));
            }
            assert(!self.live(pid)) by {
                assert(!with_ids.live(pid));
            }
            assert(old(self).task(parent_pid).pid.0 == parent_pid);
            assert(self.admits(task));
        }
        self.register_task(task);
        proof {
            assert forall|other: usize| other != space implies #[trigger] self.space_live(other) == old(
                self,
            ).space_live(other) by {
                assert(with_space.space_live(other) == with_ids.space_live(other));
            }
            assert forall|other: usize| other != space && #[trigger] self.space_live(other) implies self.space(
                other,
            ) == old(self).space(other) by {
                assert(with_space.space_live(other));
            }
        }
        pid
    }

    /// Makes a thread of the task that runs on core `hart_id`: it belongs
    /// to the group `group_pid`, works in the creator's user resources, in
    /// which the page of its trap frame is mapped, and starts at `entry`
    /// with `arg` as its argument.
    pub fn new_user_thread(&mut self, hart_id: usize, entry: usize, arg: usize, group_pid: usize, sstatus: usize) -> (thread:
        usize)
        requires
            old(self).wf(),
            hart_id < CPU_NUM,
            old(self).current(hart_id).is_some(),
            old(self).can_admit(),
        ensures
            final(self).wf(),
            final(self).thread_created(*old(self), hart_id, thread, entry, arg, group_pid, sstatus),
    {
        let creator = self.processors[hart_id].current().unwrap();
        assert(self.live(creator));
        let (pid_handle, kernel_stack) = self.allocate_ids();
        let pid = pid_handle.0;
        let ghost with_ids = *self;
        assert(self.live(creator));
        let shared = self.pid2tcb.get(creator).unwrap().inner.memory_set;
        assert(self.space_live(shared));
        match &mut self.spaces[shared] {
            Some(space) => {
                space.memory_set.insert_framed_area(
                    trap_cx_bottom_from_pid(pid),
                    trap_cx_bottom_from_pid(pid) + PAGE_SIZE,
                    MAP_R | MAP_W,
                );
            },
            None => {},
        }
        let ghost with_page = *self;
        proof {
            assert forall|other: usize| #[trigger] with_page.space_live(other) == with_ids.space_live(other) by {}
            assert forall|other: usize| #[trigger] self.space_live(other) implies self.space_allocator@.outstanding(
                other,
            ) by {
                assert(with_ids.space_live(other));
            }
            self.lemma_resources_grew(with_ids);
        }
        let symbols = self.symbols;
        assert(self.live(creator));
        let task = self.pid2tcb.get(creator).unwrap().new_user_thread(
            pid_handle,
            kernel_stack,
            entry,
            arg,
            group_pid,
            &symbols,
            sstatus,
        );
        proof {
            assert forall|other: usize| #[trigger] self.live(other) implies self.task(other).kernel_stack != Some(
                kernel_stack,
            ) by {
                assert(with_ids.live(other));
            }
            assert(!self.live(pid)) by {
                assert(!with_ids.live(pid));
            }
            assert(old(self).task(creator).pid.0 == creator);
            assert(self.admits(task));
        }
        self.register_task(task);
        proof {
            assert forall|other: usize| #[trigger] self.space_live(other) == old(self).space_live(other) by {
                assert(with_page.space_live(other) == with_ids.space_live(other));
            }
            assert forall|other: usize| other != shared && #[trigger] self.space_live(other) implies self.space(
                other,
            ) == old(self).space(other) by {
                assert(with_page.space_live(other));
            }
        }
        pid
    }
}

} // verus!
