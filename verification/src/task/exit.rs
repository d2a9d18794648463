//! How tasks go: the exit of a task, the adoption of its children, and
//! its removal with the release of what it held.

use vstd::prelude::*;
use crate::config::CPU_NUM;
use crate::kernel::{ktid_in_range, lemma_push_contains, lemma_remove_contains, without_child, Kernel};
use crate::mm::without_area;
use crate::task::manager::without_first;
use crate::task::pid::{kernel_stack_bottom, kstack_dealloc, kstack_in_range, pid_dealloc, pid_in_range};
use crate::task::task::{TaskControlBlock, TaskControlBlockInner, TaskStatus};

verus! {

/// `after` is `before` with the parent link `parent`.
pub open spec fn with_parent(before: TaskControlBlock, parent: Option<usize>) -> TaskControlBlock {
    TaskControlBlock { inner: TaskControlBlockInner { parent, ..before.inner }, ..before }
}

impl Kernel {
    /// `self` differs from `before` in links between tasks only: the same
    /// tasks, each as it was but for its parent and its children, and
    /// everything else as it was.
    pub open spec fn relinked(self, before: Kernel) -> bool {
        &&& self.same_allocators(before)
        &&& self.symbols == before.symbols
        &&& self.kernel_space == before.kernel_space
        &&& self.spaces@ == before.spaces@
        &&& self.initproc == before.initproc
        &&& self.ready() == before.ready()
        &&& self.processors@ == before.processors@
        &&& self.same_domain(before)
        &&& forall|pid: usize| #[trigger]
            self.live(pid) ==> self.task(pid).same_but_children(
                with_parent(before.task(pid), self.task(pid).inner.parent),
            )
    }

    /// A change of links alone keeps every part of the invariant but the
    /// one on the links.
    pub proof fn lemma_relinked(self, before: Kernel)
        requires
            before.wf(),
            self.relinked(before),
        ensures
            self.wf_ids(),
            self.wf_queue(),
            self.wf_cores(),
            self.wf_spaces(),
            self.wf_tasks(),
    {
        assert forall|pid: usize| #[trigger] self.live(pid) implies before.live(pid) by {}
        self.lemma_keeps_ids(before);
        self.lemma_keeps_spaces(before);
        self.lemma_keeps_status(before);
        self.lemma_keeps_schedule(before);
    }

    /// `self` is `before` but that `child`, the first child of `from`, is
    /// the last child of `to`.
    pub open spec fn child_moved(self, before: Kernel, from: usize, to: usize, child: usize) -> bool {
        &&& self.relinked(before)
        &&& before.live(from)
        &&& before.live(to)
        &&& before.task(to).inner.parent.is_none()
        &&& from != to
        &&& child != to
        &&& before.task(from).inner.children@.len() > 0
        &&& child == before.task(from).inner.children@[0]
        &&& self.task(from).inner.children@ == before.task(from).inner.children@.remove(0)
        &&& self.task(from).inner.parent == before.task(from).inner.parent
        &&& self.task(to).inner.children@ == before.task(to).inner.children@.push(child)
        &&& self.task(to).inner.parent == before.task(to).inner.parent
        &&& self.task(child).inner.children@ == before.task(child).inner.children@
        &&& self.task(child).inner.parent == Some(to)
        &&& forall|other: usize|
            other != from && other != to && other != child && #[trigger] self.live(other) ==> self.task(other)
                == before.task(other)
    }

    /// Moving the first child of a task to the end of the children of
    /// another keeps the invariant.
    pub proof fn lemma_child_moved(self, before: Kernel, from: usize, to: usize, child: usize)
        requires
            before.wf(),
            self.child_moved(before, from, to, child),
        ensures
            self.wf(),
    {
        self.lemma_relinked(before);
        let from_children = before.task(from).inner.children@;
        let to_children = before.task(to).inner.children@;
        assert(before.live(child) && before.task(child).inner.parent == Some(from));
        assert(child != from);
        assert(!to_children.contains(child)) by {
            if to_children.contains(child) {
                let i = choose|i: int| 0 <= i < to_children.len() && to_children[i] == child;
                assert(before.task(to).inner.children@[i] == child);
            }
        }
        lemma_remove_contains(from_children, 0);
        lemma_push_contains(to_children, child);
        assert forall|pid: usize| #[trigger] self.live(pid) implies {
            &&& self.task(pid).inner.children@.no_duplicates()
            &&& self.task(pid).inner.parent != Some(pid)
            &&& match self.task(pid).inner.parent {
                Some(parent) => self.live(parent) && self.task(parent).inner.children@.contains(pid),
                None => true,
            }
        } by {
            assert(before.live(pid));
            if pid != child {
                if let Some(parent) = before.task(pid).inner.parent {
                    assert(before.live(parent));
                    assert(self.live(parent));
                    assert(before.task(parent).inner.children@.contains(pid));
                }
            }
        }
        assert forall|pid: usize, i: int| #[trigger]
            self.live(pid) && 0 <= i < self.task(pid).inner.children@.len() implies {
            let kid = #[trigger] self.task(pid).inner.children@[i];
            self.live(kid) && self.task(kid).inner.parent == Some(pid)
        } by {
            assert(before.live(pid));
            let kid = self.task(pid).inner.children@[i];
            if pid == from {
                assert(kid == from_children[i + 1]);
                assert(before.live(from_children[i + 1]));
                assert(kid != child);
            } else if pid == to {
                if i < to_children.len() {
                    assert(kid == to_children[i]);
                    assert(before.live(to_children[i]));
                    assert(to_children.contains(kid));
                }
            } else {
                assert(kid == before.task(pid).inner.children@[i]);
                assert(before.live(kid));
            }
            assert(self.live(kid));
        }
        assert(self.wf_forest()) by {
            let rank = choose|rank: spec_fn(usize) -> nat| #[trigger] before.ranked(rank);
            let base = rank(to);
            let ranked = |q: usize|
                if q == to {
                    base
                } else {
                    rank(q) + base + 1
                };
            assert(self.ranked(ranked)) by {
                assert forall|q: usize| #[trigger] self.live(q) implies match self.task(q).inner.parent {
                    Some(parent) => ranked(parent) < ranked(q),
                    None => true,
                } by {
                    assert(before.live(q));
                }
            }
        }
        assert(self.wf_init()) by {
            if let Some(init) = self.initproc {
                assert(before.live(init));
                assert(self.live(init));
            }
        }
    }

    /// `self` is `before` but that `child`, the last child of `from`, is
    /// no longer its child and has no parent.
    pub open spec fn child_dropped(self, before: Kernel, from: usize, child: usize) -> bool {
        &&& self.relinked(before)
        &&& before.live(from)
        &&& before.task(from).inner.children@.len() > 0
        &&& child == before.task(from).inner.children@.last()
        &&& self.task(from).inner.children@ == before.task(from).inner.children@.drop_last()
        &&& self.task(from).inner.parent == before.task(from).inner.parent
        &&& self.task(child).inner.children@ == before.task(child).inner.children@
        &&& self.task(child).inner.parent.is_none()
        &&& forall|other: usize|
            other != from && other != child && #[trigger] self.live(other) ==> self.task(other) == before.task(
                other,
            )
    }

    /// Dropping the last child of a task keeps the invariant.
    pub proof fn lemma_child_dropped(self, before: Kernel, from: usize, child: usize)
        requires
            before.wf(),
            self.child_dropped(before, from, child),
        ensures
            self.wf(),
    {
        self.lemma_relinked(before);
        let from_children = before.task(from).inner.children@;
        let last = from_children.len() - 1;
        assert(from_children.drop_last() == from_children.remove(last));
        assert(before.live(from_children[last]));
        assert(before.live(child) && before.task(child).inner.parent == Some(from));
        assert(child != from);
        lemma_remove_contains(from_children, last);
        assert forall|pid: usize| #[trigger] self.live(pid) implies {
            &&& self.task(pid).inner.children@.no_duplicates()
            &&& self.task(pid).inner.parent != Some(pid)
            &&& match self.task(pid).inner.parent {
                Some(parent) => self.live(parent) && self.task(parent).inner.children@.contains(pid),
                None => true,
            }
        } by {
            assert(before.live(pid));
            if pid != child {
                if let Some(parent) = before.task(pid).inner.parent {
                    assert(before.live(parent));
                    assert(self.live(parent));
                    assert(before.task(parent).inner.children@.contains(pid));
                }
            }
        }
        assert forall|pid: usize, i: int| #[trigger]
            self.live(pid) && 0 <= i < self.task(pid).inner.children@.len() implies {
            let kid = #[trigger] self.task(pid).inner.children@[i];
            self.live(kid) && self.task(kid).inner.parent == Some(pid)
        } by {
            assert(before.live(pid));
            let kid = self.task(pid).inner.children@[i];
            assert(kid == before.task(pid).inner.children@[i]);
            assert(before.live(kid));
            if pid == from {
                assert(from_children.remove(last).contains(kid));
                assert(kid != child);
            }
            assert(self.live(kid));
        }
        assert(self.wf_forest()) by {
            let rank = choose|rank: spec_fn(usize) -> nat| #[trigger] before.ranked(rank);
            assert(self.ranked(rank)) by {
                assert forall|q: usize| #[trigger] self.live(q) implies match self.task(q).inner.parent {
                    Some(parent) => rank(parent) < rank(q),
                    None => true,
                } by {
                    assert(before.live(q));
                }
            }
        }
        assert(self.wf_init()) by {
            if let Some(init) = self.initproc {
                assert(before.live(init));
                assert(self.live(init));
                if init == child {
                    assert(before.task(init).inner.parent.is_none());
                }
            }
        }
    }
}

impl Kernel {
    /// Hands the children of the task `pid` to the task `to`, in their
    /// order: each becomes a child of `to`, after the children that `to`
    /// has, and names `to` as its parent.
    pub fn reparent_children(&mut self, pid: usize, to: usize)
        requires
            old(self).wf(),
            old(self).live(pid),
            old(self).live(to),
            pid != to,
            old(self).task(to).inner.parent.is_none(),
        ensures
            final(self).wf(),
            final(self).relinked(*old(self)),
            final(self).task(pid).inner.children@.len() == 0,
            final(self).task(pid).inner.parent == old(self).task(pid).inner.parent,
            final(self).task(to).inner.children@ == old(self).task(to).inner.children@ + old(self).task(
                pid,
            ).inner.children@,
            final(self).task(to).inner.parent.is_none(),
            forall|i: int|
                0 <= i < old(self).task(pid).inner.children@.len() ==> final(self).task(
                    #[trigger] old(self).task(pid).inner.children@[i],
                ) == with_parent(old(self).task(old(self).task(pid).inner.children@[i]), Some(to)),
            forall|other: usize|
                other != pid && other != to && !old(self).task(pid).inner.children@.contains(other)
                    && #[trigger] final(self).live(other) ==> final(self).task(other) == old(self).task(other),
    {
        let ghost start = *old(self);
        let ghost orphans = start.task(pid).inner.children@;
        let count = self.pid2tcb.get(pid).unwrap().inner.children.len();
        let mut moved: usize = 0;
        proof {
            assert(orphans.subrange(0, orphans.len() as int) == orphans);
            assert(start.task(to).inner.children@ + orphans.subrange(0, 0) == start.task(to).inner.children@);
            assert forall|pid: usize| #[trigger] self.live(pid) implies self.task(pid).same_but_children(
                with_parent(start.task(pid), self.task(pid).inner.parent),
            ) by {}
        }
        while moved < count
            invariant
                moved <= count,
                count == orphans.len(),
                self.wf(),
                start.wf(),
                self.relinked(start),
                start.live(pid),
                start.live(to),
                pid != to,
                orphans == start.task(pid).inner.children@,
                self.task(pid).inner.children@ == orphans.subrange(moved as int, count as int),
                self.task(pid).inner.parent == start.task(pid).inner.parent,
                self.task(to).inner.children@ == start.task(to).inner.children@ + orphans.subrange(0, moved as int),
                self.task(to).inner.parent.is_none(),
                forall|i: int|
                    0 <= i < moved ==> self.task(#[trigger] orphans[i]) == with_parent(
                        start.task(orphans[i]),
                        Some(to),
                    ),
                forall|other: usize|
                    other != pid && other != to && !orphans.subrange(0, moved as int).contains(other)
                        && #[trigger] self.live(other) ==> self.task(other) == start.task(other),
            decreases count - moved,
        {
            let ghost before = *self;
            assert(self.live(pid));
            let child = self.pid2tcb.get_mut(pid).inner.children.remove(0);
            proof {
                assert(child == orphans[moved as int]);
                assert(before.task(pid).inner.children@[0] == child);
                assert(before.live(before.task(pid).inner.children@[0]));
                assert(before.task(child).inner.parent == Some(pid));
                assert(child != to);
                assert(child != pid);
                assert(self.live(child));
            }
            assert(before.live(to));
            self.pid2tcb.get_mut(child).inner.parent = Some(to);
            assert(self.live(to));
            self.pid2tcb.get_mut(to).inner.children.push(child);
            proof {
                let after = *self;
                assert forall|q: usize| #[trigger] after.live(q) == before.live(q) by {}
                assert forall|q: usize| q != pid && q != to && q != child && #[trigger] after.live(q) implies after.task(
                    q,
                ) == before.task(q) by {}
                assert(after.task(child) == with_parent(before.task(child), Some(to)));
                assert(after.child_moved(before, pid, to, child)) by {
                    assert forall|q: usize| #[trigger] after.live(q) implies after.task(q).same_but_children(
                        with_parent(before.task(q), after.task(q).inner.parent),
                    ) by {
                        if q != pid && q != to && q != child {
                            assert(after.task(q) == before.task(q));
                        }
                    }
                }
                after.lemma_child_moved(before, pid, to, child);
                assert(after.relinked(start)) by {
                    assert forall|q: usize| #[trigger] after.live(q) implies after.task(q).same_but_children(
                        with_parent(start.task(q), after.task(q).inner.parent),
                    ) by {
                        assert(before.live(q));
                    }
                }
                assert(before.task(pid).inner.children@.remove(0) == orphans.subrange(moved + 1, count as int));
                assert(orphans.subrange(0, moved as int).push(child) == orphans.subrange(0, moved + 1));
                assert(after.task(to).inner.children@ == start.task(to).inner.children@ + orphans.subrange(
                    0,
                    moved + 1,
                ));
                assert(!orphans.subrange(0, moved as int).contains(child)) by {
                    if orphans.subrange(0, moved as int).contains(child) {
                        let j = choose|j: int| 0 <= j < moved && orphans.subrange(0, moved as int)[j] == child;
                        assert(orphans[j] == orphans[moved as int]);
                    }
                }
                assert(before.task(child) == start.task(child));
                assert forall|i: int| 0 <= i < moved + 1 implies after.task(#[trigger] orphans[i]) == with_parent(
                    start.task(orphans[i]),
                    Some(to),
                ) by {
                    if i < moved {
                        assert(start.live(orphans[i]));
                        assert(start.task(orphans[i]).inner.parent == Some(pid));
                        assert(orphans[i] != child);
                        assert(orphans[i] != pid);
                        assert(orphans[i] != to);
                        assert(after.live(orphans[i]));
                        assert(after.task(orphans[i]) == before.task(orphans[i]));
                    }
                }
                assert forall|other: usize|
                    other != pid && other != to && !orphans.subrange(0, moved + 1).contains(other)
                        && #[trigger] after.live(other) implies after.task(other) == start.task(other) by {
                    assert(orphans.subrange(0, moved + 1)[moved as int] == child);
                    assert(other != child);
                    if orphans.subrange(0, moved as int).contains(other) {
                        let j = choose|j: int| 0 <= j < moved && orphans.subrange(0, moved as int)[j] == other;
                        assert(orphans.subrange(0, moved + 1)[j] == other);
                    }
                    assert(before.live(other));
                }
            }
            moved += 1;
        }
        proof {
            assert(orphans.subrange(0, count as int) == orphans);
            assert forall|other: usize|
                other != pid && other != to && !orphans.contains(other) && #[trigger] self.live(other) implies self.task(
                other,
            ) == start.task(other) by {}
        }
    }

    /// Cuts the children of the task `pid` loose: `pid` has no child left,
    /// and none of them has a parent.
    pub fn orphan_children(&mut self, pid: usize)
        requires
            old(self).wf(),
            old(self).live(pid),
        ensures
            final(self).wf(),
            final(self).relinked(*old(self)),
            final(self).task(pid).inner.children@.len() == 0,
            final(self).task(pid).inner.parent == old(self).task(pid).inner.parent,
            forall|i: int|
                0 <= i < old(self).task(pid).inner.children@.len() ==> final(self).task(
                    #[trigger] old(self).task(pid).inner.children@[i],
                ) == with_parent(old(self).task(old(self).task(pid).inner.children@[i]), None),
            forall|other: usize|
                other != pid && !old(self).task(pid).inner.children@.contains(other) && #[trigger] final(self).live(
                    other,
                ) ==> final(self).task(other) == old(self).task(other),
    {
        let ghost start = *old(self);
        let ghost orphans = start.task(pid).inner.children@;
        let mut left = self.pid2tcb.get(pid).unwrap().inner.children.len();
        proof {
            assert(orphans.subrange(0, orphans.len() as int) == orphans);
            assert forall|pid: usize| #[trigger] self.live(pid) implies self.task(pid).same_but_children(
                with_parent(start.task(pid), self.task(pid).inner.parent),
            ) by {}
        }
        while left > 0
            invariant
                left <= orphans.len(),
                self.wf(),
                start.wf(),
                self.relinked(start),
                start.live(pid),
                orphans == start.task(pid).inner.children@,
                self.task(pid).inner.children@ == orphans.subrange(0, left as int),
                self.task(pid).inner.parent == start.task(pid).inner.parent,
                forall|i: int|
                    left <= i < orphans.len() ==> self.task(#[trigger] orphans[i]) == with_parent(
                        start.task(orphans[i]),
                        None,
                    ),
                forall|other: usize|
                    other != pid && !orphans.subrange(left as int, orphans.len() as int).contains(other)
                        && #[trigger] self.live(other) ==> self.task(other) == start.task(other),
            decreases left,
        {
            let ghost before = *self;
            assert(self.live(pid));
            let child = self.pid2tcb.get_mut(pid).inner.children.pop().unwrap();
            proof {
                assert(child == orphans[left - 1]);
                assert(before.task(pid).inner.children@[left - 1] == child);
                assert(before.live(before.task(pid).inner.children@[left - 1]));
                assert(before.task(child).inner.parent == Some(pid));
                assert(child != pid);
                assert(self.live(child));
            }
            self.pid2tcb.get_mut(child).inner.parent = None;
            proof {
                let after = *self;
                let len = orphans.len() as int;
                assert forall|q: usize| #[trigger] after.live(q) == before.live(q) by {}
                assert forall|q: usize| q != pid && q != child && #[trigger] after.live(q) implies after.task(q)
                    == before.task(q) by {}
                assert(after.task(child) == with_parent(before.task(child), None));
                assert(after.child_dropped(before, pid, child)) by {
                    assert forall|q: usize| #[trigger] after.live(q) implies after.task(q).same_but_children(
                        with_parent(before.task(q), after.task(q).inner.parent),
                    ) by {
                        if q != pid && q != child {
                            assert(after.task(q) == before.task(q));
                        }
                    }
                }
                after.lemma_child_dropped(before, pid, child);
                assert(after.relinked(start)) by {
                    assert forall|q: usize| #[trigger] after.live(q) implies after.task(q).same_but_children(
                        with_parent(start.task(q), after.task(q).inner.parent),
                    ) by {
                        assert(before.live(q));
                    }
                }
                assert(before.task(pid).inner.children@.drop_last() == orphans.subrange(0, left - 1));
                assert(!orphans.subrange(left as int, len).contains(child)) by {
                    if orphans.subrange(left as int, len).contains(child) {
                        let j = choose|j: int| 0 <= j < len - left && orphans.subrange(left as int, len)[j] == child;
                        assert(orphans[j + left] == orphans[left - 1]);
                    }
                }
                assert(before.task(child) == start.task(child));
                assert forall|i: int| left - 1 <= i < len implies after.task(#[trigger] orphans[i]) == with_parent(
                    start.task(orphans[i]),
                    None,
                ) by {
                    if i >= left {
                        assert(start.live(orphans[i]));
                        assert(start.task(orphans[i]).inner.parent == Some(pid));
                        assert(orphans[i] != child);
                        assert(orphans[i] != pid);
                        assert(after.live(orphans[i]));
                        assert(after.task(orphans[i]) == before.task(orphans[i]));
                    }
                }
                assert forall|other: usize|
                    other != pid && !orphans.subrange(left - 1, len).contains(other) && #[trigger] after.live(
                        other,
                    ) implies after.task(other) == start.task(other) by {
                    assert(orphans.subrange(left - 1, len)[0] == child);
                    assert(other != child);
                    if orphans.subrange(left as int, len).contains(other) {
                        let j = choose|j: int| 0 <= j < len - left && orphans.subrange(left as int, len)[j] == other;
                        assert(orphans.subrange(left - 1, len)[j + 1] == other);
                    }
                    assert(before.live(other));
                }
            }
            left -= 1;
        }
        proof {
            assert(orphans.subrange(0, orphans.len() as int) == orphans);
            assert forall|other: usize|
                other != pid && !orphans.contains(other) && #[trigger] self.live(other) implies self.task(other)
                    == start.task(other) by {}
        }
    }
}

/// Takes `value` out of `list`, where it stands first.
pub fn remove_first(list: &mut Vec<usize>, value: usize)
    ensures
        final(list)@ == without_first(old(list)@, value),
{
    let mut idx: usize = 0;
    while idx < list.len()
        invariant
            idx <= list.len(),
            list@ == old(list)@,
            forall|j: int| 0 <= j < idx ==> list@[j] != value,
        decreases list.len() - idx,
    {
        if list[idx] == value {
            proof {
                let items = list@;
                assert(items.contains(value));
                items.index_of_first_ensures(value);
                let at = items.index_of_first(value).unwrap();
                if at < idx {
                    assert(items[at] != value);
                }
                if at > idx {
                    assert(items[idx as int] == value);
                }
            }
            list.remove(idx);
            return;
        }
        idx += 1;
    }
    proof {
        let items = list@;
        items.index_of_first_ensures(value);
        if items.contains(value) {
            let j = choose|j: int| 0 <= j < items.len() && items[j] == value;
            assert(items[j] != value);
        }
    }
}

/// What a list without duplicates holds once `value` has left it.
pub proof fn lemma_without_first(list: Seq<usize>, value: usize)
    requires
        list.no_duplicates(),
    ensures
        without_first(list, value).no_duplicates(),
        forall|other: usize| #[trigger] without_first(list, value).contains(other) == (other != value && list.contains(other)),
{
    list.index_of_first_ensures(value);
    match list.index_of_first(value) {
        Some(at) => {
            lemma_remove_contains(list, at);
        },
        None => {},
    }
}

impl Kernel {
    /// Some task works in the user resources `space`.
    pub open spec fn space_in_use(self, space: usize) -> bool {
        exists|pid: usize| #[trigger] self.live(pid) && self.task(pid).inner.memory_set == space
    }

    /// The task that runs on core `hart_id` exits with `exit_code`: it
    /// leaves the core and is a zombie.
    pub fn retire_current(&mut self, hart_id: usize, exit_code: i32) -> (pid: usize)
        requires
            old(self).wf(),
            hart_id < CPU_NUM,
            old(self).current(hart_id).is_some(),
        ensures
            final(self).wf(),
            Some(pid) == old(self).current(hart_id),
            final(self).same_resources(*old(self)),
            final(self).same_cores_but(*old(self), hart_id, None),
            final(self).ready() == old(self).ready(),
            final(self).pid2tcb.tasks@ == old(self).pid2tcb.tasks@.update(
                pid as int,
                Some(exited(old(self).task(pid), exit_code)),
            ),
    {
        let pid = self.processors[hart_id].take_current().unwrap();
        assert(old(self).current(hart_id) == Some(pid));
        assert(self.live(pid));
        let task = self.pid2tcb.get_mut(pid);
        // change status to zombie and record the exit code
        task.inner.task_status = TaskStatus::Zombie;
        task.inner.exit_code = Some(exit_code);
        proof {
            let before = *old(self);
            assert(!before.ready().contains(pid));
            self.lemma_moved_task(before, pid);
        }
        pid
    }

    /// Frees the user resources `space` unless a task works in them.
    pub fn release_space_if_unused(&mut self, space: usize)
        requires
            old(self).wf(),
        ensures
            final(self).wf(),
            final(self).same_schedule(*old(self)),
            final(self).kernel_space == old(self).kernel_space,
            final(self).pid_allocator@ == old(self).pid_allocator@,
            final(self).kstack_allocator@ == old(self).kstack_allocator@,
            final(self).kernel_tgid_allocator@ == old(self).kernel_tgid_allocator@,
            forall|other: usize| other != space ==> #[trigger] final(self).space_live(other) == old(self).space_live(other),
            forall|other: usize|
                other != space && #[trigger] final(self).space_live(other) ==> final(self).space(other) == old(
                    self,
                ).space(other),
            final(self).space_live(space) == (old(self).space_live(space) && old(self).space_in_use(space)),
            final(self).space_live(space) ==> final(self).space(space) == old(self).space(space),
            final(self).space_allocator@ == (if old(self).space_live(space) && !old(self).space_in_use(space) {
                old(self).space_allocator@.after_dealloc(space)
            } else {
                old(self).space_allocator@
            }),
    {
        let mut pid: usize = 0;
        let mut used = false;
        while pid < self.pid2tcb.tasks.len() && !used
            invariant
                pid <= self.pid2tcb.tasks@.len(),
                *self == *old(self),
                !used ==> forall|q: usize| q < pid && #[trigger] self.live(q) ==> self.task(q).inner.memory_set != space,
                used ==> self.space_in_use(space),
            decreases self.pid2tcb.tasks@.len() - pid + (if used { 0int } else { 1int }),
        {
            match &self.pid2tcb.tasks[pid] {
                Some(task) => {
                    if task.inner.memory_set == space {
                        assert(self.live(pid));
                        used = true;
                    }
                },
                None => {},
            }
            if !used {
                pid += 1;
            }
        }
        if !used && space < self.spaces.len() {
            if self.spaces[space].is_some() {
                assert(self.space_live(space));
                self.spaces[space] = None;
                self.space_allocator.dealloc(space);
                proof {
                    let before = *old(self);
                    assert(!before.space_in_use(space));
                    assert(self.wf_spaces()) by {
                        assert forall|q: usize| #[trigger] self.live(q) implies self.space_live(
                            self.task(q).inner.memory_set,
                        ) by {
                            assert(before.live(q));
                            assert(before.space_live(before.task(q).inner.memory_set));
                        }
                        assert forall|other: usize| #[trigger] self.space_live(other) implies self.space_allocator@.outstanding(
                            other,
                        ) by {
                            assert(before.space_live(other));
                        }
                    }
                    self.lemma_keeps_ids(before);
                    self.lemma_keeps_status(before);
                    self.lemma_keeps_links(before);
                    self.lemma_keeps_schedule(before);
                }
            }
        }
    }
}

impl Kernel {
    /// Removes the zombie `pid`, which has no child: it leaves the table
    /// of tasks and the children of its parent, its identifier, unless it
    /// is 0, and its kernel stack go back to their allocators, the stack
    /// is unmapped, and its user resources are freed unless another task
    /// works in them.
    pub fn remove_task(&mut self, pid: usize)
        requires
            old(self).wf(),
            old(self).live(pid),
            old(self).task(pid).inner.task_status == TaskStatus::Zombie,
            old(self).task(pid).inner.children@.len() == 0,
            old(self).initproc != Some(pid),
        ensures
            final(self).wf(),
            !final(self).live(pid),
            forall|other: usize| other != pid ==> #[trigger] final(self).live(other) == old(self).live(other),
            forall|other: usize|
                other != pid && old(self).task(pid).inner.parent != Some(other) && #[trigger] final(self).live(other)
                    ==> final(self).task(other) == old(self).task(other),
            match old(self).task(pid).inner.parent {
                Some(parent) => without_child(final(self).task(parent), old(self).task(parent), pid),
                None => true,
            },
            final(self).ready() == old(self).ready(),
            final(self).processors@ == old(self).processors@,
            final(self).initproc == old(self).initproc,
            final(self).symbols == old(self).symbols,
            final(self).kernel_tgid_allocator@ == old(self).kernel_tgid_allocator@,
            final(self).pid_allocator@ == (if pid != 0 {
                old(self).pid_allocator@.after_dealloc(pid)
            } else {
                old(self).pid_allocator@
            }),
            final(self).kernel_space.token == old(self).kernel_space.token,
            match old(self).task(pid).kernel_stack {
                Some(kstack) => {
                    &&& final(self).kstack_allocator@ == old(self).kstack_allocator@.after_dealloc(kstack.0)
                    &&& final(self).kernel_space.areas@ == without_area(
                        old(self).kernel_space.areas@,
                        kernel_stack_bottom(kstack.0) as usize,
                    )
                },
                None => {
                    &&& final(self).kstack_allocator@ == old(self).kstack_allocator@
                    &&& final(self).kernel_space.areas@ == old(self).kernel_space.areas@
                },
            },
            ({
                let space = old(self).task(pid).inner.memory_set;
                &&& final(self).space_live(space) == final(self).space_in_use(space)
                &&& final(self).space_live(space) ==> final(self).space(space) == old(self).space(space)
                &&& final(self).space_allocator@ == (if final(self).space_in_use(space) {
                    old(self).space_allocator@
                } else {
                    old(self).space_allocator@.after_dealloc(space)
                })
                &&& forall|other: usize|
                    other != space ==> #[trigger] final(self).space_live(other) == old(self).space_live(other)
                &&& forall|other: usize|
                    other != space && #[trigger] final(self).space_live(other) ==> final(self).space(other) == old(
                        self,
                    ).space(other)
            }),
    {
        let ghost before = *old(self);
        let parent = self.pid2tcb.get(pid).unwrap().inner.parent;
        if let Some(parent) = parent {
            assert(self.live(parent));
            remove_first(&mut self.pid2tcb.get_mut(parent).inner.children, pid);
        }
        let ghost cut = *self;
        assert(cut.live(pid));
        let task = self.pid2tcb.remove(pid).unwrap();
        let space = task.inner.memory_set;
        let TaskControlBlock { pid: handle, kernel_stack, .. } = task;
        proof {
            assert(before.task(pid).pid.0 == pid);
            assert(parent != Some(pid));
            assert(cut.task(pid) == before.task(pid));
        }
        if pid != 0 {
            pid_dealloc(&mut self.pid_allocator, handle);
        }
        if let Some(kstack) = kernel_stack {
            kstack_dealloc(&mut self.kstack_allocator, &mut self.kernel_space, kstack);
        }
        proof {
            let after = *self;
            assert forall|q: usize| q != pid implies #[trigger] after.live(q) == before.live(q) by {
                assert(cut.live(q) == before.live(q));
            }
            assert forall|q: usize| q != pid && parent != Some(q) && #[trigger] after.live(q) implies after.task(q)
                == before.task(q) by {
                assert(cut.live(q));
            }
            if let Some(p) = parent {
                assert(after.live(p));
                assert(after.task(p) == cut.task(p));
                assert(without_child(after.task(p), before.task(p), pid));
                lemma_without_first(before.task(p).inner.children@, pid);
            }
            assert forall|q: usize| #[trigger] after.live(q) implies after.task(q).same_but_children(
                before.task(q),
            ) && before.live(q) && q != pid by {
                if parent != Some(q) {
                    assert(after.task(q) == before.task(q));
                }
            }
            assert(after.wf_ids()) by {
                assert forall|q: usize| #[trigger] after.live(q) implies {
                    &&& after.task(q).pid.0 == q
                    &&& after.pid_held(q)
                    &&& pid_in_range(q)
                    &&& match after.task(q).kernel_stack {
                        Some(kstack) => after.kstack_allocator@.outstanding(kstack.0) && kstack_in_range(kstack.0),
                        None => ktid_in_range(after.task(q).tgid),
                    }
                } by {
                    assert(before.live(q) && before.live(pid));
                }
                assert forall|p: usize, q: usize|
                    (#[trigger] after.live(p)) && (#[trigger] after.live(q)) && p != q && after.task(
                        p,
                    ).kernel_stack.is_some() implies after.task(p).kernel_stack != after.task(q).kernel_stack by {
                    assert(before.live(p) && before.live(q));
                }
            }
            assert(after.wf_queue()) by {
                assert forall|q: usize| #[trigger] after.ready().contains(q) implies after.live(q) && after.task(
                    q,
                ).inner.task_status == TaskStatus::Ready by {
                    assert(before.ready().contains(q));
                    assert(before.live(q));
                    assert(after.live(q));
                }
                assert forall|q: usize| #[trigger]
                    after.live(q) && after.task(q).inner.task_status == TaskStatus::Ready implies after.ready().contains(
                    q,
                ) by {
                    assert(before.live(q));
                }
            }
            assert(after.wf_cores()) by {
                assert forall|hart_id: usize|
                    hart_id < CPU_NUM && (#[trigger] after.current(hart_id)).is_some() implies after.live(
                    after.current(hart_id).unwrap(),
                ) && after.task(after.current(hart_id).unwrap()).inner.task_status == TaskStatus::Running(
                    hart_id,
                ) by {
                    let q = before.current(hart_id).unwrap();
                    assert(before.live(q));
                    assert(after.live(q));
                }
                assert forall|q: usize, hart_id: usize| #[trigger]
                    after.live(q) && after.task(q).inner.task_status == TaskStatus::Running(hart_id) implies hart_id
                    < CPU_NUM && (#[trigger] after.current(hart_id)) == Some(q) by {
                    assert(before.live(q));
                    assert(before.current(hart_id) == Some(q));
                }
            }
            assert(after.wf_tree()) by {
                assert forall|q: usize| #[trigger] after.live(q) implies {
                    &&& after.task(q).inner.children@.no_duplicates()
                    &&& after.task(q).inner.parent != Some(q)
                    &&& match after.task(q).inner.parent {
                        Some(up) => after.live(up) && after.task(up).inner.children@.contains(q),
                        None => true,
                    }
                } by {
                    assert(before.live(q));
                    if parent != Some(q) {
                        assert(after.task(q) == before.task(q));
                    }
                    if let Some(up) = after.task(q).inner.parent {
                        assert(before.live(up));
                        assert(before.task(up).inner.children@.contains(q));
                        assert(up != pid);
                        assert(after.live(up));
                        if parent != Some(up) {
                            assert(after.task(up) == before.task(up));
                        }
                    }
                }
                assert forall|q: usize, i: int| #[trigger]
                    after.live(q) && 0 <= i < after.task(q).inner.children@.len() implies {
                    let kid = #[trigger] after.task(q).inner.children@[i];
                    after.live(kid) && after.task(kid).inner.parent == Some(q)
                } by {
                    assert(before.live(q));
                    let kid = after.task(q).inner.children@[i];
                    assert(after.task(q).inner.children@.contains(kid));
                    if parent != Some(q) {
                        assert(after.task(q) == before.task(q));
                    }
                    assert(before.task(q).inner.children@.contains(kid));
                    let j = choose|j: int|
                        0 <= j < before.task(q).inner.children@.len() && before.task(q).inner.children@[j] == kid;
                    assert(before.live(before.task(q).inner.children@[j]));
                    assert(kid != pid);
                    assert(after.live(kid));
                }
            }
            assert(after.wf_forest()) by {
                let rank = choose|rank: spec_fn(usize) -> nat| #[trigger] before.ranked(rank);
                assert(after.ranked(rank)) by {
                    assert forall|q: usize| #[trigger] after.live(q) implies match after.task(q).inner.parent {
                        Some(up) => rank(up) < rank(q),
                        None => true,
                    } by {
                        assert(before.live(q));
                    }
                }
            }
            assert(after.wf_init()) by {
                if let Some(init) = after.initproc {
                    assert(before.live(init));
                    assert(after.live(init));
                }
            }
            assert(after.wf_spaces()) by {
                assert forall|q: usize| #[trigger] after.live(q) implies after.space_live(
                    after.task(q).inner.memory_set,
                ) by {
                    assert(before.live(q));
                    assert(before.space_live(before.task(q).inner.memory_set));
                }
                assert forall|other: usize| #[trigger] after.space_live(other) implies after.space_allocator@.outstanding(
                    other,
                ) by {
                    assert(before.space_live(other));
                }
            }
            assert(after.wf_tasks()) by {
                assert forall|q: usize| #[trigger] after.live(q) implies {
                    &&& after.task(q).inner.signal_wf()
                    &&& (after.task(q).inner.task_status == TaskStatus::Zombie) == after.task(
                        q,
                    ).inner.exit_code.is_some()
                } by {
                    assert(before.live(q));
                }
            }
            assert(before.space_live(space));
        }
        let ghost removed = *self;
        self.release_space_if_unused(space);
        proof {
            assert forall|q: usize| #[trigger] self.live(q) == removed.live(q) by {}
            assert(self.space_in_use(space) == removed.space_in_use(space)) by {
                if self.space_in_use(space) {
                    let q = choose|q: usize| #[trigger] self.live(q) && self.task(q).inner.memory_set == space;
                    assert(removed.live(q));
                }
                if removed.space_in_use(space) {
                    let q = choose|q: usize| #[trigger] removed.live(q) && removed.task(q).inner.memory_set == space;
                    assert(self.live(q));
                }
            }
        }
    }
}

impl Kernel {
    /// What `self`, the state after the zombie `pid` of `before` has been
    /// removed with its children cut loose, has made of the tasks: `pid` is
    /// gone;
    /// its children have no parent; its parent has lost it; nothing else
    /// has changed in any task.
    pub open spec fn after_join(self, before: Kernel, pid: usize) -> bool {
        let orphans = before.task(pid).inner.children@;
        &&& !self.live(pid)
        &&& forall|other: usize| other != pid ==> #[trigger] self.live(other) == before.live(other)
        &&& forall|other: usize| #[trigger]
            self.live(other) ==> {
                let was = before.task(other);
                &&& self.task(other).same_but_children(with_parent(was, self.task(other).inner.parent))
                &&& self.task(other).inner.parent == (if orphans.contains(other) {
                    None
                } else {
                    was.inner.parent
                })
                &&& self.task(other).inner.children@ == (if before.task(pid).inner.parent == Some(other) {
                    without_first(was.inner.children@, pid)
                } else {
                    was.inner.children@
                })
                &&& before.task(pid).inner.parent != Some(other) ==> self.task(other) == with_parent(
                    was,
                    self.task(other).inner.parent,
                )
            }
    }

    /// What `self`, the state after the task `pid` of `before` has been
    /// removed, has made of its resources: the identifier, unless it is 0,
    /// and the kernel stack are free again, the stack is unmapped, and the
    /// user resources are freed unless another task works in them.
    pub open spec fn released(self, before: Kernel, pid: usize) -> bool {
        let space = before.task(pid).inner.memory_set;
        &&& self.pid_allocator@ == (if pid != 0 {
            before.pid_allocator@.after_dealloc(pid)
        } else {
            before.pid_allocator@
        })
        &&& self.kernel_space.token == before.kernel_space.token
        &&& match before.task(pid).kernel_stack {
            Some(kstack) => {
                &&& self.kstack_allocator@ == before.kstack_allocator@.after_dealloc(kstack.0)
                &&& self.kernel_space.areas@ == without_area(
                    before.kernel_space.areas@,
                    kernel_stack_bottom(kstack.0) as usize,
                )
            },
            None => {
                &&& self.kstack_allocator@ == before.kstack_allocator@
                &&& self.kernel_space.areas@ == before.kernel_space.areas@
            },
        }
        &&& self.space_live(space) == self.space_in_use(space)
        &&& self.space_live(space) ==> self.space(space) == before.space(space)
        &&& self.space_allocator@ == (if self.space_in_use(space) {
            before.space_allocator@
        } else {
            before.space_allocator@.after_dealloc(space)
        })
        &&& forall|other: usize| other != space ==> #[trigger] self.space_live(other) == before.space_live(other)
        &&& forall|other: usize|
            other != space && #[trigger] self.space_live(other) ==> self.space(other) == before.space(other)
    }

    /// Removes the zombie `pid` for good: its children are cut loose, it
    /// leaves the table of tasks and the children of its parent, and what
    /// it held is released.
    pub fn join_task(&mut self, pid: usize)
        requires
            old(self).wf(),
            old(self).live(pid),
            old(self).task(pid).inner.task_status == TaskStatus::Zombie,
            old(self).initproc != Some(pid),
        ensures
            final(self).wf(),
            final(self).after_join(*old(self), pid),
            final(self).released(*old(self), pid),
            final(self).ready() == old(self).ready(),
            final(self).processors@ == old(self).processors@,
            final(self).initproc == old(self).initproc,
            final(self).symbols == old(self).symbols,
            final(self).kernel_tgid_allocator@ == old(self).kernel_tgid_allocator@,
    {
        let ghost before = *old(self);
        self.orphan_children(pid);
        let ghost orphaned = *self;
        proof {
            assert(orphaned.live(pid));
            assert(orphaned.task(pid).same_but_children(
                with_parent(before.task(pid), orphaned.task(pid).inner.parent),
            ));
        }
        self.remove_task(pid);
        proof {
            let after = *self;
            let orphans = before.task(pid).inner.children@;
            assert forall|other: usize| other != pid implies #[trigger] after.live(other) == before.live(other) by {
                assert(orphaned.live(other) == before.live(other));
            }
            assert forall|other: usize| #[trigger] after.live(other) implies {
                let was = before.task(other);
                &&& after.task(other).same_but_children(with_parent(was, after.task(other).inner.parent))
                &&& after.task(other).inner.parent == (if orphans.contains(other) {
                    None
                } else {
                    was.inner.parent
                })
                &&& after.task(other).inner.children@ == (if before.task(pid).inner.parent == Some(other) {
                    without_first(was.inner.children@, pid)
                } else {
                    was.inner.children@
                })
                &&& before.task(pid).inner.parent != Some(other) ==> after.task(other) == with_parent(
                    was,
                    after.task(other).inner.parent,
                )
            } by {
                assert(other != pid);
                assert(orphaned.live(other));
                assert(before.live(other));
                if orphans.contains(other) {
                    let i = choose|i: int| 0 <= i < orphans.len() && orphans[i] == other;
                    assert(orphaned.task(orphans[i]) == with_parent(before.task(orphans[i]), None));
                } else {
                    assert(orphaned.task(other) == before.task(other));
                }
                if orphaned.task(pid).inner.parent != Some(other) {
                    assert(after.task(other) == orphaned.task(other));
                }
            }
            assert(orphaned.task(pid).inner.memory_set == before.task(pid).inner.memory_set);
            assert(orphaned.task(pid).kernel_stack == before.task(pid).kernel_stack);
        }
    }

    /// The removal of a task that has just exited is the removal of the
    /// task that it was before: the exit changes its status and its exit
    /// code and nothing that the removal goes by.
    pub proof fn lemma_join_of_exited(self, retired: Kernel, before: Kernel, pid: usize, exit_code: i32)
        requires
            before.live(pid),
            retired.same_resources(before),
            retired.pid2tcb.tasks@ == before.pid2tcb.tasks@.update(
                pid as int,
                Some(exited(before.task(pid), exit_code)),
            ),
            self.after_join(retired, pid),
            self.released(retired, pid),
        ensures
            self.after_join(before, pid),
            self.released(before, pid),
    {
        assert(retired.live(pid));
        assert(retired.task(pid) == exited(before.task(pid), exit_code));
        assert forall|other: usize| other != pid implies #[trigger] self.live(other) == before.live(other) by {
            assert(retired.live(other) == before.live(other));
        }
        assert forall|other: usize| #[trigger] self.live(other) implies retired.task(other) == before.task(
            other,
        ) by {
            assert(other != pid);
            assert(retired.live(other));
        }
    }
}

/// `before` as a zombie with exit code `exit_code`.
pub open spec fn exited(before: TaskControlBlock, exit_code: i32) -> TaskControlBlock {
    TaskControlBlock {
        inner: TaskControlBlockInner {
            task_status: TaskStatus::Zombie,
            exit_code: Some(exit_code),
            ..before.inner
        },
        ..before
    }
}

} // verus!
