//! The ready queue: the tasks that wait for a core, first come first
//! served; and the table of tasks by identifier.

use vstd::prelude::*;
use std::collections::VecDeque;
use crate::task::task::TaskControlBlock;

verus! {

/// `VecDeque::rotate_left` of the standard library: the first `n` items go
/// to the back, in their order, so that item `n` comes first. It panics
/// when `n` exceeds the length, which `requires` leaves out.
#[verifier::external_body]
fn rotate_left(queue: &mut VecDeque<usize>, n: usize)
    requires
        n <= old(queue)@.len(),
    ensures
        final(queue)@ == rotated(old(queue)@, n as int),
{
    queue.rotate_left(n);
}

/// `queue` with its first `n` items moved to the back.
pub open spec fn rotated(queue: Seq<usize>, n: int) -> Seq<usize> {
    queue.subrange(n, queue.len() as int) + queue.subrange(0, n)
}

/// The first position from `from` on at which `queue` holds `pid` or
/// `front`, or the length of `queue` if there is none.
pub open spec fn first_stop(queue: Seq<usize>, pid: usize, front: usize, from: int) -> int
    decreases queue.len() - from,
{
    if from < 0 || from >= queue.len() {
        queue.len() as int
    } else if queue[from] == pid || queue[from] == front {
        from
    } else {
        first_stop(queue, pid, front, from + 1)
    }
}

/// The queue after `pid` has been given priority. A queue of less than two
/// tasks, or with `pid` already first, stays as it is. Any other is turned
/// until `pid` comes first, or, where `pid` does not wait, until the task
/// that was first is first again.
pub open spec fn prioritized(queue: Seq<usize>, pid: usize) -> Seq<usize> {
    if queue.len() <= 1 || queue[0] == pid {
        queue
    } else {
        let stop = first_stop(queue, pid, queue[0], 1);
        if stop < queue.len() {
            rotated(queue, stop)
        } else {
            queue
        }
    }
}

/// `queue` without the item at the first position that holds `pid`.
pub open spec fn without_first(queue: Seq<usize>, pid: usize) -> Seq<usize> {
    match queue.index_of_first(pid) {
        Some(at) => queue.remove(at),
        None => queue,
    }
}

/// Where the turning stops: at a position that holds `pid` or `front`,
/// before which, from `from` on, no position does.
pub proof fn lemma_first_stop(queue: Seq<usize>, pid: usize, front: usize, from: int)
    requires
        0 <= from <= queue.len(),
    ensures
        from <= first_stop(queue, pid, front, from) <= queue.len(),
        first_stop(queue, pid, front, from) < queue.len() ==> {
            let stop = first_stop(queue, pid, front, from);
            queue[stop] == pid || queue[stop] == front
        },
        forall|i: int| from <= i < first_stop(queue, pid, front, from) ==> #[trigger] queue[i] != pid
            && queue[i] != front,
    decreases queue.len() - from,
{
    if from < queue.len() && !(queue[from] == pid || queue[from] == front) {
        lemma_first_stop(queue, pid, front, from + 1);
    }
}

/// Turning a queue twice is turning it once by the sum, as long as the sum
/// stays within the queue.
pub proof fn lemma_rotated_twice(queue: Seq<usize>, n: int, m: int)
    requires
        0 <= n,
        0 <= m,
        n + m <= queue.len(),
    ensures
        rotated(rotated(queue, n), m) =~= rotated(queue, n + m),
        rotated(queue, queue.len() as int) =~= queue,
        rotated(queue, 0) =~= queue,
{
}

/// Giving priority to a task that waits, in a queue that holds no task
/// twice, brings it to the front and keeps every task in the queue, each
/// once, in the same cyclic order.
pub proof fn lemma_prioritized_front(queue: Seq<usize>, pid: usize)
    requires
        queue.no_duplicates(),
        queue.contains(pid),
    ensures
        prioritized(queue, pid).len() == queue.len(),
        prioritized(queue, pid)[0] == pid,
        prioritized(queue, pid) == rotated(queue, queue.index_of(pid)),
        prioritized(queue, pid).no_duplicates(),
        forall|other: usize| prioritized(queue, pid).contains(other) == queue.contains(other),
{
    let at = queue.index_of(pid);
    assert(rotated(queue, 0) =~= queue);
    if queue.len() > 1 && queue[0] != pid {
        lemma_first_stop(queue, pid, queue[0], 1);
        let stop = first_stop(queue, pid, queue[0], 1);
        if stop < at {
            assert(queue[stop] != pid);
            assert(queue[stop] == queue[0]);
        } else if stop > at {
            assert(queue[at] == pid);
        }
    }
    let turned = rotated(queue, at);
    assert forall|i: int, j: int| 0 <= i < turned.len() && 0 <= j < turned.len() && i != j implies turned[i]
        != turned[j] by {
        let a = if i < queue.len() - at { i + at } else { i - (queue.len() - at) };
        let b = if j < queue.len() - at { j + at } else { j - (queue.len() - at) };
        assert(turned[i] == queue[a]);
        assert(turned[j] == queue[b]);
    }
    assert forall|other: usize| turned.contains(other) == queue.contains(other) by {
        if turned.contains(other) {
            let i = choose|i: int| 0 <= i < turned.len() && turned[i] == other;
            let a = if i < queue.len() - at { i + at } else { i - (queue.len() - at) };
            assert(queue[a] == other);
        }
        if queue.contains(other) {
            let a = choose|a: int| 0 <= a < queue.len() && queue[a] == other;
            let i = if a >= at { a - at } else { a + (queue.len() - at) };
            assert(turned[i] == other);
        }
    }
}

/// Giving priority to a task that does not wait, in a queue that holds no
/// task twice, changes nothing.
pub proof fn lemma_prioritized_absent(queue: Seq<usize>, pid: usize)
    requires
        queue.no_duplicates(),
        !queue.contains(pid),
    ensures
        prioritized(queue, pid) == queue,
{
    if queue.len() > 1 {
        lemma_first_stop(queue, pid, queue[0], 1);
        let stop = first_stop(queue, pid, queue[0], 1);
        if stop < queue.len() {
            assert(queue.contains(queue[stop]));
            assert(queue[stop] == queue[0]);
        }
    }
}

/// A first-come-first-served queue of the identifiers of ready tasks.
#[derive(Debug)]
pub struct TaskManager {
    pub ready_queue: VecDeque<usize>,
}

impl View for TaskManager {
    type V = Seq<usize>;

    open spec fn view(&self) -> Seq<usize> {
        self.ready_queue@
    }
}

impl TaskManager {
    /// The empty queue.
    pub fn new() -> (manager: Self)
        ensures
            manager@ == Seq::<usize>::empty(),
    {
        Self { ready_queue: VecDeque::new() }
    }

    /// Puts `task` at the back of the queue.
    pub fn add(&mut self, task: usize)
        ensures
            final(self)@ == old(self)@.push(task),
    {
        self.ready_queue.push_back(task);
    }

    /// Takes `task` out of the queue, where it stands first.
    pub fn remove(&mut self, task: usize)
        ensures
            final(self)@ == without_first(old(self)@, task),
    {
        let mut idx: usize = 0;
        while idx < self.ready_queue.len()
            invariant
                idx <= self.ready_queue.len(),
                self.ready_queue@ == old(self).ready_queue@,
                forall|j: int| 0 <= j < idx ==> self.ready_queue@[j] != task,
            decreases self.ready_queue.len() - idx,
        {
            if self.ready_queue[idx] == task {
                proof {
                    let queue = self.ready_queue@;
                    assert(queue.contains(task));
                    queue.index_of_first_ensures(task);
                    let at = queue.index_of_first(task).unwrap();
                    if at < idx {
                        assert(queue[at] != task);
                    }
                    if at > idx {
                        assert(queue[idx as int] == task);
                    }
                }
                self.ready_queue.remove(idx);
                return;
            }
            idx += 1;
        }
        proof {
            let queue = self.ready_queue@;
            queue.index_of_first_ensures(task);
            if queue.contains(task) {
                let j = choose|j: int| 0 <= j < queue.len() && queue[j] == task;
                assert(queue[j] != task);
            }
        }
    }

    /// Takes the task that has waited longest, if any waits.
    pub fn fetch(&mut self) -> (task: Option<usize>)
        ensures
            old(self)@.len() == 0 ==> task.is_none() && final(self)@ == old(self)@,
            old(self)@.len() > 0 ==> task == Some(old(self)@[0]) && final(self)@ == old(
                self,
            )@.subrange(1, old(self)@.len() as int),
    {
        self.ready_queue.pop_front()
    }

    /// Turns the queue so that `pid` is fetched next.
    pub fn prioritize(&mut self, pid: usize)
        ensures
            final(self)@ == prioritized(old(self)@, pid),
    {
        let len = self.ready_queue.len();
        if len == 0 || len == 1 {
            return;
        }
        let front_pid = self.ready_queue[0];
        if front_pid == pid {
            return;
        }
        rotate_left(&mut self.ready_queue, 1);
        let mut turned: usize = 1;
        let ghost start = old(self)@;
        proof {
            lemma_first_stop(start, pid, front_pid, 1);
        }
        loop
            invariant
                start == old(self)@,
                start.len() == len,
                len > 1,
                front_pid == start[0],
                front_pid != pid,
                1 <= turned <= len,
                self.ready_queue@ == rotated(start, turned as int),
                forall|i: int| 1 <= i < turned ==> #[trigger] start[i] != pid && start[i] != front_pid,
            decreases len - turned,
        {
            proof {
                lemma_rotated_twice(start, turned as int, 0);
            }
            let f_pid = self.ready_queue[0];
            assert(f_pid == if turned < len { start[turned as int] } else { start[0] });
            if !(f_pid != pid && f_pid != front_pid) {
                proof {
                    lemma_first_stop(start, pid, front_pid, 1);
                    let stop = first_stop(start, pid, front_pid, 1);
                    if turned < len {
                        if stop < turned {
                            assert(start[stop] != pid && start[stop] != front_pid);
                        }
                        if stop > turned {
                            assert(start[turned as int] != pid && start[turned as int] != front_pid);
                        }
                        assert(stop == turned);
                    } else {
                        if stop < len {
                            assert(start[stop] != pid && start[stop] != front_pid);
                        }
                        assert(rotated(start, len as int) =~= start);
                    }
                }
                return;
            }
            proof {
                lemma_rotated_twice(start, turned as int, 1);
            }
            rotate_left(&mut self.ready_queue, 1);
            turned += 1;
        }
    }

    /// Whether `pid` waits in the queue.
    pub fn contains(&self, pid: usize) -> (found: bool)
        ensures
            found == self@.contains(pid),
    {
        let mut idx: usize = 0;
        while idx < self.ready_queue.len()
            invariant
                idx <= self.ready_queue.len(),
                forall|j: int| 0 <= j < idx ==> self.ready_queue@[j] != pid,
            decreases self.ready_queue.len() - idx,
        {
            if self.ready_queue[idx] == pid {
                return true;
            }
            idx += 1;
        }
        false
    }
}

/// The table of tasks by identifier. A task exists as long as it is in
/// this table.
#[derive(Debug)]
pub struct PidTable {
    pub tasks: Vec<Option<TaskControlBlock>>,
}

impl PidTable {
    /// The table holds a task with identifier `pid`.
    pub open spec fn live(self, pid: usize) -> bool {
        pid < self.tasks@.len() && self.tasks@[pid as int].is_some()
    }

    /// The task with identifier `pid`.
    pub open spec fn task(self, pid: usize) -> TaskControlBlock
        recommends
            self.live(pid),
    {
        self.tasks@[pid as int].unwrap()
    }

    /// The empty table.
    pub fn new() -> (table: PidTable)
        ensures
            forall|pid: usize| !table.live(pid),
    {
        PidTable { tasks: Vec::new() }
    }

    /// The task with identifier `pid`, if there is one.
    pub fn get(&self, pid: usize) -> (task: Option<&TaskControlBlock>)
        ensures
            task.is_some() == self.live(pid),
            self.live(pid) ==> *task.unwrap() == self.task(pid),
    {
        if pid < self.tasks.len() {
            self.tasks[pid].as_ref()
        } else {
            None
        }
    }

    /// Puts `task` into the table under `pid`, in place of the task that
    /// was there, if one was.
    pub fn insert(&mut self, pid: usize, task: TaskControlBlock)
        ensures
            final(self).live(pid),
            final(self).task(pid) == task,
            final(self).tasks@.len() >= old(self).tasks@.len(),
            forall|other: usize| other != pid ==> #[trigger] final(self).live(other) == old(self).live(other),
            forall|other: usize|
                other != pid && #[trigger] final(self).live(other) ==> final(self).task(other) == old(self).task(other),
    {
        while self.tasks.len() <= pid
            invariant
                self.tasks@.len() >= old(self).tasks@.len(),
                forall|other: int|
                    0 <= other < old(self).tasks@.len() ==> #[trigger] self.tasks@[other] == old(self).tasks@[other],
                forall|other: int|
                    old(self).tasks@.len() <= other < self.tasks@.len() ==> (#[trigger] self.tasks@[other]).is_none(),
            decreases pid + 1 - self.tasks.len(),
        {
            self.tasks.push(None);
        }
        self.tasks[pid] = Some(task);
    }

    /// Takes the task with identifier `pid` out of the table.
    pub fn remove(&mut self, pid: usize) -> (task: Option<TaskControlBlock>)
        ensures
            !final(self).live(pid),
            old(self).live(pid) ==> task == Some(old(self).task(pid)),
            !old(self).live(pid) ==> task.is_none(),
            final(self).tasks@.len() == old(self).tasks@.len(),
            forall|other: usize| other != pid ==> #[trigger] final(self).live(other) == old(self).live(other),
            forall|other: usize|
                other != pid && #[trigger] final(self).live(other) ==> final(self).task(other) == old(self).task(other),
    {
        if pid < self.tasks.len() {
            self.tasks[pid].take()
        } else {
            None
        }
    }

    /// The task with identifier `pid`, to be changed in place.
    pub fn get_mut(&mut self, pid: usize) -> (task: &mut TaskControlBlock)
        requires
            old(self).live(pid),
        ensures
            *task == old(self).task(pid),
            final(self).tasks@ == old(self).tasks@.update(pid as int, Some(*final(task))),
    {
        match &mut self.tasks[pid] {
            Some(task) => task,
            None => vstd::pervasive::unreached(),
        }
    }
}

/// The task with identifier `pid`, if it exists.
pub fn pid2task(pid2tcb: &PidTable, pid: usize) -> (task: Option<&TaskControlBlock>)
    ensures
        task.is_some() == pid2tcb.live(pid),
        pid2tcb.live(pid) ==> *task.unwrap() == pid2tcb.task(pid),
{
    pid2tcb.get(pid)
}

/// Takes the task with identifier `pid`, which exists, out of the table.
pub fn remove_from_pid2task(pid2tcb: &mut PidTable, pid: usize) -> (task: TaskControlBlock)
    requires
        old(pid2tcb).live(pid),
    ensures
        task == old(pid2tcb).task(pid),
        !final(pid2tcb).live(pid),
        forall|other: usize| other != pid ==> #[trigger] final(pid2tcb).live(other) == old(pid2tcb).live(other),
        forall|other: usize|
            other != pid && #[trigger] final(pid2tcb).live(other) ==> final(pid2tcb).task(other) == old(pid2tcb).task(
                other,
            ),
{
    pid2tcb.remove(pid).unwrap()
}

/// Enters `task` in the table under `pid`.
pub fn insert_into_pid2task(pid2tcb: &mut PidTable, pid: usize, task: TaskControlBlock)
    ensures
        final(pid2tcb).live(pid),
        final(pid2tcb).task(pid) == task,
        forall|other: usize| other != pid ==> #[trigger] final(pid2tcb).live(other) == old(pid2tcb).live(other),
        forall|other: usize|
            other != pid && #[trigger] final(pid2tcb).live(other) ==> final(pid2tcb).task(other) == old(pid2tcb).task(
                other,
            ),
{
    pid2tcb.insert(pid, task);
}

} // verus!
