//! One processor per core: the task that runs on it, and the idle context
//! through which the core passes between any two tasks.

use vstd::prelude::*;
use crate::config::CPU_NUM;
use crate::kernel::{lemma_push_contains, lemma_remove_contains, Kernel};
use crate::task::context::TaskContext;
use crate::task::task::{TaskControlBlock, TaskControlBlockInner, TaskStatus};

verus! {

/// A place in which the registers of a suspended flow of control are kept.
#[derive(Clone, Copy, Debug, PartialEq, Eq, Structural)]
pub enum ContextSlot {
    /// The idle context of the core with this number.
    Idle(usize),
    /// The task context of the task with this identifier.
    Task(usize),
    /// A context that nobody will resume.
    Discard,
}

/// A context switch for the caller to perform: the live registers are
/// saved in `save`, those kept in `load` become live.
#[derive(Clone, Copy, Debug, PartialEq, Eq, Structural)]
pub struct SwitchRequest {
    pub save: ContextSlot,
    pub load: ContextSlot,
}

impl SwitchRequest {
    /// The switch leaves the idle context of core `hart_id` for a task, or
    /// enters it; it never goes from one task to another.
    pub open spec fn through_idle(self, hart_id: usize) -> bool {
        (self.save == ContextSlot::Idle(hart_id) && self.load is Task) || (self.load == ContextSlot::Idle(
            hart_id,
        ) && !(self.save is Idle))
    }
}

/// What a core runs, and where it idles.
#[derive(Debug)]
pub struct Processor {
    /// The task that runs on this core.
    pub current: Option<usize>,
    /// The registers of the core's scheduling loop while a task runs.
    pub idle_task_cx: TaskContext,
}

impl Default for Processor {
    fn default() -> (processor: Self)
        ensures
            processor.current.is_none(),
            processor.idle_task_cx == TaskContext::resuming_at(0, 0),
    {
        Self { current: None, idle_task_cx: TaskContext::zero_init() }
    }
}

impl Processor {
    /// A processor that runs nothing.
    pub fn new() -> (processor: Self)
        ensures
            processor.current.is_none(),
            processor.idle_task_cx == TaskContext::resuming_at(0, 0),
    {
        Self { current: None, idle_task_cx: TaskContext::zero_init() }
    }

    /// The slot in which the registers of the scheduling loop are kept.
    pub fn get_idle_task_cx_ptr(&mut self) -> (idle_task_cx: &mut TaskContext)
        ensures
            *idle_task_cx == old(self).idle_task_cx,
            *final(self) == (Processor { idle_task_cx: *final(idle_task_cx), ..*old(self) }),
    {
        &mut self.idle_task_cx
    }

    /// Makes `task`, which is ready, the task of this core, which has
    /// number `hart_id`, and says which switch enters it. A task that runs
    /// already, that blocks or that has exited cannot be dispatched.
    pub fn run_next(&mut self, hart_id: usize, task: &mut TaskControlBlock) -> (switch: SwitchRequest)
        requires
            old(task).inner.task_status == TaskStatus::Ready,
        ensures
            final(self).current == Some(old(task).pid.0),
            final(self).idle_task_cx == old(self).idle_task_cx,
            *final(task) == (TaskControlBlock {
                inner: crate::task::task::TaskControlBlockInner {
                    task_status: TaskStatus::Running(hart_id),
                    ..old(task).inner
                },
                ..*old(task)
            }),
            switch == (SwitchRequest {
                save: ContextSlot::Idle(hart_id),
                load: ContextSlot::Task(old(task).pid.0),
            }),
    {
        task.inner.task_status = TaskStatus::Running(hart_id);
        self.current = Some(task.pid.0);
        SwitchRequest { save: ContextSlot::Idle(hart_id), load: ContextSlot::Task(task.pid.0) }
    }

    /// Takes the task off this core.
    pub fn take_current(&mut self) -> (task: Option<usize>)
        ensures
            task == old(self).current,
            final(self).current.is_none(),
            final(self).idle_task_cx == old(self).idle_task_cx,
    {
        self.current.take()
    }

    /// Takes the task off this core.
    pub fn take_current_mut(&mut self) -> (task: Option<usize>)
        ensures
            task == old(self).current,
            final(self).current.is_none(),
            final(self).idle_task_cx == old(self).idle_task_cx,
    {
        self.current.take()
    }

    /// The task that runs on this core.
    pub fn current(&self) -> (task: Option<usize>)
        ensures
            task == self.current,
    {
        self.current
    }
}

/// The table `tasks` with the task `pid` in status `status`.
pub open spec fn tasks_with_status(tasks: Seq<Option<TaskControlBlock>>, pid: usize, status: TaskStatus) -> Seq<
    Option<TaskControlBlock>,
> {
    tasks.update(
        pid as int,
        Some(
            TaskControlBlock {
                inner: TaskControlBlockInner { task_status: status, ..tasks[pid as int].unwrap().inner },
                ..tasks[pid as int].unwrap()
            },
        ),
    )
}

impl Kernel {
    /// The ready queue once core `hart_id` is back in its scheduling loop:
    /// the task that it ran has joined the queue at the back.
    pub open spec fn ready_after_suspend(self, hart_id: usize) -> Seq<usize> {
        match self.current(hart_id) {
            Some(pid) => self.ready().push(pid),
            None => self.ready(),
        }
    }

    /// The table of tasks once core `hart_id` is back in its scheduling
    /// loop: the task that it ran is ready.
    pub open spec fn tasks_after_suspend(self, hart_id: usize) -> Seq<Option<TaskControlBlock>> {
        match self.current(hart_id) {
            Some(pid) => tasks_with_status(self.pid2tcb.tasks@, pid, TaskStatus::Ready),
            None => self.pid2tcb.tasks@,
        }
    }

    /// Nothing but the table of tasks, the ready queue and the processors
    /// differs between `self` and `other`.
    pub open spec fn same_resources(self, other: Kernel) -> bool {
        &&& self.symbols == other.symbols
        &&& self.pid_allocator@ == other.pid_allocator@
        &&& self.kstack_allocator@ == other.kstack_allocator@
        &&& self.kernel_tgid_allocator@ == other.kernel_tgid_allocator@
        &&& self.space_allocator@ == other.space_allocator@
        &&& self.kernel_space == other.kernel_space
        &&& self.spaces@ == other.spaces@
        &&& self.initproc == other.initproc
    }

    /// The processors of `self` are those of `other`, but that core
    /// `hart_id` runs `task`.
    pub open spec fn same_cores_but(self, other: Kernel, hart_id: usize, task: Option<usize>) -> bool {
        &&& self.processors@.len() == other.processors@.len()
        &&& forall|h: int|
            0 <= h < self.processors@.len() ==> (#[trigger] self.processors@[h]).idle_task_cx
                == other.processors@[h].idle_task_cx
        &&& forall|h: int|
            0 <= h < self.processors@.len() && h != hart_id ==> (#[trigger] self.processors@[h]).current
                == other.processors@[h].current
        &&& self.current(hart_id) == task
    }
}

impl Processor {
    /// The core `hart_id` is back in its scheduling loop: the task that it
    /// ran, if that has neither blocked nor exited, is ready again and goes
    /// to the back of the ready queue.
    pub fn suspend_current(kernel: &mut Kernel, hart_id: usize)
        requires
            old(kernel).wf(),
            hart_id < CPU_NUM,
        ensures
            final(kernel).wf(),
            final(kernel).same_resources(*old(kernel)),
            final(kernel).same_cores_but(*old(kernel), hart_id, None),
            final(kernel).ready() == old(kernel).ready_after_suspend(hart_id),
            final(kernel).pid2tcb.tasks@ == old(kernel).tasks_after_suspend(hart_id),
    {
        if let Some(pid) = kernel.processors[hart_id].take_current() {
            assert(old(kernel).current(hart_id) == Some(pid));
            assert(kernel.live(pid));
            let task = kernel.pid2tcb.get_mut(pid);
            // the task gives up the core and is ready again
            task.inner.task_status = TaskStatus::Ready;
            // push back to ready queue
            kernel.task_manager.add(pid);
            proof {
                let before = *old(kernel);
                assert(kernel.pid2tcb.tasks@ == tasks_with_status(before.pid2tcb.tasks@, pid, TaskStatus::Ready));
                assert(!before.ready().contains(pid));
                lemma_push_contains(before.ready(), pid);
                kernel.lemma_moved_task(before, pid);
            }
        } else {
            proof {
                kernel.lemma_unchanged_tasks(*old(kernel));
            }
        }
    }

    /// Core `hart_id`, which runs nothing, takes the task that has waited
    /// longest, if any waits: that task runs on the core from now on, and
    /// the switch that is returned enters it.
    pub fn run_next_ready(kernel: &mut Kernel, hart_id: usize) -> (switch: Option<SwitchRequest>)
        requires
            old(kernel).wf(),
            hart_id < CPU_NUM,
            old(kernel).current(hart_id).is_none(),
        ensures
            final(kernel).wf(),
            final(kernel).same_resources(*old(kernel)),
            switch matches Some(entered) ==> entered.through_idle(hart_id),
            old(kernel).ready().len() == 0 ==> {
                &&& switch.is_none()
                &&& final(kernel).same_cores_but(*old(kernel), hart_id, None)
                &&& final(kernel).ready() == old(kernel).ready()
                &&& final(kernel).pid2tcb.tasks@ == old(kernel).pid2tcb.tasks@
            },
            old(kernel).ready().len() > 0 ==> {
                let next = old(kernel).ready()[0];
                &&& switch == Some(SwitchRequest { save: ContextSlot::Idle(hart_id), load: ContextSlot::Task(next) })
                &&& final(kernel).same_cores_but(*old(kernel), hart_id, Some(next))
                &&& final(kernel).ready() == old(kernel).ready().subrange(1, old(kernel).ready().len() as int)
                &&& final(kernel).pid2tcb.tasks@ == tasks_with_status(
                    old(kernel).pid2tcb.tasks@,
                    next,
                    TaskStatus::Running(hart_id),
                )
            },
    {
        if let Some(pid) = kernel.task_manager.fetch() {
            proof {
                assert(old(kernel).ready()[0] == pid);
                assert(old(kernel).ready().contains(pid));
                assert(kernel.live(pid));
            }
            let task = kernel.pid2tcb.get_mut(pid);
            let switch = kernel.processors[hart_id].run_next(hart_id, task);
            proof {
                let before = *old(kernel);
                assert(before.task(pid).pid.0 == pid);
                assert(kernel.pid2tcb.tasks@ == tasks_with_status(
                    before.pid2tcb.tasks@,
                    pid,
                    TaskStatus::Running(hart_id),
                ));
                lemma_remove_contains(before.ready(), 0);
                assert(before.ready().remove(0) == kernel.ready());
                kernel.lemma_moved_task(before, pid);
            }
            Some(switch)
        } else {
            proof {
                kernel.lemma_unchanged_tasks(*old(kernel));
            }
            None
        }
    }

    /// One turn of the scheduling loop of core `hart_id`: the task that
    /// the core ran, if it neither blocked nor exited, goes to the back of
    /// the ready queue; then the task at the front, if there is one, gets
    /// the core, and the switch that is returned enters it.
    pub fn run(kernel: &mut Kernel, hart_id: usize) -> (switch: Option<SwitchRequest>)
        requires
            old(kernel).wf(),
            hart_id < CPU_NUM,
        ensures
            final(kernel).wf(),
            final(kernel).same_resources(*old(kernel)),
            switch matches Some(entered) ==> entered.through_idle(hart_id),
            old(kernel).ready_after_suspend(hart_id).len() == 0 ==> {
                &&& switch.is_none()
                &&& final(kernel).same_cores_but(*old(kernel), hart_id, None)
                &&& final(kernel).ready() == old(kernel).ready()
                &&& final(kernel).pid2tcb.tasks@ == old(kernel).pid2tcb.tasks@
            },
            old(kernel).ready_after_suspend(hart_id).len() > 0 ==> {
                let waiting = old(kernel).ready_after_suspend(hart_id);
                let next = waiting[0];
                &&& switch == Some(SwitchRequest { save: ContextSlot::Idle(hart_id), load: ContextSlot::Task(next) })
                &&& final(kernel).same_cores_but(*old(kernel), hart_id, Some(next))
                &&& final(kernel).ready() == waiting.subrange(1, waiting.len() as int)
                &&& final(kernel).pid2tcb.tasks@ == tasks_with_status(
                    old(kernel).tasks_after_suspend(hart_id),
                    next,
                    TaskStatus::Running(hart_id),
                )
            },
    {
        Processor::suspend_current(kernel, hart_id);
        Processor::run_next_ready(kernel, hart_id)
    }
}

/// Takes the task off core `hart_id`.
pub fn take_current_task(processors: &mut Vec<Processor>, hart_id: usize) -> (task: Option<usize>)
    requires
        hart_id < old(processors)@.len(),
    ensures
        task == old(processors)@[hart_id as int].current,
        final(processors)@ == old(processors)@.update(
            hart_id as int,
            Processor { current: None, ..old(processors)@[hart_id as int] },
        ),
{
    processors[hart_id].take_current()
}

/// The task that runs on core `hart_id`.
pub fn current_task(kernel: &Kernel, hart_id: usize) -> (task: Option<usize>)
    requires
        hart_id < kernel.processors@.len(),
    ensures
        task == kernel.current(hart_id),
{
    kernel.processors[hart_id].current()
}

/// The task of every core, by core number.
pub fn current_tasks(kernel: &Kernel) -> (tasks: Vec<Option<usize>>)
    ensures
        tasks@.len() == kernel.processors@.len(),
        forall|hart_id: int| 0 <= hart_id < tasks@.len() ==> #[trigger] tasks@[hart_id] == kernel.processors@[hart_id].current,
{
    let mut tasks: Vec<Option<usize>> = Vec::new();
    let mut hart_id: usize = 0;
    while hart_id < kernel.processors.len()
        invariant
            hart_id <= kernel.processors@.len(),
            tasks@.len() == hart_id,
            forall|h: int| 0 <= h < hart_id ==> #[trigger] tasks@[h] == kernel.processors@[h].current,
        decreases kernel.processors@.len() - hart_id,
    {
        tasks.push(kernel.processors[hart_id].current());
        hart_id += 1;
    }
    tasks
}

/// The token of the address space of the task that runs on core `hart_id`.
pub fn current_user_token(kernel: &Kernel, hart_id: usize) -> (token: usize)
    requires
        kernel.wf(),
        hart_id < CPU_NUM,
        kernel.current(hart_id).is_some(),
    ensures
        token == kernel.space(kernel.task(kernel.current(hart_id).unwrap()).inner.memory_set).memory_set.token,
{
    let pid = kernel.processors[hart_id].current().unwrap();
    assert(kernel.live(pid));
    let task = kernel.pid2tcb.get(pid).unwrap();
    assert(kernel.space_live(task.inner.memory_set));
    match &kernel.spaces[task.inner.memory_set] {
        Some(space) => space.memory_set.token(),
        None => vstd::pervasive::unreached(),
    }
}

/// The switch that gives up core `hart_id`: the registers of the flow
/// that calls are saved in `switched_task_cx_ptr`, and the core's
/// scheduling loop goes on.
pub fn schedule(hart_id: usize, switched_task_cx_ptr: ContextSlot) -> (switch: SwitchRequest)
    ensures
        switch == (SwitchRequest { save: switched_task_cx_ptr, load: ContextSlot::Idle(hart_id) }),
{
    SwitchRequest { save: switched_task_cx_ptr, load: ContextSlot::Idle(hart_id) }
}

} // verus!
