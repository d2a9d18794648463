//! Booting: what each core does before it runs tasks, the barrier at
//! which the cores wait for one another, and where all the cores stand in
//! their start.

use vstd::prelude::*;

verus! {

/// One step of the start of a core.
#[derive(Clone, Copy, Debug, PartialEq, Eq, Structural)]
pub enum BootStep {
    /// Zero the memory of variables that start as zero.
    ClearBss,
    /// Set up the heap, the allocator of page frames and the kernel's
    /// address space.
    InitMemory,
    /// Check the kernel's address space.
    RemapTest,
    /// Make the init process.
    AddInitproc,
    /// Install the kernel trap vector.
    TrapInit,
    /// Let the timer interrupt this core.
    EnableTimerInterrupt,
    /// Arm the timer.
    SetNextTrigger,
    /// Print the programs that are at hand.
    ListApps,
    /// Let the other cores start.
    ReleaseOthers,
    /// Wait until the first core lets this one start.
    WaitForRelease,
    /// Activate the kernel's address space on this core.
    InitKernelSpace,
    /// Let the kernel reach the memory of user tasks on this core.
    ThreadLocalInit,
    /// Arrive at the barrier, once. The core goes on from there when
    /// every core has arrived.
    Barrier,
    /// Enter the scheduling loop.
    RunTasks,
}

/// What a core other than the first does once it may start.
pub open spec fn others_steps() -> Seq<BootStep> {
    seq![
        BootStep::InitKernelSpace,
        BootStep::ThreadLocalInit,
        BootStep::TrapInit,
        BootStep::EnableTimerInterrupt,
        BootStep::SetNextTrigger,
    ]
}

/// What core `hart_id`, if it is not the first, does before it runs tasks.
pub open spec fn other_cpu_steps(hart_id: usize) -> Seq<BootStep> {
    if hart_id != 0 {
        seq![BootStep::WaitForRelease] + others_steps()
    } else {
        Seq::<BootStep>::empty()
    }
}

/// What core `hart_id` does from its start on.
pub open spec fn boot_steps(hart_id: usize) -> Seq<BootStep> {
    if hart_id == 0 {
        seq![
            BootStep::ClearBss,
            BootStep::InitMemory,
            BootStep::RemapTest,
            BootStep::AddInitproc,
            BootStep::TrapInit,
            BootStep::EnableTimerInterrupt,
            BootStep::SetNextTrigger,
            BootStep::ListApps,
            BootStep::ReleaseOthers,
            BootStep::Barrier,
            BootStep::RunTasks,
        ]
    } else {
        other_cpu_steps(hart_id) + seq![BootStep::Barrier, BootStep::RunTasks]
    }
}

/// Every core ends its start in the same way: it arrives at the barrier
/// and waits there, once, after everything that it sets up, and only then
/// enters the scheduling loop, which is its last step.
pub proof fn lemma_barrier_before_run(hart_id: usize)
    ensures
        boot_steps(hart_id).len() >= 2,
        boot_steps(hart_id).last() == BootStep::RunTasks,
        boot_steps(hart_id)[boot_steps(hart_id).len() - 2] == BootStep::Barrier,
        forall|i: int|
            0 <= i < boot_steps(hart_id).len() - 1 ==> #[trigger] boot_steps(hart_id)[i] != BootStep::RunTasks,
        forall|i: int|
            0 <= i < boot_steps(hart_id).len() && i != boot_steps(hart_id).len() - 2 ==> #[trigger] boot_steps(
                hart_id,
            )[i] != BootStep::Barrier,
{
}

/// The steps of a core other than the first, once it may start.
pub fn others_main() -> (steps: Vec<BootStep>)
    ensures
        steps@ == others_steps(),
{
    let mut steps: Vec<BootStep> = Vec::new();
    steps.push(BootStep::InitKernelSpace);
    steps.push(BootStep::ThreadLocalInit);
    steps.push(BootStep::TrapInit);
    steps.push(BootStep::EnableTimerInterrupt);
    steps.push(BootStep::SetNextTrigger);
    proof {
        assert(steps@ =~= others_steps());
    }
    steps
}

/// The steps of core `hart_id` before it runs tasks, if it is not the
/// first: it waits until it may start, then sets itself up.
pub fn init_other_cpu(hart_id: usize) -> (steps: Vec<BootStep>)
    ensures
        steps@ == other_cpu_steps(hart_id),
{
    let mut steps: Vec<BootStep> = Vec::new();
    if hart_id != 0 {
        steps.push(BootStep::WaitForRelease);
        let mut own = others_main();
        steps.append(&mut own);
        proof {
            assert(steps@ =~= other_cpu_steps(hart_id));
        }
    }
    steps
}

/// The steps of core `hart_id` from its start on. The first core sets up
/// the kernel and lets the others start; every core, when it has set
/// itself up, arrives at the barrier and waits there for the others, and
/// enters the scheduling loop when all have arrived.
pub fn rust_main(hart_id: usize) -> (steps: Vec<BootStep>)
    ensures
        steps@ == boot_steps(hart_id),
        steps@.len() >= 2,
        steps@[steps@.len() - 2] == BootStep::Barrier,
        steps@.last() == BootStep::RunTasks,
{
    let mut steps: Vec<BootStep> = Vec::new();
    if hart_id == 0 {
        steps.push(BootStep::ClearBss);
        steps.push(BootStep::InitMemory);
        steps.push(BootStep::RemapTest);
        steps.push(BootStep::AddInitproc);
        steps.push(BootStep::TrapInit);
        steps.push(BootStep::EnableTimerInterrupt);
        steps.push(BootStep::SetNextTrigger);
        steps.push(BootStep::ListApps);
        steps.push(BootStep::ReleaseOthers);
    } else {
        steps = init_other_cpu(hart_id);
    }
    steps.push(BootStep::Barrier);
    steps.push(BootStep::RunTasks);
    proof {
        assert(steps@ =~= boot_steps(hart_id));
        lemma_barrier_before_run(hart_id);
    }
    steps
}

/// The barrier at which the cores meet before any of them runs tasks:
/// how many have arrived, and how many there are.
#[derive(Clone, Copy, Debug, PartialEq, Eq, Structural)]
pub struct BootBarrier {
    pub arrived: usize,
    pub expected: usize,
}

impl BootBarrier {
    /// No more cores have arrived than there are.
    pub open spec fn wf(self) -> bool {
        self.arrived <= self.expected
    }

    /// Every core has arrived.
    pub open spec fn open(self) -> bool {
        self.arrived == self.expected
    }

    /// The barrier for `expected` cores, none of which has arrived.
    pub fn new(expected: usize) -> (barrier: Self)
        ensures
            barrier == (BootBarrier { arrived: 0, expected }),
            barrier.wf(),
    {
        BootBarrier { arrived: 0, expected }
    }

    /// A core that has not arrived before arrives. The answer says
    /// whether it was the last.
    pub fn arrive(&mut self) -> (last: bool)
        requires
            old(self).wf(),
            !old(self).open(),
        ensures
            final(self).wf(),
            final(self).expected == old(self).expected,
            final(self).arrived == old(self).arrived + 1,
            last == final(self).open(),
    {
        self.arrived += 1;
        self.arrived == self.expected
    }

    /// Whether a core that waits may go on: it may when every core has
    /// arrived.
    pub fn released(&self) -> (go: bool)
        ensures
            go == self.open(),
    {
        self.arrived == self.expected
    }

    /// The barrier for `expected` cores after `arrivals` of them have
    /// arrived, each once.
    pub open spec fn after_arrivals(expected: usize, arrivals: nat) -> BootBarrier
        decreases arrivals,
    {
        if arrivals == 0 {
            BootBarrier { arrived: 0, expected }
        } else {
            let before = BootBarrier::after_arrivals(expected, (arrivals - 1) as nat);
            BootBarrier { arrived: (before.arrived + 1) as usize, ..before }
        }
    }

    /// The barrier counts every arrival, opens with the arrival of the
    /// last core and not before, and admits no arrival once it is open: it
    /// never opens early, and no core waits after the last has arrived.
    pub proof fn lemma_opens_with_last(expected: usize, arrivals: nat)
        requires
            arrivals <= expected,
        ensures
            BootBarrier::after_arrivals(expected, arrivals).wf(),
            BootBarrier::after_arrivals(expected, arrivals).expected == expected,
            BootBarrier::after_arrivals(expected, arrivals).arrived == arrivals,
            BootBarrier::after_arrivals(expected, arrivals).open() <==> arrivals == expected,
        decreases arrivals,
    {
        if arrivals > 0 {
            BootBarrier::lemma_opens_with_last(expected, (arrivals - 1) as nat);
        }
    }
}

/// Core `hart_id`, which has carried out the first `done` of its steps,
/// has arrived at the barrier.
pub open spec fn has_arrived(hart_id: usize, done: usize) -> bool {
    done > boot_steps(hart_id).len() - 2
}

/// How many of the first `cores` cores have arrived at the barrier, where
/// `done` holds for every core the number of steps that it has carried out.
pub open spec fn arrived_count(done: Seq<usize>, cores: int) -> int
    decreases cores,
{
    if cores <= 0 {
        0
    } else {
        arrived_count(done, cores - 1) + if has_arrived((cores - 1) as usize, done[cores - 1]) {
            1int
        } else {
            0int
        }
    }
}

/// No more cores have arrived than there are, and all have exactly if
/// each has.
pub proof fn lemma_arrived_count(done: Seq<usize>, cores: int)
    requires
        0 <= cores <= done.len(),
        cores <= usize::MAX,
    ensures
        0 <= arrived_count(done, cores) <= cores,
        arrived_count(done, cores) == cores <==> forall|hart_id: int|
            0 <= hart_id < cores ==> has_arrived(hart_id as usize, #[trigger] done[hart_id]),
    decreases cores,
{
    if cores > 0 {
        lemma_arrived_count(done, cores - 1);
        if arrived_count(done, cores) == cores {
            assert forall|hart_id: int| 0 <= hart_id < cores implies has_arrived(
                hart_id as usize,
                #[trigger] done[hart_id],
            ) by {}
        }
    }
}

/// A step of one core changes the number of cores that have arrived by
/// that core alone.
pub proof fn lemma_arrived_count_update(done: Seq<usize>, cores: int, hart_id: int, steps: usize)
    requires
        0 <= cores <= done.len(),
        0 <= hart_id < done.len(),
        cores <= usize::MAX,
    ensures
        arrived_count(done.update(hart_id, steps), cores) == arrived_count(done, cores) + (if hart_id < cores
            && has_arrived(hart_id as usize, steps) {
            1int
        } else {
            0int
        }) - (if hart_id < cores && has_arrived(hart_id as usize, done[hart_id]) {
            1int
        } else {
            0int
        }),
    decreases cores,
{
    if cores > 0 {
        lemma_arrived_count_update(done, cores - 1, hart_id, steps);
    }
}

/// What a core is to do next in its start.
#[derive(Clone, Copy, Debug, PartialEq, Eq, Structural)]
pub enum BootMove {
    /// Carry out this step, then ask again.
    Perform(BootStep),
    /// Not every core has arrived at the barrier: ask again.
    Wait,
    /// The core has carried out all of its steps.
    Finished,
}

/// Where the cores stand in their start: the barrier, and for every core
/// the number of steps that it has been handed.
#[derive(Debug)]
pub struct Boot {
    pub barrier: BootBarrier,
    pub done: Vec<usize>,
}

impl Boot {
    /// The barrier expects every core and has counted those that have
    /// arrived, each once; no core has been handed more steps than it has.
    pub open spec fn wf(self) -> bool {
        &&& self.barrier.wf()
        &&& self.done@.len() == self.barrier.expected
        &&& forall|hart_id: int|
            0 <= hart_id < self.done@.len() ==> (#[trigger] self.done@[hart_id]) <= boot_steps(
                hart_id as usize,
            ).len()
        &&& self.barrier.arrived == arrived_count(self.done@, self.done@.len() as int)
    }

    /// What core `hart_id` is to do next, and where the cores stand after
    /// it has been told. The steps of the core come in their order. The
    /// step at the barrier makes the core arrive there. The scheduling
    /// loop is handed out only once every core has arrived; until then the
    /// core waits, and nothing changes.
    pub open spec fn next_move(self, hart_id: usize) -> BootMove {
        let steps = boot_steps(hart_id);
        let done = self.done@[hart_id as int];
        if done >= steps.len() {
            BootMove::Finished
        } else if steps[done as int] == BootStep::RunTasks && !self.barrier.open() {
            BootMove::Wait
        } else {
            BootMove::Perform(steps[done as int])
        }
    }

    /// The start of `cores` cores, none of which has done anything.
    pub fn new(cores: usize) -> (boot: Boot)
        ensures
            boot.wf(),
            boot.barrier == (BootBarrier { arrived: 0, expected: cores }),
            boot.done@ == Seq::new(cores as nat, |hart_id: int| 0usize),
    {
        let mut done: Vec<usize> = Vec::new();
        let mut hart_id: usize = 0;
        while hart_id < cores
            invariant
                hart_id <= cores,
                done@ == Seq::new(hart_id as nat, |h: int| 0usize),
                arrived_count(done@, hart_id as int) == 0,
            decreases cores - hart_id,
        {
            let ghost before = done@;
            done.push(0);
            proof {
                assert(done@ =~= Seq::new((hart_id + 1) as nat, |h: int| 0usize));
                lemma_barrier_before_run(hart_id);
                assert(done@ =~= before.push(0usize));
                lemma_arrived_count_prefix(before, done@, hart_id as int);
            }
            hart_id += 1;
        }
        Boot { barrier: BootBarrier::new(cores), done }
    }

    /// Says what core `hart_id` is to do next, and notes that it has been
    /// told.
    pub fn next(&mut self, hart_id: usize) -> (todo: BootMove)
        requires
            old(self).wf(),
            hart_id < old(self).done@.len(),
        ensures
            final(self).wf(),
            todo == old(self).next_move(hart_id),
            final(self).barrier.expected == old(self).barrier.expected,
            match todo {
                BootMove::Perform(step) => {
                    &&& final(self).done@ == old(self).done@.update(
                        hart_id as int,
                        (old(self).done@[hart_id as int] + 1) as usize,
                    )
                    &&& final(self).barrier.arrived == old(self).barrier.arrived + (if step == BootStep::Barrier {
                        1int
                    } else {
                        0int
                    })
                    &&& step == BootStep::RunTasks ==> old(self).barrier.open()
                },
                _ => *final(self) == *old(self),
            },
    {
        let steps = rust_main(hart_id);
        let done = self.done[hart_id];
        if done >= steps.len() {
            return BootMove::Finished;
        }
        let step = steps[done];
        if step == BootStep::RunTasks && !self.barrier.released() {
            return BootMove::Wait;
        }
        proof {
            lemma_barrier_before_run(hart_id);
            lemma_arrived_count(self.done@, self.done@.len() as int);
            lemma_arrived_count_update(self.done@, self.done@.len() as int, hart_id as int, (done + 1) as usize);
        }
        if step == BootStep::Barrier {
            self.barrier.arrive();
        }
        self.done[hart_id] = done + 1;
        BootMove::Perform(step)
    }

    /// The barrier never opens early: while it is closed no core is handed
    /// the scheduling loop, and when it is open every core has arrived,
    /// and so has carried out all that comes before the barrier in its
    /// start. Nor does any core wait in vain: the barrier is open as soon
    /// as every core has arrived, and then it stays open, because no core
    /// has the step at the barrier before it any more.
    pub proof fn lemma_barrier_holds(self, hart_id: usize)
        requires
            self.wf(),
            hart_id < self.done@.len(),
        ensures
            self.next_move(hart_id) == BootMove::Perform(BootStep::RunTasks) ==> self.barrier.open(),
            self.barrier.open() <==> forall|other: int|
                0 <= other < self.done@.len() ==> has_arrived(other as usize, #[trigger] self.done@[other]),
            self.barrier.open() ==> self.next_move(hart_id) != BootMove::Wait && self.next_move(hart_id)
                != BootMove::Perform(BootStep::Barrier),
            has_arrived(hart_id, self.done@[hart_id as int]) <==> self.done@[hart_id as int] >= boot_steps(
                hart_id,
            ).len() - 1,
    {
        lemma_barrier_before_run(hart_id);
        lemma_arrived_count(self.done@, self.done@.len() as int);
        if self.barrier.open() {
            assert(has_arrived(hart_id, self.done@[hart_id as int]));
        }
    }
}

/// The cores that have arrived among the first `cores` are the same in two
/// records that agree on those cores.
pub proof fn lemma_arrived_count_prefix(a: Seq<usize>, b: Seq<usize>, cores: int)
    requires
        0 <= cores <= a.len(),
        cores <= b.len(),
        forall|hart_id: int| 0 <= hart_id < cores ==> a[hart_id] == b[hart_id],
    ensures
        arrived_count(a, cores) == arrived_count(b, cores),
    decreases cores,
{
    if cores > 0 {
        lemma_arrived_count_prefix(a, b, cores - 1);
    }
}

} // verus!
