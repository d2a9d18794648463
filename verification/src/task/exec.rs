//! How a task goes on as another program: where the arguments of the
//! program lie on its stack, and what becomes of the task.

use vstd::prelude::*;
use crate::config::CPU_NUM;
use crate::kernel::Kernel;
use crate::mm::{LoadedImage, MemorySet};
use crate::task::pid::kernel_stack_top;
use crate::task::task::{TaskControlBlock, TaskControlBlockInner};
use crate::trap::context::{sstatus_with, TrapContext, REG_A0, REG_A1, SSTATUS_SPP};

verus! {

/// Bytes in a pointer on the user stack, and the alignment of the stack.
pub const POINTER_SIZE: usize = 8;

/// Where the arguments of a program lie on its stack.
#[derive(Debug)]
pub struct ExecLayout {
    /// Address of the array of pointers to the arguments.
    pub argv_base: usize,
    /// The pointers: the address of each argument, in order, and zero.
    pub argv: Vec<usize>,
    /// The stack pointer below the arguments.
    pub user_sp: usize,
}

/// The address down to which the first `count` of the arguments `args`
/// reach when they are laid out downward from `top`, each followed by a
/// zero byte.
pub open spec fn strings_bottom(args: Seq<Vec<u8>>, top: int, count: int) -> int
    decreases count,
{
    if count <= 0 {
        top
    } else {
        strings_bottom(args, top, count - 1) - (args[count - 1]@.len() + 1)
    }
}

/// The address of the array of pointers to `count` arguments below
/// `user_sp`: there is room for the pointers and for a zero after them.
pub open spec fn argv_base_of(user_sp: usize, count: nat) -> int {
    user_sp - (count + 1) * POINTER_SIZE
}

/// The arguments `args` fit on a stack that ends at `user_sp`.
pub open spec fn args_fit(user_sp: usize, args: Seq<Vec<u8>>) -> bool {
    (args.len() + 1) * POINTER_SIZE <= usize::MAX && strings_bottom(
        args,
        argv_base_of(user_sp, args.len()),
        args.len() as int,
    ) >= 0
}

impl ExecLayout {
    /// This is how `args` lie below `user_sp`: the array of pointers comes
    /// first, then the arguments in their order, downward; the pointers
    /// are the addresses of the arguments, with a zero at the end; the
    /// stack pointer is the address of the last argument, rounded down to
    /// a multiple of eight.
    pub open spec fn lays_out(self, user_sp: usize, args: Seq<Vec<u8>>) -> bool {
        let base = argv_base_of(user_sp, args.len());
        let bottom = strings_bottom(args, base, args.len() as int);
        &&& self.argv_base == base
        &&& self.argv@.len() == args.len() + 1
        &&& forall|i: int| 0 <= i < args.len() ==> #[trigger] self.argv@[i] == strings_bottom(args, base, i + 1)
        &&& self.argv@[args.len() as int] == 0
        &&& self.user_sp == bottom - bottom % (POINTER_SIZE as int)
    }
}

/// The more arguments are laid out, the further down they reach.
pub proof fn lemma_strings_bottom_decreases(args: Seq<Vec<u8>>, top: int, fewer: int, more: int)
    requires
        0 <= fewer <= more,
    ensures
        strings_bottom(args, top, more) <= strings_bottom(args, top, fewer),
    decreases more,
{
    if fewer < more {
        lemma_strings_bottom_decreases(args, top, fewer, more - 1);
    }
}

/// Lays out the arguments `args` of a program below `user_sp`, if they
/// fit. The caller copies each argument, and a zero byte after it, to the
/// address that its pointer names, and the pointers to their array.
pub fn marshal_args(user_sp: usize, args: &Vec<Vec<u8>>) -> (layout: Option<ExecLayout>)
    ensures
        layout.is_some() == args_fit(user_sp, args@),
        layout.is_some() ==> layout.unwrap().lays_out(user_sp, args@),
{
    let count = args.len();
    if count >= usize::MAX / POINTER_SIZE {
        return None;
    }
    let pointers = (count + 1) * POINTER_SIZE;
    if user_sp < pointers {
        proof {
            lemma_strings_bottom_decreases(args@, argv_base_of(user_sp, args@.len()), 0, count as int);
        }
        return None;
    }
    let argv_base = user_sp - pointers;
    let mut sp = argv_base;
    let mut argv: Vec<usize> = Vec::new();
    let mut i: usize = 0;
    while i < count
        invariant
            i <= count,
            count == args@.len(),
            argv_base == argv_base_of(user_sp, args@.len()),
            sp == strings_bottom(args@, argv_base as int, i as int),
            argv@.len() == i,
            forall|j: int| 0 <= j < i ==> #[trigger] argv@[j] == strings_bottom(args@, argv_base as int, j + 1),
        decreases count - i,
    {
        let len = args[i].len();
        if len >= sp {
            proof {
                lemma_strings_bottom_decreases(args@, argv_base as int, i + 1, count as int);
            }
            return None;
        }
        sp = sp - (len + 1);
        argv.push(sp);
        i += 1;
    }
    argv.push(0);
    // make the stack pointer a multiple of eight
    let user_sp = sp - sp % POINTER_SIZE;
    Some(ExecLayout { argv_base, argv, user_sp })
}

impl Kernel {
    /// `self` is `before` but that the task `pid` runs the program that
    /// has been laid out in `memory_set`, from `entry` on, with its
    /// arguments at `layout`: the user resources of the task hold the new
    /// address space and the files that were open; the trap frame of the
    /// task is new, with the number of arguments and the address of their
    /// pointers in the first two argument registers; identifier, group and
    /// kernel stack of the task are as before.
    pub open spec fn runs_program(
        self,
        before: Kernel,
        pid: usize,
        memory_set: MemorySet,
        entry: usize,
        layout: ExecLayout,
        sstatus: usize,
    ) -> bool {
        let was = before.task(pid);
        let space = was.inner.memory_set;
        &&& self.same_allocators(before)
        &&& self.same_schedule_but(before, pid)
        &&& self.kernel_space == before.kernel_space
        &&& self.task(pid) == (TaskControlBlock {
            inner: TaskControlBlockInner {
                trap_cx: TrapContext::fresh(
                    entry,
                    layout.user_sp,
                    sstatus_with(sstatus, SSTATUS_SPP, false),
                    before.symbols.kernel_token,
                    kernel_stack_top(was.kernel_stack.unwrap().0) as usize,
                    before.symbols.trap_handler,
                ).with_reg(REG_A0 as int, (layout.argv@.len() - 1) as usize).with_reg(
                    REG_A1 as int,
                    layout.argv_base,
                ),
                ..was.inner
            },
            ..was
        })
        &&& forall|other: usize| #[trigger] self.space_live(other) == before.space_live(other)
        &&& forall|other: usize|
            other != space && #[trigger] self.space_live(other) ==> self.space(other) == before.space(other)
        &&& self.space(space).memory_set == memory_set
        &&& self.space(space).fd_table == before.space(space).fd_table
    }

    /// The ready queue, the processors and the init process of `self` are
    /// those of `before`, and so is every task but `pid`, which exists as
    /// before.
    pub open spec fn same_schedule_but(self, before: Kernel, pid: usize) -> bool {
        &&& self.ready() == before.ready()
        &&& self.processors@ == before.processors@
        &&& self.initproc == before.initproc
        &&& self.symbols == before.symbols
        &&& self.pid2tcb.tasks@.len() == before.pid2tcb.tasks@.len()
        &&& self.live(pid)
        &&& before.live(pid)
        &&& forall|other: usize|
            other != pid && other < self.pid2tcb.tasks@.len() ==> #[trigger] self.pid2tcb.tasks@[other as int]
                == before.pid2tcb.tasks@[other as int]
    }

    /// The user task that runs on core `hart_id` goes on as the program
    /// `image` with the arguments `args`, if they fit on the stack of the
    /// program; else nothing changes. The answer says where the arguments
    /// lie: the caller copies them there. `sstatus` is the current value of
    /// the status register.
    pub fn exec(&mut self, hart_id: usize, image: LoadedImage, args: &Vec<Vec<u8>>, sstatus: usize) -> (layout: Option<
        ExecLayout,
    >)
        requires
            old(self).wf(),
            hart_id < CPU_NUM,
            old(self).current(hart_id).is_some(),
            old(self).task(old(self).current(hart_id).unwrap()).kernel_stack.is_some(),
        ensures
            final(self).wf(),
            layout.is_some() == args_fit(image.user_sp, args@),
            match layout {
                Some(layout) => {
                    &&& layout.lays_out(image.user_sp, args@)
                    &&& final(self).runs_program(
                        *old(self),
                        old(self).current(hart_id).unwrap(),
                        image.memory_set,
                        image.entry,
                        layout,
                        sstatus,
                    )
                },
                None => *final(self) == *old(self),
            },
    {
        let layout = match marshal_args(image.user_sp, args) {
            Some(layout) => layout,
            None => {
                return None;
            },
        };
        let ghost before = *old(self);
        let pid = self.processors[hart_id].current().unwrap();
        assert(self.live(pid));
        let symbols = self.symbols;
        let task = self.pid2tcb.get_mut(pid);
        let kernel_stack_top = match &task.kernel_stack {
            Some(kernel_stack) => kernel_stack.get_top(),
            None => vstd::pervasive::unreached(),
        };
        // a new trap frame, with the arguments where the program looks for them
        let mut trap_cx = TrapContext::app_init_context(
            image.entry,
            layout.user_sp,
            symbols.kernel_token,
            kernel_stack_top,
            symbols.trap_handler,
            sstatus,
        );
        trap_cx.x[REG_A0] = args.len();
        trap_cx.x[REG_A1] = layout.argv_base;
        task.inner.trap_cx = trap_cx;
        let space = task.inner.memory_set;
        let ghost framed = *self;
        proof {
            framed.lemma_signals_changed(before, pid);
            assert(self.space_live(space)) by {
                assert(before.space_live(before.task(pid).inner.memory_set));
            }
        }
        // the address space of the program takes the place of the old one
        match &mut self.spaces[space] {
            Some(resources) => {
                resources.memory_set = image.memory_set;
            },
            None => {},
        }
        proof {
            assert forall|other: usize| #[trigger] self.space_live(other) == framed.space_live(other) by {}
            assert forall|other: usize| #[trigger] self.space_live(other) implies self.space_allocator@.outstanding(
                other,
            ) by {
                assert(framed.space_live(other));
            }
            self.lemma_resources_grew(framed);
            assert forall|other: usize| #[trigger] self.space_live(other) == before.space_live(other) by {
                assert(framed.space_live(other) == before.space_live(other));
            }
        }
        Some(layout)
    }
}

} // verus!
