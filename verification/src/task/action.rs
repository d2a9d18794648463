//! What a task has asked to be done when a signal arrives.

use vstd::prelude::*;
use crate::task::signal::SignalFlags;

verus! {

/// Number of signals, and of slots in an action table.
pub const SIG_COUNT: usize = 32;

/// The handler of one signal and the mask that is in force while it runs.
#[derive(Clone, Copy, Debug, PartialEq, Eq, Structural)]
pub struct SignalAction {
    pub handler: usize,
    pub mask: SignalFlags,
}

/// One action per signal number.
#[derive(Clone, Copy, Debug)]
pub struct SignalActions {
    pub table: [SignalAction; SIG_COUNT],
}

impl SignalAction {
    /// No handler of the task's own, and no signal masked.
    pub fn default_action() -> (action: SignalAction)
        ensures
            action.handler == 0,
            action.mask.bits == 0,
    {
        SignalAction { handler: 0, mask: SignalFlags { bits: 0 } }
    }
}

impl SignalActions {
    /// Every signal has the default action.
    pub open spec fn all_default(self) -> bool {
        forall|sig: int|
            0 <= sig < SIG_COUNT ==> #[trigger] self.table@[sig] == (SignalAction {
                handler: 0,
                mask: SignalFlags { bits: 0 },
            })
    }

    /// The table in which every signal has the default action.
    pub fn new() -> (actions: SignalActions)
        ensures
            actions.all_default(),
    {
        SignalActions { table: [SignalAction::default_action(); SIG_COUNT] }
    }
}

} // verus!
