//! Running actions side by side.
use crate::actions::action::Action;
use vstd::prelude::*;

verus! {

/// Runs its actions side by side and waits for all of them. It fails with
/// the first of them that fails, and the others are then given up.
pub struct ParallelAction {
    pub actions: Vec<Action>,
}

impl ParallelAction {
    /// A group without actions.
    pub fn new() -> (r: ParallelAction)
        ensures
            r.actions@.len() == 0,
    {
        ParallelAction { actions: Vec::new() }
    }

    /// Adds an action to the group.
    pub fn add_owned_action(&mut self, action: Action)
        ensures
            final(self).actions@ == old(self).actions@.push(action),
    {
        self.actions.push(action);
    }
}

impl Default for ParallelAction {
    fn default() -> (r: ParallelAction)
        ensures
            r.actions@.len() == 0,
    {
        ParallelAction::new()
    }
}

} // verus!
