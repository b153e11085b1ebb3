//! Running actions one after the other.
use crate::actions::action::Action;
use vstd::prelude::*;

verus! {

/// Runs its actions in order and fails with the first of them that fails.
pub struct SequenceAction {
    pub actions: Vec<Action>,
}

impl SequenceAction {
    /// A sequence without actions.
    pub fn new() -> (r: SequenceAction)
        ensures
            r.actions@.len() == 0,
    {
        SequenceAction { actions: Vec::new() }
    }

    /// Adds an action at the end.
    pub fn add_owned_action(&mut self, action: Action)
        ensures
            final(self).actions@ == old(self).actions@.push(action),
    {
        self.actions.push(action);
    }
}

impl Default for SequenceAction {
    fn default() -> (r: SequenceAction)
        ensures
            r.actions@.len() == 0,
    {
        SequenceAction::new()
    }
}

} // verus!
