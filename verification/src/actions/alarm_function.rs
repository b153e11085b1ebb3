//! Ignoring and restoring the alarms of a filter.
use crate::app_config::alarm_context::{filter_index, AlarmContext};
use crate::app_config::tag_context::TagContext;
use vstd::prelude::*;

verus! {

/// What to do to the alarms of a filter.
#[derive(Debug, Clone, Copy, PartialEq, Eq, Structural)]
pub enum AlarmOp {
    Ignore,
    Restore,
}

/// Ignores the alarms that a filter matches, or restores them.
#[derive(Debug)]
pub struct AlarmFunctionAction {
    pub filter: String,
    pub op: AlarmOp,
    /// Whether ignored alarms stay ignored when they no longer match.
    pub permanent: bool,
}

impl AlarmFunctionAction {
    /// An action on the alarms of the named filter. Alarms that it ignores
    /// are restored when they no longer match.
    pub fn new(filter: String, op: AlarmOp) -> (r: AlarmFunctionAction)
        ensures
            r.filter == filter,
            r.op == op,
            !r.permanent,
    {
        AlarmFunctionAction { filter, op, permanent: false }
    }

    /// Does to the alarms of the filter what the action says. A filter that
    /// is not known is passed over.
    pub fn run(&self, alarm_functions: &mut AlarmContext, tags: &mut TagContext)
        requires
            old(alarm_functions).wf(),
            old(tags)@.wf(),
        ensures
            final(alarm_functions).wf(),
            final(tags)@.wf(),
            match filter_index(old(alarm_functions).filters(), self.filter@) {
                Some(i) => {
                    let after = match self.op {
                        AlarmOp::Ignore => old(alarm_functions).filters()[i].ignoring(
                            self.permanent,
                        ),
                        AlarmOp::Restore => old(alarm_functions).filters()[i].restored(),
                    };
                    final(alarm_functions).filters() == old(alarm_functions).filters().update(
                        i,
                        after,
                    ) && final(tags)@ == after.told(old(tags)@)
                },
                None => final(alarm_functions).filters() == old(alarm_functions).filters()
                    && final(tags)@ == old(tags)@,
            },
    {
        proof {
            crate::app_config::alarm_context::lemma_filter_index(
                alarm_functions.filters(),
                self.filter@,
            );
        }
        match self.op {
            AlarmOp::Ignore => {
                alarm_functions.ignore_matched_alarms(self.filter.as_str(), self.permanent, tags);
            },
            AlarmOp::Restore => {
                alarm_functions.restore_ignored_alarms(self.filter.as_str(), tags);
            },
        }
    }
}

} // verus!
