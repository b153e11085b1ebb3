//! What an action can do to the alarms of a filter.
use crate::app_config::alarm_context::{filter_index, AlarmContext, FilterView};
use crate::app_config::tag_context::TagContext;
use vstd::prelude::*;

verus! {

/// Ignoring and restoring the alarms of a filter. The dispatcher tells the
/// tags of the filter its numbers through `tags`.
pub trait AlarmFunctions {
    /// Ignore all alarms that the filter matches now. If `permanent` is
    /// false, an alarm is restored when it no longer matches.
    fn ignore_matched_alarms(&mut self, filter: &str, permanent: bool, tags: &mut TagContext)
        requires
            old(self).valid(),
            old(tags)@.wf(),
        ensures
            final(self).valid(),
            final(tags)@.wf(),
            match filter_index(old(self).alarm_filters(), filter@) {
                Some(i) => final(self).alarm_filters() == old(self).alarm_filters().update(
                    i,
                    old(self).alarm_filters()[i].ignoring(permanent),
                ) && final(tags)@ == final(self).alarm_filters()[i].told(old(tags)@),
                None => final(self).alarm_filters() == old(self).alarm_filters() && final(tags)@
                    == old(tags)@,
            },
    ;

    /// Stop ignoring alarms for the filter.
    fn restore_ignored_alarms(&mut self, filter: &str, tags: &mut TagContext)
        requires
            old(self).valid(),
            old(tags)@.wf(),
        ensures
            final(self).valid(),
            final(tags)@.wf(),
            match filter_index(old(self).alarm_filters(), filter@) {
                Some(i) => final(self).alarm_filters() == old(self).alarm_filters().update(
                    i,
                    old(self).alarm_filters()[i].restored(),
                ) && final(tags)@ == final(self).alarm_filters()[i].told(old(tags)@),
                None => final(self).alarm_filters() == old(self).alarm_filters() && final(tags)@
                    == old(tags)@,
            },
    ;

    /// What holds of every dispatcher.
    spec fn valid(&self) -> bool;

    /// The filters of the dispatcher, in the order in which they were
    /// added.
    spec fn alarm_filters(&self) -> Seq<FilterView>;
}

impl AlarmFunctions for AlarmContext {
    fn ignore_matched_alarms(&mut self, filter: &str, permanent: bool, tags: &mut TagContext) {
        AlarmContext::ignore_matched_alarms(self, filter, permanent, tags)
    }

    fn restore_ignored_alarms(&mut self, filter: &str, tags: &mut TagContext) {
        AlarmContext::restore_ignored_alarms(self, filter, tags)
    }

    open spec fn valid(&self) -> bool {
        self.wf()
    }

    open spec fn alarm_filters(&self) -> Seq<FilterView> {
        self.filters()
    }
}

} // verus!
