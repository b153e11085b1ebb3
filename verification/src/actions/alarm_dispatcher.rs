//! Reading the counts of the alarm filters and waiting for their changes,
//! and what can go wrong when a filter is looked up.
use crate::app_config::alarm_context::{filter_index, AlarmContext, AlarmWait, FilterView};
use vstd::prelude::*;

verus! {

/// Why the count of an alarm filter could not be read or waited for.
#[derive(Debug, Clone, Copy, PartialEq, Eq, Structural)]
pub enum Error {
    /// No filter of that name is configured.
    AlarmFilterNotFound,
    /// The dispatcher can no longer be used.
    DispatcherNotAvailable,
}

impl Error {
    /// The message of the error.
    pub open spec fn text(self) -> Seq<char> {
        match self {
            Error::AlarmFilterNotFound => "Alarm filter not found"@,
            Error::DispatcherNotAvailable => "Alarm dispatcher not available"@,
        }
    }

    /// The message of the error.
    pub fn to_string(&self) -> (s: String)
        ensures
            s@ == self.text(),
    {
        match self {
            Error::AlarmFilterNotFound => "Alarm filter not found".to_owned(),
            Error::DispatcherNotAvailable => "Alarm dispatcher not available".to_owned(),
        }
    }
}

/// Reading the counts of the alarm filters and waiting for their changes.
pub trait AlarmDispatcher {
    /// The filters that the dispatcher knows, in the order in which they
    /// were added.
    spec fn known_filters(&self) -> Seq<FilterView>;

    /// What holds of every dispatcher.
    spec fn usable(&self) -> bool;

    /// The count of a filter and a waiter for its next report. A report
    /// that came before the call does not wake the waiter.
    fn wait_alarm_filter(&self, filter: &str) -> (r: Result<(u32, AlarmWait), Error>)
        requires
            self.usable(),
        ensures
            match r {
                Ok((count, wait)) => filter_index(self.known_filters(), filter@) matches Some(i)
                    && count == self.known_filters()[i].count() && wait.version
                    == self.known_filters()[i].version && wait.filter@ == filter@,
                Err(e) => filter_index(self.known_filters(), filter@) is None && e
                    == Error::AlarmFilterNotFound,
            },
    ;

    /// The count of a filter: the number of alarms that match it and are
    /// not ignored.
    fn get_filter_count(&self, filter: &str) -> (r: Result<u32, Error>)
        requires
            self.usable(),
        ensures
            match filter_index(self.known_filters(), filter@) {
                Some(i) => r == Ok::<u32, Error>(self.known_filters()[i].count()),
                None => r == Err::<u32, Error>(Error::AlarmFilterNotFound),
            },
    ;
}

impl AlarmDispatcher for AlarmContext {
    open spec fn known_filters(&self) -> Seq<FilterView> {
        self.filters()
    }

    open spec fn usable(&self) -> bool {
        self.wf()
    }

    fn wait_alarm_filter(&self, filter: &str) -> (r: Result<(u32, AlarmWait), Error>) {
        AlarmContext::wait_alarm_filter(self, filter)
    }

    fn get_filter_count(&self, filter: &str) -> (r: Result<u32, Error>) {
        AlarmContext::get_filter_count(self, filter)
    }
}

} // verus!
