//! Reading the tags and waiting for their changes, and what can go wrong
//! when a tag is looked up.
use crate::app_config::tag_context::{option_text, TagContext, TagContextView, TagWait};
use vstd::prelude::*;

verus! {

/// Why a tag could not be read or waited for.
#[derive(Debug, Clone, Copy, PartialEq, Eq, Structural)]
pub enum Error {
    /// No tag of that name is registered.
    TagNotFound,
    /// The dispatcher can no longer be used.
    DispatcherNotAvailable,
}

impl Error {
    /// The message of the error.
    pub open spec fn text(self) -> Seq<char> {
        match self {
            Error::TagNotFound => "Can't subscribe to tag, not found"@,
            Error::DispatcherNotAvailable => "Tag dispatcher not available"@,
        }
    }

    /// The message of the error.
    pub fn to_string(&self) -> (s: String)
        ensures
            s@ == self.text(),
    {
        match self {
            Error::TagNotFound => "Can't subscribe to tag, not found".to_owned(),
            Error::DispatcherNotAvailable => "Tag dispatcher not available".to_owned(),
        }
    }
}

/// Reading the values of tags and waiting for their changes.
pub trait TagDispatcher {
    /// The tags that the dispatcher knows, with their values.
    spec fn known_tags(&self) -> TagContextView;

    /// The last known value of a tag and a waiter for its next change. A
    /// change that came before the call does not wake the waiter.
    fn wait_value(&self, tag: &str) -> (r: Result<(Option<String>, TagWait), Error>)
        ensures
            match r {
                Ok((value, wait)) => self.known_tags().armed(tag@) == Some(wait.version)
                    && wait.name@ == tag@ && option_text(value) == self.known_tags().current(
                    tag@,
                ),
                Err(e) => self.known_tags().armed(tag@) is None && e == Error::TagNotFound,
            },
    ;

    /// The last known value of a tag; `None` if it is unknown or the tag is
    /// not registered.
    fn get_value(&self, tag: &str) -> (r: Option<String>)
        ensures
            option_text(r) == self.known_tags().current(tag@),
    ;
}

impl TagDispatcher for TagContext {
    open spec fn known_tags(&self) -> TagContextView {
        self@
    }

    fn wait_value(&self, tag: &str) -> (r: Result<(Option<String>, TagWait), Error>) {
        TagContext::wait_value(self, tag)
    }

    fn get_value(&self, tag: &str) -> (r: Option<String>) {
        TagContext::get_value(self, tag)
    }
}

} // verus!
