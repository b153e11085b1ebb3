//! Setting tags from within.
use crate::app_config::tag_context::{
    next_version, PendingView, SetTagWait, TagContext, TagContextView, SET_TAG_TIMEOUT_MS,
};
use vstd::prelude::*;

verus! {

/// Setting the values of tags. A value that is set changes the tag at once
/// and is queued for the runtime; that the runtime takes it is not
/// promised.
pub trait TagSetter {
    /// The tags that the setter works on, with what is queued for the
    /// runtime.
    spec fn set_tags(&self) -> TagContextView;

    /// Sets a tag and returns a waiter for the acknowledgement of the
    /// write. The waiter gives up `SET_TAG_TIMEOUT_MS` after `now`.
    fn async_set_tag(&mut self, tag_name: &str, value: &str, now: u64) -> (r: SetTagWait)
        requires
            old(self).set_tags().wf(),
        ensures
            final(self).set_tags().wf(),
            final(self).set_tags() == (TagContextView {
                pending: old(self).set_tags().pending.push(
                    PendingView { ticket: old(self).set_tags().next_ticket, name: tag_name@ },
                ),
                next_ticket: next_version(old(self).set_tags().next_ticket),
                ..old(self).set_tags().set(tag_name@, value@)
            }),
            r.ticket == old(self).set_tags().next_ticket,
            r.deadline == if now + SET_TAG_TIMEOUT_MS > u64::MAX {
                u64::MAX
            } else {
                (now + SET_TAG_TIMEOUT_MS) as u64
            },
    ;

    /// Sets a tag. Whether the runtime takes the value is not waited for.
    fn set_tag(&mut self, tag_name: &str, value: &str)
        requires
            old(self).set_tags().wf(),
        ensures
            final(self).set_tags().wf(),
            final(self).set_tags() == old(self).set_tags().set(tag_name@, value@),
    ;
}

impl TagSetter for TagContext {
    open spec fn set_tags(&self) -> TagContextView {
        self@
    }

    fn async_set_tag(&mut self, tag_name: &str, value: &str, now: u64) -> (r: SetTagWait) {
        TagContext::async_set_tag(self, tag_name, value, now)
    }

    fn set_tag(&mut self, tag_name: &str, value: &str) {
        TagContext::set_tag(self, tag_name, value)
    }
}

} // verus!
