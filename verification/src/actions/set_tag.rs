//! Setting the value of a tag.
use vstd::prelude::*;

verus! {

/// Sets a tag to a value and waits for the runtime to acknowledge the write.
#[derive(Debug)]
pub struct SetTagAction {
    pub tag_name: String,
    pub value: String,
}

impl SetTagAction {
    pub fn new(tag_name: String, value: String) -> (r: SetTagAction)
        ensures
            r.tag_name == tag_name,
            r.value == value,
    {
        SetTagAction { tag_name, value }
    }
}

} // verus!
