//! Writing a line to the log.
use vstd::prelude::*;

verus! {

/// Writes a text to the log, at debug level.
#[derive(Debug)]
pub struct DebugAction {
    pub text: String,
}

impl DebugAction {
    pub fn new(text: String) -> (r: DebugAction)
        ensures
            r.text == text,
    {
        DebugAction { text }
    }

    /// The line to write.
    pub fn run(&self) -> (r: String)
        ensures
            r == self.text,
    {
        self.text.clone()
    }
}

} // verus!
