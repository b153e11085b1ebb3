//! Playing a clip.
use crate::sample_buffer::SampleBuffer;
use std::sync::Arc;
use vstd::prelude::*;

verus! {

/// Plays a clip through the clip queue.
#[derive(Debug)]
pub struct PlayAction {
    pub priority: i32,
    /// How long to wait for the audio output, in milliseconds, before the
    /// clip is given up. Without it the wait has no end.
    pub timeout: Option<u64>,
    pub samples: Arc<SampleBuffer>,
}

impl PlayAction {
    pub fn new(priority: i32, timeout: Option<u64>, samples: Arc<SampleBuffer>) -> (r: PlayAction)
        ensures
            r.priority == priority,
            r.timeout == timeout,
            r.samples == samples,
    {
        PlayAction { priority, timeout, samples }
    }
}

} // verus!
