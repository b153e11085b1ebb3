//! Volume controls.
//!
//! The library names the volume controls and says which level each is to
//! get; the caller, which knows the mixer of the machine, sets the level.
use vstd::prelude::*;

verus! {

/// A volume control of a mixer device.
#[derive(Debug)]
pub struct VolumeControl {
    pub device: String,
}

impl VolumeControl {
    /// The volume control of the named device.
    pub fn new(device: &str) -> (r: VolumeControl)
        ensures
            r.device@ == device@,
    {
        VolumeControl { device: device.to_owned() }
    }
}

} // verus!
