//! Setting the volume of a volume control.
//!
//! The level is a number between zero and one. The library does not compute
//! with it: a constant level is held as the bit pattern of a 32 bit floating
//! point number, and a level that comes from a tag is handed on as the text
//! of the tag's value. The caller reads the number and sets the volume.
use vstd::prelude::*;

verus! {

/// Where the level comes from.
#[derive(Debug)]
pub enum TagOrConst {
    /// The value of the named tag at the time the action runs.
    Tag { tag_name: String },
    /// The level with the given bit pattern.
    Const(u32),
}

/// Sets the volume of a volume control.
#[derive(Debug)]
pub struct SetVolumeAction {
    pub value: TagOrConst,
    pub control: String,
}

/// The level of a change of volume.
#[derive(Debug)]
pub enum VolumeLevel {
    /// The level with the given bit pattern.
    Bits(u32),
    /// The level that the text stands for, if it stands for one.
    Text(String),
}

/// A change of volume that an action asks for.
#[derive(Debug)]
pub struct VolumeRequest {
    pub control: String,
    pub level: VolumeLevel,
}

/// The model of `VolumeLevel`.
pub enum VolumeLevelView {
    Bits(u32),
    Text(Seq<char>),
}

/// The model of `VolumeRequest`.
pub struct VolumeRequestView {
    pub control: Seq<char>,
    pub level: VolumeLevelView,
}

impl View for VolumeRequest {
    type V = VolumeRequestView;

    open spec fn view(&self) -> VolumeRequestView {
        VolumeRequestView {
            control: self.control@,
            level: match self.level {
                VolumeLevel::Bits(b) => VolumeLevelView::Bits(b),
                VolumeLevel::Text(t) => VolumeLevelView::Text(t@),
            },
        }
    }
}

impl SetVolumeAction {
    /// Sets the control to the level with the given bit pattern.
    pub fn new_const(control: String, value: u32) -> (r: SetVolumeAction)
        ensures
            r.control == control,
            r.value == TagOrConst::Const(value),
    {
        SetVolumeAction { control, value: TagOrConst::Const(value) }
    }

    /// Sets the control to the level that the value of the tag stands for.
    pub fn new_tag(control: String, tag_name: String) -> (r: SetVolumeAction)
        ensures
            r.control == control,
            r.value == (TagOrConst::Tag { tag_name }),
    {
        SetVolumeAction { control, value: TagOrConst::Tag { tag_name } }
    }

    /// The change of volume that the action asks for, where `tag_value` is
    /// the value of its tag: none if the level comes from a tag whose value
    /// is not known.
    pub open spec fn request(&self, tag_value: Option<Seq<char>>) -> Option<VolumeRequestView> {
        match self.value {
            TagOrConst::Const(b) => Some(
                VolumeRequestView { control: self.control@, level: VolumeLevelView::Bits(b) },
            ),
            TagOrConst::Tag { .. } => match tag_value {
                Some(t) => Some(
                    VolumeRequestView { control: self.control@, level: VolumeLevelView::Text(t) },
                ),
                None => None,
            },
        }
    }
}

} // verus!
