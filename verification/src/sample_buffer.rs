//! Audio clips: buffers of samples in the format of the playback device.
use std::sync::Arc;
use vstd::pervasive::unreached;
use vstd::prelude::*;

verus! {

/// A sample of 32 bit floating point format, held as its bit pattern. The
/// library moves such samples and never computes with them.
#[derive(Debug, Clone, Copy, PartialEq, Eq, Structural)]
pub struct F32Bits(pub u32);

/// The samples of a clip, in one of the formats of a playback device.
#[derive(Debug)]
pub enum SampleBuffer {
    I16(Vec<i16>),
    U16(Vec<u16>),
    F32(Vec<F32Bits>),
}

impl SampleBuffer {
    /// The number of samples.
    pub open spec fn spec_len(&self) -> nat {
        match self {
            SampleBuffer::I16(buf) => buf@.len(),
            SampleBuffer::U16(buf) => buf@.len(),
            SampleBuffer::F32(buf) => buf@.len(),
        }
    }

    /// The number of samples.
    pub fn len(&self) -> (n: usize)
        ensures
            n == self.spec_len(),
    {
        match self {
            SampleBuffer::I16(buf) => buf.len(),
            SampleBuffer::U16(buf) => buf.len(),
            SampleBuffer::F32(buf) => buf.len(),
        }
    }

    /// Whether the clip holds no sample.
    pub fn is_empty(&self) -> (r: bool)
        ensures
            r == (self.spec_len() == 0),
    {
        match self {
            SampleBuffer::I16(buf) => buf.len() == 0,
            SampleBuffer::U16(buf) => buf.len() == 0,
            SampleBuffer::F32(buf) => buf.len() == 0,
        }
    }
}

/// Calls `Arc::clone`, which gives another handle to the same clip: the
/// samples are shared, not copied.
#[verifier::external_body]
pub(crate) fn share(clip: &Arc<SampleBuffer>) -> (r: Arc<SampleBuffer>)
    ensures
        r == *clip,
{
    Arc::clone(clip)
}

/// Access to the samples of a clip in the format `S`.
pub trait AsSampleSlice<S> {
    /// Whether the clip is of the format `S`.
    spec fn holds(&self) -> bool;

    /// The samples of a clip of the format `S`.
    spec fn samples(&self) -> Seq<S>;

    /// The samples of the clip, which must be of the format `S`.
    fn as_sample_slice(&self) -> (r: &[S])
        requires
            self.holds(),
        ensures
            r@ == self.samples(),
    ;
}

impl AsSampleSlice<i16> for SampleBuffer {
    open spec fn holds(&self) -> bool {
        self is I16
    }

    open spec fn samples(&self) -> Seq<i16> {
        match self {
            SampleBuffer::I16(buf) => buf@,
            _ => Seq::empty(),
        }
    }

    fn as_sample_slice(&self) -> (r: &[i16]) {
        match self {
            SampleBuffer::I16(buf) => buf.as_slice(),
            _ => unreached(),
        }
    }
}

impl AsSampleSlice<u16> for SampleBuffer {
    open spec fn holds(&self) -> bool {
        self is U16
    }

    open spec fn samples(&self) -> Seq<u16> {
        match self {
            SampleBuffer::U16(buf) => buf@,
            _ => Seq::empty(),
        }
    }

    fn as_sample_slice(&self) -> (r: &[u16]) {
        match self {
            SampleBuffer::U16(buf) => buf.as_slice(),
            _ => unreached(),
        }
    }
}

impl AsSampleSlice<F32Bits> for SampleBuffer {
    open spec fn holds(&self) -> bool {
        self is F32
    }

    open spec fn samples(&self) -> Seq<F32Bits> {
        match self {
            SampleBuffer::F32(buf) => buf@,
            _ => Seq::empty(),
        }
    }

    fn as_sample_slice(&self) -> (r: &[F32Bits]) {
        match self {
            SampleBuffer::F32(buf) => buf.as_slice(),
            _ => unreached(),
        }
    }
}

/// The marks of a sample format: the sample of silence, the smallest and
/// the largest sample, and the largest distance from silence.
pub trait Sample: Copy {
    /// The sample of silence.
    spec fn spec_offset() -> Self;

    /// The sample of silence.
    fn sample_offset() -> (r: Self)
        ensures
            r == Self::spec_offset(),
    ;

    /// The smallest sample.
    spec fn spec_min() -> Self;

    /// The largest sample.
    spec fn spec_max() -> Self;

    /// The largest distance of a sample from silence.
    spec fn spec_abs_max() -> Self;

    /// The smallest sample.
    fn sample_min() -> (r: Self)
        ensures
            r == Self::spec_min(),
    ;

    /// The largest sample.
    fn sample_max() -> (r: Self)
        ensures
            r == Self::spec_max(),
    ;

    /// The largest distance of a sample from silence.
    fn sample_abs_max() -> (r: Self)
        ensures
            r == Self::spec_abs_max(),
    ;
}

impl Sample for i16 {
    open spec fn spec_offset() -> i16 {
        0
    }

    fn sample_offset() -> (r: i16) {
        0
    }

    open spec fn spec_min() -> i16 {
        i16::MIN
    }

    open spec fn spec_max() -> i16 {
        32767
    }

    open spec fn spec_abs_max() -> i16 {
        32767
    }

    fn sample_min() -> (r: i16) {
        -32768
    }

    fn sample_max() -> (r: i16) {
        32767
    }

    fn sample_abs_max() -> (r: i16) {
        32767
    }
}

impl Sample for u16 {
    open spec fn spec_offset() -> u16 {
        32768
    }

    fn sample_offset() -> (r: u16) {
        32768
    }

    open spec fn spec_min() -> u16 {
        0
    }

    open spec fn spec_max() -> u16 {
        65535
    }

    open spec fn spec_abs_max() -> u16 {
        32767
    }

    fn sample_min() -> (r: u16) {
        0
    }

    fn sample_max() -> (r: u16) {
        65535
    }

    fn sample_abs_max() -> (r: u16) {
        32767
    }
}

impl Sample for F32Bits {
    /// Zero.
    open spec fn spec_offset() -> F32Bits {
        F32Bits(0)
    }

    fn sample_offset() -> (r: F32Bits) {
        F32Bits(0)
    }

    /// Minus one.
    open spec fn spec_min() -> F32Bits {
        F32Bits(0xbf80_0000)
    }

    /// One.
    open spec fn spec_max() -> F32Bits {
        F32Bits(0x3f80_0000)
    }

    /// One.
    open spec fn spec_abs_max() -> F32Bits {
        F32Bits(0x3f80_0000)
    }

    fn sample_min() -> (r: F32Bits) {
        F32Bits(0xbf80_0000)
    }

    fn sample_max() -> (r: F32Bits) {
        F32Bits(0x3f80_0000)
    }

    fn sample_abs_max() -> (r: F32Bits) {
        F32Bits(0x3f80_0000)
    }
}

} // verus!
