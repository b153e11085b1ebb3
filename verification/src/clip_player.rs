//! The clip player: the state that a client and the render callback of the
//! audio stream share, and every decision that either of them takes on it.
//!
//! The player renders one clip at a time. A client starts a clip when the
//! player is ready; while a clip is playing it first asks for it to be
//! cancelled and waits until the render callback has done so. The callback
//! copies the samples of the playing clip to the output and silence in every
//! other state.
//!
//! Nothing here waits or blocks. Where a client has to wait for the render
//! callback, the functions say so and the caller waits for the next change
//! of the state.
use crate::sample_buffer::{share, AsSampleSlice, Sample, SampleBuffer};
use crate::text::{decimal_text, u64_to_string};
use std::sync::Arc;
use vstd::prelude::*;
use vstd::string::*;

verus! {

/// The sample formats of a playback device.
#[derive(Debug, Clone, Copy, PartialEq, Eq, Structural)]
pub enum SampleFormat {
    I16,
    U16,
    F32,
}

/// A range of configurations that a playback device supports.
#[derive(Debug, Clone, Copy, PartialEq, Eq, Structural)]
pub struct SupportedStreamConfigRange {
    pub channels: u16,
    pub min_sample_rate: u32,
    pub max_sample_rate: u32,
    pub sample_format: SampleFormat,
}

/// Why a clip could not be played. The errors of the audio backend are kept
/// as their messages.
#[derive(Debug)]
pub enum Error {
    Devices(String),
    Name(String),
    BuildStream(String),
    PlayStream(String),
    SupportedConfig(String),
    NoMatchinConfig(String),
    ClipPlayer(String),
    Shutdown,
}

impl Error {
    /// The message of the error.
    pub open spec fn text(&self) -> Seq<char> {
        match self {
            Error::Devices(e) => e@,
            Error::Name(e) => e@,
            Error::BuildStream(e) => e@,
            Error::PlayStream(e) => e@,
            Error::SupportedConfig(e) => e@,
            Error::NoMatchinConfig(e) => e@,
            Error::ClipPlayer(e) => e@,
            Error::Shutdown => "Playback thread shutdown"@,
        }
    }

    /// The message of the error.
    pub fn to_string(&self) -> (s: String)
        ensures
            s@ == self.text(),
    {
        match self {
            Error::Devices(e) => e.clone(),
            Error::Name(e) => e.clone(),
            Error::BuildStream(e) => e.clone(),
            Error::PlayStream(e) => e.clone(),
            Error::SupportedConfig(e) => e.clone(),
            Error::NoMatchinConfig(e) => e.clone(),
            Error::ClipPlayer(e) => e.clone(),
            Error::Shutdown => "Playback thread shutdown".to_owned(),
        }
    }

    /// A copy of the error.
    pub fn duplicate(&self) -> (r: Error)
        ensures
            r == *self,
    {
        match self {
            Error::Devices(e) => Error::Devices(e.clone()),
            Error::Name(e) => Error::Name(e.clone()),
            Error::BuildStream(e) => Error::BuildStream(e.clone()),
            Error::PlayStream(e) => Error::PlayStream(e.clone()),
            Error::SupportedConfig(e) => Error::SupportedConfig(e.clone()),
            Error::NoMatchinConfig(e) => Error::NoMatchinConfig(e.clone()),
            Error::ClipPlayer(e) => Error::ClipPlayer(e.clone()),
            Error::Shutdown => Error::Shutdown,
        }
    }
}

/// Whether a range of configurations holds the sample rate.
pub open spec fn spec_supports_samplerate(conf: SupportedStreamConfigRange, rate: u32) -> bool {
    conf.min_sample_rate <= rate && conf.max_sample_rate >= rate
}

/// Whether a range of configurations holds the sample rate.
pub fn supports_samplerate(conf: &SupportedStreamConfigRange, rate: u32) -> (r: bool)
    ensures
        r == spec_supports_samplerate(*conf, rate),
{
    conf.min_sample_rate <= rate && conf.max_sample_rate >= rate
}

/// Whether a configuration fits what is asked for better than the best one
/// so far: it has the right number of channels and that one has not, or it
/// holds the sample rate and that one does not, or it has the sample format
/// and that one has not.
pub open spec fn fits_better(
    conf: SupportedStreamConfigRange,
    prev: SupportedStreamConfigRange,
    rate: u32,
    channels: u16,
    format: SampleFormat,
) -> bool {
    ||| conf.channels == channels && prev.channels != channels
    ||| spec_supports_samplerate(conf, rate) && !spec_supports_samplerate(prev, rate)
    ||| conf.sample_format == format && prev.sample_format != format
}

/// The position of the configuration that fits best among the first `n`:
/// the first one, replaced in turn by every later one that fits better than
/// the best before it.
pub open spec fn best_fit(
    configs: Seq<SupportedStreamConfigRange>,
    n: int,
    rate: u32,
    channels: u16,
    format: SampleFormat,
) -> Option<int>
    decreases n,
{
    if n <= 0 {
        None
    } else {
        match best_fit(configs, n - 1, rate, channels, format) {
            None => Some(n - 1),
            Some(p) => if fits_better(configs[n - 1], configs[p], rate, channels, format) {
                Some(n - 1)
            } else {
                Some(p)
            },
        }
    }
}

/// What the choice of a configuration gives: the position of the
/// configuration that fits best, if it has the channels, the sample rate and
/// the sample format that are asked for, else the first of these that it
/// lacks.
pub enum ConfigChoice {
    Chosen(int),
    NoConfiguration,
    WrongChannels,
    WrongRate,
    WrongFormat,
}

/// The choice among the configurations of a device.
pub open spec fn spec_select_config(
    configs: Seq<SupportedStreamConfigRange>,
    rate: u32,
    channels: u16,
    format: SampleFormat,
) -> ConfigChoice {
    match best_fit(configs, configs.len() as int, rate, channels, format) {
        None => ConfigChoice::NoConfiguration,
        Some(p) => if configs[p].channels != channels {
            ConfigChoice::WrongChannels
        } else if !spec_supports_samplerate(configs[p], rate) {
            ConfigChoice::WrongRate
        } else if configs[p].sample_format != format {
            ConfigChoice::WrongFormat
        } else {
            ConfigChoice::Chosen(p)
        },
    }
}

/// Chooses the configuration of the playback device for a sample rate, a
/// number of channels and a sample format.
pub fn select_config(
    configs: &Vec<SupportedStreamConfigRange>,
    rate: u32,
    channels: u8,
    format: SampleFormat,
) -> (r: Result<usize, Error>)
    ensures
        match spec_select_config(configs@, rate, channels as u16, format) {
            ConfigChoice::Chosen(p) => r == Ok::<usize, Error>(p as usize) && p < configs@.len(),
            ConfigChoice::NoConfiguration => r matches Err(Error::NoMatchinConfig(m)) && m@
                == "No suitable configuration found"@,
            ConfigChoice::WrongChannels => r matches Err(Error::NoMatchinConfig(m)) && m@
                == "No configuration with "@ + decimal_text(channels as int)
                + " channels found"@,
            ConfigChoice::WrongRate => r matches Err(Error::NoMatchinConfig(m)) && m@
                == "No configuration that supports "@ + decimal_text(rate as int)
                + " samples/s found"@,
            ConfigChoice::WrongFormat => r matches Err(Error::NoMatchinConfig(m)) && m@
                == "No configuration with signed 16-bit format found"@,
        },
{
    let wanted = channels as u16;
    let mut best: Option<usize> = None;
    let mut i: usize = 0;
    while i < configs.len()
        invariant
            i <= configs.len(),
            wanted == channels as u16,
            match best {
                Some(p) => best_fit(configs@, i as int, rate, wanted, format) == Some(p as int)
                    && p < i,
                None => best_fit(configs@, i as int, rate, wanted, format) is None,
            },
        decreases configs.len() - i,
    {
        let conf = configs[i];
        match best {
            Some(p) => {
                let prev = configs[p];
                if (conf.channels == wanted && prev.channels != wanted) || (supports_samplerate(
                    &conf,
                    rate,
                ) && !supports_samplerate(&prev, rate)) || (conf.sample_format == format
                    && prev.sample_format != format) {
                    best = Some(i);
                }
            },
            None => {
                best = Some(i);
            },
        }
        i += 1;
    }
    let p = match best {
        Some(p) => p,
        None => {
            return Err(Error::NoMatchinConfig("No suitable configuration found".to_owned()));
        },
    };
    let chosen = configs[p];
    if chosen.channels != wanted {
        let mut m = "No configuration with ".to_owned();
        let digits = u64_to_string(channels as u64);
        m.append(digits.as_str());
        m.append(" channels found");
        return Err(Error::NoMatchinConfig(m));
    }
    if !supports_samplerate(&chosen, rate) {
        let mut m = "No configuration that supports ".to_owned();
        let digits = u64_to_string(rate as u64);
        m.append(digits.as_str());
        m.append(" samples/s found");
        return Err(Error::NoMatchinConfig(m));
    }
    if chosen.sample_format != format {
        return Err(
            Error::NoMatchinConfig("No configuration with signed 16-bit format found".to_owned()),
        );
    }
    Ok(p)
}

/// The state of the player.
#[derive(Debug)]
pub enum PlaybackState {
    /// The audio stream is being set up.
    Setup,
    /// A clip can be started.
    Ready,
    /// The clip is being rendered.
    Playing { seqno: u32, samples: Arc<SampleBuffer> },
    /// A client asks for the playing clip to be cancelled.
    Cancel,
    /// The audio stream has failed.
    Error(Error),
    /// A client asks for the player to shut down.
    Shutdown,
    /// The player has shut down.
    Done,
}

/// What the output holds after a clip has been rendered from the position
/// `start` into a buffer of `n` samples: the samples of the clip from there
/// on, then silence.
pub open spec fn rendered<S>(samples: Seq<S>, start: int, n: nat, silence: S) -> Seq<S> {
    Seq::new(
        n,
        |i: int|
            if start + i < samples.len() {
                samples[start + i]
            } else {
                silence
            },
    )
}

/// A buffer of silence.
pub open spec fn silent<S>(n: nat, silence: S) -> Seq<S> {
    Seq::new(n, |i: int| silence)
}

/// The position in a clip from which the next buffer is rendered: the
/// beginning, if the clip was not rendered before or was rendered to its end,
/// else the position reached.
pub open spec fn render_start(seqno: u32, len: nat, current_seqno: u32, pos: usize) -> int {
    if seqno != current_seqno || pos >= len {
        0
    } else {
        pos as int
    }
}

/// What the audio stream makes of the state of the player when it fills a
/// buffer: it goes on with the clip that is playing or ends it, it gives up
/// a clip that is to be cancelled, and it leaves every other state as it
/// is. It never starts a clip.
pub open spec fn render_step(before: PlaybackState, after: PlaybackState) -> bool {
    match before {
        PlaybackState::Playing { .. } => after == before || after is Ready,
        PlaybackState::Cancel => after is Ready,
        _ => after == before,
    }
}

/// Fills a buffer of the audio stream. While a clip is playing, the buffer
/// gets the next samples of the clip; a clip that ends within the buffer is
/// followed by silence, and the player is ready again. In every other state
/// the buffer gets silence. A clip that is to be cancelled is given up, and
/// the player is ready again.
///
/// `current_seqno` and `pos` are the memory of the render callback: the clip
/// that it rendered last and the position that it reached in it.
pub fn generate_samples<S: Sample>(
    state: &mut PlaybackState,
    buffer: &mut [S],
    current_seqno: &mut u32,
    pos: &mut usize,
) where SampleBuffer: AsSampleSlice<S>
    requires
        *old(state) matches PlaybackState::Playing { samples, .. } ==> (*samples).holds(),
    ensures
        final(buffer)@.len() == old(buffer)@.len(),
        render_step(*old(state), *final(state)),
        match *old(state) {
            PlaybackState::Playing { seqno, samples } => {
                let clip = (*samples).samples();
                let start = render_start(seqno, clip.len(), *old(current_seqno), *old(pos));
                let end = start + old(buffer)@.len();
                &&& final(buffer)@ == rendered(clip, start, old(buffer)@.len(), S::spec_offset())
                &&& *final(current_seqno) == seqno
                &&& if end >= clip.len() {
                    *final(pos) == 0 && *final(state) is Ready
                } else {
                    *final(pos) == end && *final(state) == *old(state)
                }
            },
            PlaybackState::Cancel => {
                &&& final(buffer)@ == silent(old(buffer)@.len(), S::spec_offset())
                &&& *final(pos) == 0
                &&& *final(current_seqno) == *old(current_seqno)
                &&& *final(state) is Ready
            },
            _ => {
                &&& final(buffer)@ == silent(old(buffer)@.len(), S::spec_offset())
                &&& *final(pos) == *old(pos)
                &&& *final(current_seqno) == *old(current_seqno)
                &&& *final(state) == *old(state)
            },
        },
{
    let n = buffer.len();
    let silence = S::sample_offset();
    let mut finished = false;
    match state {
        PlaybackState::Playing { seqno, samples } => {
            let clip: &[S] = (**samples).as_sample_slice();
            let len = clip.len();
            if *seqno != *current_seqno {
                *current_seqno = *seqno;
                *pos = 0;
            }
            if *pos >= len {
                *pos = 0;
            }
            let start = *pos;
            let mut i: usize = 0;
            while i < n
                invariant
                    i <= n,
                    n == buffer@.len(),
                    len == clip@.len(),
                    start <= len,
                    silence == S::spec_offset(),
                    forall|k: int|
                        0 <= k < i ==> buffer@[k] == rendered(
                            clip@,
                            start as int,
                            n as nat,
                            silence,
                        )[k],
                decreases n - i,
            {
                if i < len - start {
                    buffer[i] = clip[start + i];
                } else {
                    buffer[i] = silence;
                }
                i += 1;
            }
            proof {
                assert(buffer@ =~= rendered(clip@, start as int, n as nat, silence));
            }
            if len - start <= n {
                *pos = 0;
                finished = true;
            } else {
                *pos = start + n;
            }
        },
        PlaybackState::Cancel => {
            fill(buffer, silence);
            *pos = 0;
            finished = true;
        },
        _ => {
            fill(buffer, silence);
        },
    }
    if finished {
        *state = PlaybackState::Ready;
    }
}

/// Fills a buffer with one sample.
fn fill<S: Copy>(buffer: &mut [S], value: S)
    ensures
        final(buffer)@ == silent(old(buffer)@.len(), value),
{
    let n = buffer.len();
    let mut i: usize = 0;
    while i < n
        invariant
            i <= n,
            n == buffer@.len(),
            forall|k: int| 0 <= k < i ==> buffer@[k] == value,
        decreases n - i,
    {
        buffer[i] = value;
        i += 1;
    }
    proof {
        assert(buffer@ =~= silent(n as nat, value));
    }
}

/// What a client that wants to start a clip is told.
#[derive(Debug)]
pub enum StartClip {
    /// The clip is playing under the given number.
    Started { seqno: u32 },
    /// The player is busy: wait for the state to change and ask again.
    Wait,
    /// The clip cannot be played.
    Failed(Error),
}

/// What a client that waits for the end of its clip is told.
#[derive(Debug)]
pub enum PlaybackPoll {
    /// The clip is still playing.
    Pending,
    /// The clip has been played to its end, or another clip has taken its
    /// place.
    Finished,
    /// The audio stream has failed.
    Failed(Error),
}

/// The player: its state and the number of the next clip.
#[derive(Debug)]
pub struct ClipPlayer {
    pub state: PlaybackState,
    pub next_seqno: u32,
}

/// The number after `n`, starting again at zero after the largest.
pub open spec fn next_seqno(n: u32) -> u32 {
    if n == u32::MAX {
        0
    } else {
        (n + 1) as u32
    }
}

impl ClipPlayer {
    /// A player whose audio stream is being set up. The first clip gets the
    /// number 1.
    pub fn new() -> (r: ClipPlayer)
        ensures
            r.state is Setup,
            r.next_seqno == 1,
    {
        ClipPlayer { state: PlaybackState::Setup, next_seqno: 1 }
    }

    /// Records that the audio stream runs: the player is ready.
    pub fn stream_started(&mut self)
        ensures
            final(self).state is Ready,
            final(self).next_seqno == old(self).next_seqno,
    {
        self.state = PlaybackState::Ready;
    }

    /// One step of starting a clip. A ready player starts the clip. A
    /// player that plays another clip is asked to cancel it, and the client
    /// has to wait, as it has while the player is set up or cancels. A
    /// failure of the audio stream is handed to the client and the player is
    /// ready again; a player that shuts down refuses.
    pub fn start_clip(&mut self, clip: &Arc<SampleBuffer>) -> (r: StartClip)
        ensures
            match old(self).state {
                PlaybackState::Ready => {
                    &&& r matches StartClip::Started { seqno } && seqno == old(self).next_seqno
                    &&& final(self).state == (PlaybackState::Playing {
                        seqno: old(self).next_seqno,
                        samples: *clip,
                    })
                    &&& final(self).next_seqno == next_seqno(old(self).next_seqno)
                },
                PlaybackState::Playing { .. } => {
                    &&& r is Wait
                    &&& final(self).state is Cancel
                    &&& final(self).next_seqno == old(self).next_seqno
                },
                PlaybackState::Setup | PlaybackState::Cancel => r is Wait && *final(self) == *old(
                    self,
                ),
                PlaybackState::Error(e) => {
                    &&& r matches StartClip::Failed(f) && f == e
                    &&& final(self).state is Ready
                    &&& final(self).next_seqno == old(self).next_seqno
                },
                PlaybackState::Shutdown | PlaybackState::Done => {
                    &&& r matches StartClip::Failed(f) && f is Shutdown
                    &&& *final(self) == *old(self)
                },
            },
    {
        match &self.state {
            PlaybackState::Setup | PlaybackState::Cancel => StartClip::Wait,
            PlaybackState::Playing { .. } => {
                self.state = PlaybackState::Cancel;
                StartClip::Wait
            },
            PlaybackState::Ready => {
                let seqno = self.next_seqno;
                self.next_seqno = self.next_seqno.wrapping_add(1);
                self.state = PlaybackState::Playing { seqno, samples: share(clip) };
                StartClip::Started { seqno }
            },
            PlaybackState::Error(e) => {
                let err = e.duplicate();
                self.state = PlaybackState::Ready;
                StartClip::Failed(err)
            },
            PlaybackState::Shutdown | PlaybackState::Done => StartClip::Failed(Error::Shutdown),
        }
    }

    /// Tells the client that started the clip `seqno` whether the clip is
    /// still playing. A failure of the audio stream is handed to the client
    /// and the player is ready again.
    pub fn poll(&mut self, seqno: u32) -> (r: PlaybackPoll)
        ensures
            final(self).next_seqno == old(self).next_seqno,
            match old(self).state {
                PlaybackState::Error(e) => (r matches PlaybackPoll::Failed(f) && f == e)
                    && final(self).state is Ready,
                PlaybackState::Playing { seqno: playing, .. } => final(self).state == old(
                    self,
                ).state && if playing == seqno {
                    r is Pending
                } else {
                    r is Finished
                },
                _ => r is Finished && final(self).state == old(self).state,
            },
    {
        match &self.state {
            PlaybackState::Error(e) => {
                let err = e.duplicate();
                self.state = PlaybackState::Ready;
                PlaybackPoll::Failed(err)
            },
            PlaybackState::Playing { seqno: playing, .. } => {
                if *playing == seqno {
                    PlaybackPoll::Pending
                } else {
                    PlaybackPoll::Finished
                }
            },
            _ => PlaybackPoll::Finished,
        }
    }

    /// Gives up the clip `seqno`: if it is playing, the player is asked to
    /// cancel it.
    pub fn cancel(&mut self, seqno: u32)
        ensures
            final(self).next_seqno == old(self).next_seqno,
            final(self).state == if old(self).state matches PlaybackState::Playing {
                seqno: playing,
                ..
            } && playing == seqno {
                PlaybackState::Cancel
            } else {
                old(self).state
            },
    {
        let playing = match &self.state {
            PlaybackState::Playing { seqno: playing, .. } => *playing == seqno,
            _ => false,
        };
        if playing {
            self.state = PlaybackState::Cancel;
        }
    }

    /// One step of shutting the player down: tells whether the player has
    /// shut down. If not, the player is asked to, and the client has to wait
    /// for the state to change.
    pub fn shutdown(&mut self) -> (done: bool)
        ensures
            final(self).next_seqno == old(self).next_seqno,
            done == (old(self).state is Done),
            final(self).state == if old(self).state is Done {
                PlaybackState::Done
            } else {
                PlaybackState::Shutdown
            },
    {
        match &self.state {
            PlaybackState::Done => true,
            PlaybackState::Shutdown => false,
            _ => {
                self.state = PlaybackState::Shutdown;
                false
            },
        }
    }

    /// One step of the thread that keeps the audio stream: when the player
    /// is asked to shut down, it has shut down, and the thread ends.
    pub fn playback_thread(&mut self) -> (exit: bool)
        ensures
            final(self).next_seqno == old(self).next_seqno,
            exit == (old(self).state is Shutdown),
            final(self).state == if old(self).state is Shutdown {
                PlaybackState::Done
            } else {
                old(self).state
            },
    {
        let asked = match &self.state {
            PlaybackState::Shutdown => true,
            _ => false,
        };
        if asked {
            self.state = PlaybackState::Done;
        }
        asked
    }

    /// The clip that is playing, if any. At no time is there more than one.
    pub open spec fn playing(&self) -> Option<u32> {
        match self.state {
            PlaybackState::Playing { seqno, .. } => Some(seqno),
            _ => None,
        }
    }
}

impl PlaybackState {
    /// A word for the state.
    pub open spec fn text(&self) -> Seq<char> {
        match self {
            PlaybackState::Setup => "Setup"@,
            PlaybackState::Ready => "Ready"@,
            PlaybackState::Playing { seqno, samples } => "Playing(Seq: "@ + decimal_text(
                *seqno as int,
            ) + ", Len: "@ + decimal_text((**samples).spec_len() as int),
            PlaybackState::Cancel => "Cancel"@,
            PlaybackState::Error(e) => "Error("@ + e.text() + ")"@,
            PlaybackState::Shutdown => "Shutdown"@,
            PlaybackState::Done => "Done"@,
        }
    }

    /// A word for the state.
    pub fn to_string(&self) -> (s: String)
        ensures
            s@ == self.text(),
    {
        match self {
            PlaybackState::Setup => "Setup".to_owned(),
            PlaybackState::Ready => "Ready".to_owned(),
            PlaybackState::Playing { seqno, samples } => {
                let mut s = "Playing(Seq: ".to_owned();
                let number = u64_to_string(*seqno as u64);
                s.append(number.as_str());
                s.append(", Len: ");
                let len = u64_to_string((**samples).len() as u64);
                s.append(len.as_str());
                s
            },
            PlaybackState::Cancel => "Cancel".to_owned(),
            PlaybackState::Error(e) => {
                let mut s = "Error(".to_owned();
                let m = e.to_string();
                s.append(m.as_str());
                s.append(")");
                s
            },
            PlaybackState::Shutdown => "Shutdown".to_owned(),
            PlaybackState::Done => "Done".to_owned(),
        }
    }
}

} // verus!
