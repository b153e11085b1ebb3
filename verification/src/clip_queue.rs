//! The clip queue: one audio output shared by clips of different
//! priorities.
//!
//! A clip is played in three steps: a token of the clip's priority is taken
//! from the scheduler, the clip is started on the player once the token is
//! active, and the token is given back when the player is done with the
//! clip. A clip whose token is taken away before the player took the clip
//! is not started. A clip of a higher priority gets its token at once and takes
//! the player over; the clip that was playing is cancelled before the new
//! one is rendered.
use crate::actions::wait::deadline_after;
use crate::clip_player::{ClipPlayer, Error, PlaybackPoll, PlaybackState, StartClip};
use crate::priority_scheduler::{Scheduler, SchedulerView, Token, TokenPoll};
use crate::sample_buffer::SampleBuffer;
use std::sync::Arc;
use vstd::prelude::*;

pub mod exclusive;

verus! {

/// How far the playing of a clip has come.
#[derive(Debug, Clone, Copy, PartialEq, Eq, Structural)]
pub enum PlayRun {
    /// Nothing has been done yet.
    Idle,
    /// The token waits in the queue of the scheduler.
    WaitToken { token: Token, deadline: Option<u64> },
    /// The player is to take the clip.
    StartClip { token: Token },
    /// The player renders the clip.
    Playing { token: Token, seqno: u32 },
    /// The clip has been played or given up.
    Done,
}

/// What the caller of `ClipQueue::play` is told.
#[derive(Debug)]
pub enum PlayPoll {
    /// The clip waits or plays: ask again when something has changed.
    Pending,
    /// The clip has been played, or it was given up because its time for
    /// waiting was over.
    Finished,
    /// The clip could not be played.
    Failed(Error),
}

/// The scheduler and the player of one audio output.
pub struct ClipQueue {
    pub clip_player: ClipPlayer,
    pub scheduler: Scheduler,
}

/// The clip queue as a mathematical value.
pub struct ClipQueueView {
    pub player: ClipPlayer,
    pub scheduler: SchedulerView,
}

impl View for ClipQueue {
    type V = ClipQueueView;

    open spec fn view(&self) -> ClipQueueView {
        ClipQueueView { player: self.clip_player, scheduler: self.scheduler@ }
    }
}

/// The outcome of one call of `ClipQueue::play`, as a mathematical value.
pub struct PlayStep {
    pub queue: ClipQueueView,
    pub run: PlayRun,
    /// `None` while the clip waits or plays, else how it ended.
    pub outcome: Option<Result<(), Error>>,
}

/// The player after one step of starting a clip.
pub open spec fn player_started(player: ClipPlayer, clip: Arc<SampleBuffer>) -> ClipPlayer {
    match player.state {
        PlaybackState::Ready => ClipPlayer {
            state: PlaybackState::Playing { seqno: player.next_seqno, samples: clip },
            next_seqno: crate::clip_player::next_seqno(player.next_seqno),
        },
        PlaybackState::Playing { .. } => ClipPlayer { state: PlaybackState::Cancel, ..player },
        PlaybackState::Error(_) => ClipPlayer { state: PlaybackState::Ready, ..player },
        _ => player,
    }
}

/// The player after a client has asked for the end of a clip.
pub open spec fn player_polled(player: ClipPlayer) -> ClipPlayer {
    match player.state {
        PlaybackState::Error(_) => ClipPlayer { state: PlaybackState::Ready, ..player },
        _ => player,
    }
}

impl ClipQueueView {
    pub open spec fn wf(self) -> bool {
        self.scheduler.wf()
    }

    /// The step of a clip that the player renders: it goes on while the
    /// player plays it, and ends, with the token given back, when the player
    /// has finished it, plays another clip, or has failed.
    pub open spec fn step_playing(self, token: Token, seqno: u32) -> PlayStep {
        let released = ClipQueueView {
            player: player_polled(self.player),
            scheduler: self.scheduler.released(token.id),
        };
        match self.player.state {
            PlaybackState::Error(e) => PlayStep {
                queue: released,
                run: PlayRun::Done,
                outcome: Some(Err(e)),
            },
            PlaybackState::Playing { seqno: playing, .. } => if playing == seqno {
                PlayStep { queue: self, run: PlayRun::Playing { token, seqno }, outcome: None }
            } else {
                PlayStep { queue: released, run: PlayRun::Done, outcome: Some(Ok(())) }
            },
            _ => PlayStep { queue: released, run: PlayRun::Done, outcome: Some(Ok(())) },
        }
    }

    /// The step of a clip whose token no longer waits. A clip is started
    /// only while its token is active: a clip whose token was taken away
    /// before the player took the clip ends without being played. With an
    /// active token the player takes the clip if it is ready, and is asked
    /// to cancel the clip that it plays if it is not. A player that has
    /// failed or shuts down ends the clip, with the token given back.
    pub open spec fn step_start(self, token: Token, clip: Arc<SampleBuffer>) -> PlayStep {
        if self.scheduler.is_active(token.id) {
            self.step_take(token, clip)
        } else {
            PlayStep {
                queue: ClipQueueView { scheduler: self.scheduler.released(token.id), ..self },
                run: PlayRun::Done,
                outcome: Some(Ok(())),
            }
        }
    }

    /// The step of a clip whose token is active: the player takes the clip
    /// or is asked to make room for it.
    pub open spec fn step_take(self, token: Token, clip: Arc<SampleBuffer>) -> PlayStep {
        let started = ClipQueueView { player: player_started(self.player, clip), ..self };
        let released = ClipQueueView {
            player: player_started(self.player, clip),
            scheduler: self.scheduler.released(token.id),
        };
        match self.player.state {
            PlaybackState::Ready => PlayStep {
                queue: started,
                run: PlayRun::Playing { token, seqno: self.player.next_seqno },
                outcome: None,
            },
            PlaybackState::Playing { .. } | PlaybackState::Setup | PlaybackState::Cancel => PlayStep {
                queue: started,
                run: PlayRun::StartClip { token },
                outcome: None,
            },
            PlaybackState::Error(e) => PlayStep {
                queue: released,
                run: PlayRun::Done,
                outcome: Some(Err(e)),
            },
            PlaybackState::Shutdown | PlaybackState::Done => PlayStep {
                queue: released,
                run: PlayRun::Done,
                outcome: Some(Err(Error::Shutdown)),
            },
        }
    }

    /// The step of a clip whose token waits: the clip is started when the
    /// token has become active, and given up, with the token withdrawn, when
    /// its time for waiting is over.
    pub open spec fn step_wait(
        self,
        token: Token,
        deadline: Option<u64>,
        clip: Arc<SampleBuffer>,
        now: u64,
    ) -> PlayStep {
        if !self.scheduler.is_waiting(token.id) {
            self.step_start(token, clip)
        } else if deadline matches Some(d) && now >= d {
            PlayStep {
                queue: ClipQueueView { scheduler: self.scheduler.released(token.id), ..self },
                run: PlayRun::Done,
                outcome: Some(Ok(())),
            }
        } else {
            PlayStep { queue: self, run: PlayRun::WaitToken { token, deadline }, outcome: None }
        }
    }

    /// One step of playing a clip.
    pub open spec fn step(
        self,
        run: PlayRun,
        clip: Arc<SampleBuffer>,
        priority: i32,
        timeout: Option<u64>,
        now: u64,
    ) -> PlayStep {
        match run {
            PlayRun::Idle => if self.scheduler.next_id == u32::MAX {
                PlayStep {
                    queue: self,
                    run: PlayRun::Done,
                    outcome: Some(Err(Error::Shutdown)),
                }
            } else {
                let queued = ClipQueueView { scheduler: self.scheduler.requested(priority), ..self };
                let deadline = match timeout {
                    Some(t) => Some(deadline_after(now, t)),
                    None => None,
                };
                queued.step_wait(Token { id: self.scheduler.next_id }, deadline, clip, now)
            },
            PlayRun::WaitToken { token, deadline } => self.step_wait(token, deadline, clip, now),
            PlayRun::StartClip { token } => self.step_start(token, clip),
            PlayRun::Playing { token, seqno } => self.step_playing(token, seqno),
            PlayRun::Done => PlayStep { queue: self, run: PlayRun::Done, outcome: Some(Ok(())) },
        }
    }

    /// The queue after a clip is given up: its token is given back, and the
    /// player is asked to cancel the clip if it plays it.
    pub open spec fn cancelled(self, run: PlayRun) -> ClipQueueView {
        match run {
            PlayRun::WaitToken { token, .. } => ClipQueueView {
                scheduler: self.scheduler.released(token.id),
                ..self
            },
            PlayRun::StartClip { token } => ClipQueueView {
                scheduler: self.scheduler.released(token.id),
                ..self
            },
            PlayRun::Playing { token, seqno } => ClipQueueView {
                scheduler: self.scheduler.released(token.id),
                player: if self.player.state matches PlaybackState::Playing { seqno: playing, .. }
                    && playing == seqno {
                    ClipPlayer { state: PlaybackState::Cancel, ..self.player }
                } else {
                    self.player
                },
            },
            _ => self,
        }
    }
}

/// The outcome of a call as a mathematical value.
pub open spec fn outcome_of(poll: PlayPoll) -> Option<Result<(), Error>> {
    match poll {
        PlayPoll::Pending => None,
        PlayPoll::Finished => Some(Ok(())),
        PlayPoll::Failed(e) => Some(Err(e)),
    }
}

impl ClipQueue {
    /// A clip queue for the given player, without tokens.
    pub fn new(clip_player: ClipPlayer) -> (r: ClipQueue)
        ensures
            r@.wf(),
            r@.player == clip_player,
            r@.scheduler.queue.len() == 0,
            r@.scheduler.next_id == 1,
    {
        ClipQueue { clip_player, scheduler: Scheduler::new() }
    }

    fn step_playing(&mut self, run: &mut PlayRun, token: Token, seqno: u32) -> (r: PlayPoll)
        requires
            old(self)@.wf(),
        ensures
            final(self)@.wf(),
            (PlayStep { queue: final(self)@, run: *final(run), outcome: outcome_of(r) })
                == old(self)@.step_playing(token, seqno),
    {
        match self.clip_player.poll(seqno) {
            PlaybackPoll::Pending => {
                *run = PlayRun::Playing { token, seqno };
                PlayPoll::Pending
            },
            PlaybackPoll::Finished => {
                self.scheduler.release(token.id);
                *run = PlayRun::Done;
                PlayPoll::Finished
            },
            PlaybackPoll::Failed(e) => {
                self.scheduler.release(token.id);
                *run = PlayRun::Done;
                PlayPoll::Failed(e)
            },
        }
    }

    fn step_start(&mut self, run: &mut PlayRun, token: Token, clip: &Arc<SampleBuffer>) -> (r:
        PlayPoll)
        requires
            old(self)@.wf(),
        ensures
            final(self)@.wf(),
            (PlayStep { queue: final(self)@, run: *final(run), outcome: outcome_of(r) })
                == old(self)@.step_start(token, *clip),
    {
        if !self.scheduler.is_active(token.id) {
            self.scheduler.release(token.id);
            *run = PlayRun::Done;
            return PlayPoll::Finished;
        }
        match self.clip_player.start_clip(clip) {
            StartClip::Started { seqno } => {
                *run = PlayRun::Playing { token, seqno };
                PlayPoll::Pending
            },
            StartClip::Wait => {
                *run = PlayRun::StartClip { token };
                PlayPoll::Pending
            },
            StartClip::Failed(e) => {
                self.scheduler.release(token.id);
                *run = PlayRun::Done;
                PlayPoll::Failed(e)
            },
        }
    }

    fn step_wait(
        &mut self,
        run: &mut PlayRun,
        token: Token,
        deadline: Option<u64>,
        clip: &Arc<SampleBuffer>,
        now: u64,
    ) -> (r: PlayPoll)
        requires
            old(self)@.wf(),
        ensures
            final(self)@.wf(),
            (PlayStep { queue: final(self)@, run: *final(run), outcome: outcome_of(r) })
                == old(self)@.step_wait(token, deadline, *clip, now),
    {
        match self.scheduler.poll_token(&token, now, deadline) {
            TokenPoll::Ready => self.step_start(run, token, clip),
            TokenPoll::Waiting => {
                *run = PlayRun::WaitToken { token, deadline };
                PlayPoll::Pending
            },
            TokenPoll::TimedOut => {
                *run = PlayRun::Done;
                PlayPoll::Finished
            },
        }
    }

    /// Takes the playing of a clip one step further and tells how far it
    /// has come. `run` keeps the state of the playing between the calls; it
    /// starts as `PlayRun::Idle`. A clip whose token is still waiting
    /// `timeout` milliseconds after the first call is given up.
    pub fn play(
        &mut self,
        run: &mut PlayRun,
        samples: &Arc<SampleBuffer>,
        priority: i32,
        timeout: Option<u64>,
        now: u64,
    ) -> (r: PlayPoll)
        requires
            old(self)@.wf(),
        ensures
            final(self)@.wf(),
            (PlayStep { queue: final(self)@, run: *final(run), outcome: outcome_of(r) })
                == old(self)@.step(*old(run), *samples, priority, timeout, now),
    {
        match *run {
            PlayRun::Idle => {
                match self.scheduler.try_get_token(priority) {
                    Some(grant) => {
                        let deadline = match timeout {
                            Some(t) => Some(now.saturating_add(t)),
                            None => None,
                        };
                        self.step_wait(run, grant.token, deadline, samples, now)
                    },
                    None => {
                        *run = PlayRun::Done;
                        PlayPoll::Failed(Error::Shutdown)
                    },
                }
            },
            PlayRun::WaitToken { token, deadline } => self.step_wait(
                run,
                token,
                deadline,
                samples,
                now,
            ),
            PlayRun::StartClip { token } => self.step_start(run, token, samples),
            PlayRun::Playing { token, seqno } => self.step_playing(run, token, seqno),
            PlayRun::Done => PlayPoll::Finished,
        }
    }

    /// Gives a clip up: its token goes back to the scheduler, and the player
    /// is asked to cancel the clip if it plays it.
    pub fn cancel(&mut self, run: &mut PlayRun)
        requires
            old(self)@.wf(),
        ensures
            final(self)@.wf(),
            final(self)@ == old(self)@.cancelled(*old(run)),
            *final(run) == PlayRun::Done,
    {
        match *run {
            PlayRun::WaitToken { token, .. } => {
                self.scheduler.release(token.id);
            },
            PlayRun::StartClip { token } => {
                self.scheduler.release(token.id);
            },
            PlayRun::Playing { token, seqno } => {
                self.clip_player.cancel(seqno);
                self.scheduler.release(token.id);
            },
            _ => {},
        }
        *run = PlayRun::Done;
    }
}

/// At any time at most one token holds the audio output and at most one
/// clip is rendered.
pub proof fn lemma_one_clip_at_a_time(q: ClipQueueView, a: u32, b: u32)
    requires
        q.wf(),
        q.scheduler.is_active(a),
        q.scheduler.is_active(b),
    ensures
        a == b,
        q.player.playing() is Some ==> q.player.state is Playing,
{
}

/// A clip of a higher priority than that of the clip that holds the audio
/// output does not wait: its token is active at once, the token of the other
/// clip has left the queue, and the player, which was rendering the other
/// clip, is asked to cancel it before anything of the new clip is rendered.
pub proof fn lemma_higher_priority_takes_over(
    q: ClipQueueView,
    clip: Arc<SampleBuffer>,
    priority: i32,
    now: u64,
)
    requires
        q.wf(),
        q.scheduler.queue.len() > 0,
        priority > q.scheduler.queue[0].priority,
        q.scheduler.next_id < u32::MAX,
        q.player.state is Playing,
    ensures
        ({
            let s = q.step(PlayRun::Idle, clip, priority, None, now);
            &&& s.queue.scheduler.is_active(q.scheduler.next_id)
            &&& s.queue.scheduler.is_released(q.scheduler.queue[0].id)
            &&& s.queue.player.state is Cancel
            &&& s.run == (PlayRun::StartClip { token: Token { id: q.scheduler.next_id } })
            &&& s.outcome is None
        }),
{
    crate::priority_scheduler::lemma_higher_priority_preempts(
        q.scheduler,
        q.scheduler.queue[0].id,
        priority,
    );
    let after = q.scheduler.requested(priority);
    crate::priority_scheduler::lemma_find_id(after.queue, q.scheduler.next_id);
}

/// The clip whose place was taken ends at the next step of its own: once
/// the player no longer renders it, its playing is finished, without
/// failure.
pub proof fn lemma_superseded_clip_finishes(q: ClipQueueView, token: Token, seqno: u32)
    requires
        q.wf(),
        q.player.state is Ready || q.player.state is Cancel || (
        q.player.state matches PlaybackState::Playing { seqno: other, .. } && other != seqno),
    ensures
        q.step_playing(token, seqno).outcome == Some(Ok::<(), Error>(())),
        q.step_playing(token, seqno).run == PlayRun::Done,
{
}

} // verus!
