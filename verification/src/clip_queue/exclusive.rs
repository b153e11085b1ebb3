//! One clip at a time, and that of the holder of the audio output.
//!
//! Any number of clips may be under way on one clip queue, each with its
//! own run, stepped in any order, while the audio stream renders. The
//! law of this file holds before and after every one of these steps: the
//! clip that the player renders belongs to the run whose token is active,
//! and to no other run.
use crate::clip_player::{render_step, ClipPlayer, Error, PlaybackState};
use crate::clip_queue::{ClipQueueView, PlayRun, PlayStep};
use crate::priority_scheduler::{
    distinct_ids, insert_index, lemma_find_id, lemma_insert_index, ordered, spec_find_id,
    SchedulerView, Token, TokenState,
};
use crate::sample_buffer::SampleBuffer;
use std::sync::Arc;
use vstd::prelude::*;

verus! {

/// The token that a run holds.
pub open spec fn token_of(run: PlayRun) -> Option<u32> {
    match run {
        PlayRun::WaitToken { token, .. } => Some(token.id),
        PlayRun::StartClip { token } => Some(token.id),
        PlayRun::Playing { token, .. } => Some(token.id),
        _ => None,
    }
}

/// The number of the clip that a run had the player take.
pub open spec fn seqno_of(run: PlayRun) -> Option<u32> {
    match run {
        PlayRun::Playing { seqno, .. } => Some(seqno),
        _ => None,
    }
}

/// The player renders the clip of the run.
pub open spec fn renders(q: ClipQueueView, run: PlayRun) -> bool {
    seqno_of(run) is Some && q.player.playing() == seqno_of(run)
}

/// What holds of a clip queue and the runs on it at all times:
/// every token that a run holds was handed out by the scheduler, no two
/// runs hold the same token, every clip number that a run holds was handed
/// out by the player, and the run whose clip the player renders holds the
/// active token.
pub open spec fn exclusive(q: ClipQueueView, runs: Seq<PlayRun>) -> bool {
    &&& q.wf()
    &&& forall|i: int|
        0 <= i < runs.len() ==> (token_of(#[trigger] runs[i]) matches Some(t) ==> t
            < q.scheduler.next_id)
    &&& forall|i: int, k: int|
        0 <= i < k < runs.len() && token_of(runs[i]) is Some ==> token_of(runs[i]) != token_of(
            runs[k],
        )
    &&& forall|i: int|
        0 <= i < runs.len() ==> (seqno_of(#[trigger] runs[i]) matches Some(n) ==> n
            < q.player.next_seqno)
    &&& forall|i: int|
        0 <= i < runs.len() && renders(q, #[trigger] runs[i]) ==> q.scheduler.is_active(
            token_of(runs[i])->0,
        )
}

/// A request leaves the scheduler well formed. The new token is in the
/// queue, and unless it is active, the active token is the one that was.
pub proof fn lemma_requested(s: SchedulerView, priority: i32)
    requires
        s.wf(),
        s.next_id < u32::MAX,
    ensures
        s.requested(priority).wf(),
        s.requested(priority).next_id == s.next_id + 1,
        !s.requested(priority).is_released(s.next_id),
        !s.requested(priority).is_active(s.next_id) ==> forall|x: u32|
            s.is_active(x) ==> #[trigger] s.requested(priority).is_active(x),
{
    let r = s.requested(priority);
    let token = TokenState { id: s.next_id, priority };
    if s.preempted_by(priority) is Some {
        assert(r.queue == s.queue.update(0, token));
        assert(ordered(r.queue)) by {
            assert forall|i: int, j: int| 0 <= i <= j < r.queue.len() implies r.queue[i].priority
                >= r.queue[j].priority by {
                if j > 0 {
                    assert(s.queue[0].priority >= s.queue[j].priority);
                    if i > 0 {
                        assert(s.queue[i].priority >= s.queue[j].priority);
                    }
                }
            }
        }
        assert(r.queue[0].id == s.next_id);
        lemma_find_id(r.queue, s.next_id);
    } else {
        let k = insert_index(s.queue, priority);
        lemma_insert_index(s.queue, priority);
        assert(r.queue == s.queue.insert(k, token));
        assert(r.queue[k] == token);
        assert forall|i: int| 0 <= i < r.queue.len() && i != k implies (#[trigger] r.queue[i])
            == s.queue[if i < k {
            i
        } else {
            i - 1
        }] by {}
        assert(ordered(r.queue)) by {
            assert forall|i: int, j: int| 0 <= i <= j < r.queue.len() implies r.queue[i].priority
                >= r.queue[j].priority by {
                let a = if i < k { i } else { i - 1 };
                let b = if j < k { j } else { j - 1 };
                if i != k && j != k {
                    assert(r.queue[i] == s.queue[a]);
                    assert(r.queue[j] == s.queue[b]);
                    assert(s.queue[a].priority >= s.queue[b].priority);
                } else if i == k && j != k {
                    assert(r.queue[j] == s.queue[b]);
                } else if j == k && i != k {
                    assert(r.queue[i] == s.queue[a]);
                }
            }
        }
        assert(distinct_ids(r.queue)) by {
            assert forall|i: int, j: int| 0 <= i < j < r.queue.len() implies r.queue[i].id
                != r.queue[j].id by {
                let a = if i < k { i } else { i - 1 };
                let b = if j < k { j } else { j - 1 };
                if i != k {
                    assert(r.queue[i] == s.queue[a]);
                }
                if j != k {
                    assert(r.queue[j] == s.queue[b]);
                }
            }
        }
        assert forall|i: int| 0 <= i < r.queue.len() implies (#[trigger] r.queue[i]).id
            < r.next_id by {
            if i != k {
                let a = if i < k { i } else { i - 1 };
                assert(r.queue[i] == s.queue[a]);
            }
        }
        lemma_find_id(r.queue, s.next_id);
        if k > 0 {
            assert(r.queue[0] == s.queue[0]);
        }
    }
}

/// A release leaves the scheduler well formed, and a token that was active
/// stays active when another token is released.
pub proof fn lemma_released(s: SchedulerView, id: u32)
    requires
        s.wf(),
    ensures
        s.released(id).wf(),
        s.released(id).next_id == s.next_id,
        forall|x: u32| x != id && s.is_active(x) ==> #[trigger] s.released(id).is_active(x),
{
    lemma_find_id(s.queue, id);
    match spec_find_id(s.queue, id) {
        Some(i) => {
            let r = s.released(id);
            assert(r.queue == s.queue.remove(i));
            assert forall|a: int| 0 <= a < r.queue.len() implies (#[trigger] r.queue[a])
                == s.queue[if a < i {
                a
            } else {
                a + 1
            }] by {}
            assert(ordered(r.queue)) by {
                assert forall|a: int, b: int| 0 <= a <= b < r.queue.len() implies r.queue[a].priority
                    >= r.queue[b].priority by {
                    let x = if a < i { a } else { a + 1 };
                    let y = if b < i { b } else { b + 1 };
                    assert(r.queue[a] == s.queue[x]);
                    assert(r.queue[b] == s.queue[y]);
                    assert(s.queue[x].priority >= s.queue[y].priority);
                }
            }
            assert(distinct_ids(r.queue)) by {
                assert forall|a: int, b: int| 0 <= a < b < r.queue.len() implies r.queue[a].id
                    != r.queue[b].id by {
                    let x = if a < i { a } else { a + 1 };
                    let y = if b < i { b } else { b + 1 };
                    assert(r.queue[a] == s.queue[x]);
                    assert(r.queue[b] == s.queue[y]);
                }
            }
            assert forall|x: u32| x != id && s.is_active(x) implies #[trigger] r.is_active(x) by {
                assert(i != 0);
                assert(r.queue[0] == s.queue[0]);
            }
        },
        None => {},
    }
}

/// What one step of a run that holds the token `own`, or none, does to the
/// queue `q`:
/// the scheduler and the player hand out what they handed out before and at
/// most one clip number more; the run keeps its token or ends; a clip that
/// the player takes gets the next clip number and is taken for the active
/// token; and the player renders after the step what it rendered before,
/// with the same token active, or the clip that it took.
pub open spec fn effect(q: ClipQueueView, own: u32, held: Option<u32>, s: PlayStep) -> bool {
    &&& s.queue.wf()
    &&& s.queue.scheduler.next_id == q.scheduler.next_id
    &&& q.player.next_seqno <= s.queue.player.next_seqno
    &&& token_of(s.run) matches Some(t) ==> t == own
    &&& seqno_of(s.run) matches Some(n) ==> seqno_of(s.run) == held || n == q.player.next_seqno
    &&& seqno_of(s.run) is Some && seqno_of(s.run) != held ==> s.queue.player.next_seqno
        == q.player.next_seqno + 1
    &&& renders(s.queue, s.run) ==> s.queue.scheduler.is_active(own) || (renders(q, s.run)
        && seqno_of(s.run) == held)
    &&& s.queue.player.playing() matches Some(p) ==> (p == q.player.next_seqno && seqno_of(
        s.run,
    ) == Some(p) && seqno_of(s.run) != held) || (q.player.playing() == Some(p) && forall|x: u32|
        x != own && q.scheduler.is_active(x) ==> #[trigger] s.queue.scheduler.is_active(x))
    &&& held is None && q.scheduler.is_active(own) && token_of(s.run) is Some
        ==> s.queue.player.playing() is None || s.queue.player.playing() == Some(
        q.player.next_seqno,
    )
}

/// A step of a run that is under way has the effect that `effect` states.
pub proof fn lemma_effect(
    q: ClipQueueView,
    run: PlayRun,
    clip: Arc<SampleBuffer>,
    priority: i32,
    timeout: Option<u64>,
    now: u64,
)
    requires
        q.wf(),
        q.player.next_seqno < u32::MAX,
        !(run is Idle),
        seqno_of(run) matches Some(n) ==> n < q.player.next_seqno,
    ensures
        effect(
            q,
            match token_of(run) {
                Some(t) => t,
                None => 0,
            },
            seqno_of(run),
            q.step(run, clip, priority, timeout, now),
        ),
{
    match token_of(run) {
        Some(t) => {
            lemma_released(q.scheduler, t);
        },
        None => {},
    }
}

/// The first step of a run, which asks for its token, keeps the law.
proof fn lemma_first_step(
    q: ClipQueueView,
    runs: Seq<PlayRun>,
    j: int,
    clip: Arc<SampleBuffer>,
    priority: i32,
    timeout: Option<u64>,
    now: u64,
)
    requires
        exclusive(q, runs),
        0 <= j < runs.len(),
        runs[j] is Idle,
        q.player.next_seqno < u32::MAX,
    ensures
        exclusive(
            q.step(runs[j], clip, priority, timeout, now).queue,
            runs.update(j, q.step(runs[j], clip, priority, timeout, now).run),
        ),
{
    let s = q.step(runs[j], clip, priority, timeout, now);
    let after = runs.update(j, s.run);
    if q.scheduler.next_id == u32::MAX {
        assert(s.queue == q);
        assert(token_of(s.run) is None);
        assert(seqno_of(s.run) is None);
    } else {
        let own = q.scheduler.next_id;
        let queued = ClipQueueView { scheduler: q.scheduler.requested(priority), ..q };
        lemma_requested(q.scheduler, priority);
        let deadline = match timeout {
            Some(t) => Some(crate::actions::wait::deadline_after(now, t)),
            None => None,
        };
        let waiting = PlayRun::WaitToken { token: Token { id: own }, deadline };
        assert(s == queued.step(waiting, clip, priority, timeout, now));
        lemma_effect(queued, waiting, clip, priority, timeout, now);
        lemma_kept(queued, runs, j, own, None, s);
        assert forall|i: int| 0 <= i < after.len() && renders(s.queue, #[trigger] after[i]) implies s.queue.scheduler.is_active(
            token_of(after[i])->0,
        ) by {
            if i != j {
                assert(after[i] == runs[i]);
                assert(renders(q, runs[i]));
                let x = token_of(runs[i])->0;
                assert(q.scheduler.is_active(x));
                // With the new token active the player renders nothing, or
                // the clip that it just took.
                if !queued.scheduler.is_active(own) {
                    assert(queued.scheduler.is_active(x));
                }
            }
        }
    }
}

/// What the law asks of the runs other than the one that took the step,
/// but for the tie between the rendered clip and the active token.
proof fn lemma_kept(
    q: ClipQueueView,
    runs: Seq<PlayRun>,
    j: int,
    own: u32,
    held: Option<u32>,
    s: PlayStep,
)
    requires
        0 <= j < runs.len(),
        effect(q, own, held, s),
        q.player.next_seqno < u32::MAX,
        forall|i: int|
            0 <= i < runs.len() && i != j ==> (token_of(#[trigger] runs[i]) matches Some(t) ==> t
                < q.scheduler.next_id && t != own),
        forall|i: int, k: int|
            0 <= i < k < runs.len() && i != j && k != j && token_of(runs[i]) is Some ==> token_of(
                runs[i],
            ) != token_of(runs[k]),
        forall|i: int|
            0 <= i < runs.len() && i != j ==> (seqno_of(#[trigger] runs[i]) matches Some(n) ==> n
                < q.player.next_seqno),
        own < q.scheduler.next_id,
        held matches Some(n) ==> n < q.player.next_seqno,
    ensures
        ({
            let after = runs.update(j, s.run);
            &&& forall|i: int|
                0 <= i < after.len() ==> (token_of(#[trigger] after[i]) matches Some(t) ==> t
                    < s.queue.scheduler.next_id)
            &&& forall|i: int, k: int|
                0 <= i < k < after.len() && token_of(after[i]) is Some ==> token_of(after[i])
                    != token_of(after[k])
            &&& forall|i: int|
                0 <= i < after.len() ==> (seqno_of(#[trigger] after[i]) matches Some(n) ==> n
                    < s.queue.player.next_seqno)
            &&& forall|i: int|
                0 <= i < after.len() && i != j && renders(s.queue, #[trigger] after[i]) ==> renders(
                    q,
                    runs[i],
                )
        }),
{
    let after = runs.update(j, s.run);
    assert forall|i: int, k: int|
        0 <= i < k < after.len() && token_of(after[i]) is Some implies token_of(after[i])
        != token_of(after[k]) by {
        if i != j && k != j {
            assert(after[i] == runs[i]);
            assert(after[k] == runs[k]);
        } else if i == j {
            assert(after[k] == runs[k]);
        } else {
            assert(after[i] == runs[i]);
        }
    }
    assert forall|i: int|
        0 <= i < after.len() && i != j && renders(s.queue, #[trigger] after[i]) implies renders(
        q,
        runs[i],
    ) by {
        assert(after[i] == runs[i]);
    }
}

/// Every step of a run keeps the law: whichever of the runs takes its next
/// step, the clip that the player renders afterwards is that of the run
/// whose token is active.
pub proof fn lemma_step_keeps_exclusive(
    q: ClipQueueView,
    runs: Seq<PlayRun>,
    j: int,
    clip: Arc<SampleBuffer>,
    priority: i32,
    timeout: Option<u64>,
    now: u64,
)
    requires
        exclusive(q, runs),
        0 <= j < runs.len(),
        q.player.next_seqno < u32::MAX,
    ensures
        exclusive(
            q.step(runs[j], clip, priority, timeout, now).queue,
            runs.update(j, q.step(runs[j], clip, priority, timeout, now).run),
        ),
{
    if runs[j] is Idle {
        lemma_first_step(q, runs, j, clip, priority, timeout, now);
    } else {
        let s = q.step(runs[j], clip, priority, timeout, now);
        let after = runs.update(j, s.run);
        let own = match token_of(runs[j]) {
            Some(t) => t,
            None => 0,
        };
        let held = seqno_of(runs[j]);
        lemma_effect(q, runs[j], clip, priority, timeout, now);
        if token_of(runs[j]) is None {
            assert(s.queue == q);
            assert(s.run == runs[j]);
            assert(after =~= runs);
        } else {
            assert forall|i: int| 0 <= i < runs.len() && i != j implies (token_of(
                #[trigger] runs[i],
            ) matches Some(t) ==> t < q.scheduler.next_id && t != own) by {
                if i < j {
                    assert(token_of(runs[i]) is Some ==> token_of(runs[i]) != token_of(runs[j]));
                } else {
                    assert(token_of(runs[j]) != token_of(runs[i]));
                }
            }
            lemma_kept(q, runs, j, own, held, s);
            assert forall|i: int|
                0 <= i < after.len() && renders(s.queue, #[trigger] after[i]) implies s.queue.scheduler.is_active(
                token_of(after[i])->0,
            ) by {
                if i != j {
                    assert(after[i] == runs[i]);
                    assert(renders(q, runs[i]));
                    let x = token_of(runs[i])->0;
                    assert(q.scheduler.is_active(x));
                    assert(x != own);
                } else {
                    if !s.queue.scheduler.is_active(own) {
                        assert(renders(q, runs[j]));
                    }
                }
            }
        }
    }
}

/// Giving a run up keeps the law.
pub proof fn lemma_cancel_keeps_exclusive(q: ClipQueueView, runs: Seq<PlayRun>, j: int)
    requires
        exclusive(q, runs),
        0 <= j < runs.len(),
    ensures
        exclusive(q.cancelled(runs[j]), runs.update(j, PlayRun::Done)),
{
    let after = runs.update(j, PlayRun::Done);
    let c = q.cancelled(runs[j]);
    match token_of(runs[j]) {
        Some(own) => {
            lemma_released(q.scheduler, own);
            assert forall|i: int| 0 <= i < after.len() && renders(c, #[trigger] after[i]) implies c.scheduler.is_active(
                token_of(after[i])->0,
            ) by {
                assert(i != j);
                assert(after[i] == runs[i]);
                assert(renders(q, runs[i]));
                if i < j {
                    assert(token_of(runs[i]) != token_of(runs[j]));
                } else {
                    assert(token_of(runs[j]) != token_of(runs[i]));
                }
            }
            assert forall|i: int, k: int|
                0 <= i < k < after.len() && token_of(after[i]) is Some implies token_of(after[i])
                != token_of(after[k]) by {
                if k != j {
                    assert(after[k] == runs[k]);
                }
                assert(after[i] == runs[i]);
            }
        },
        None => {
            assert(c == q);
            assert forall|i: int, k: int|
                0 <= i < k < after.len() && token_of(after[i]) is Some implies token_of(after[i])
                != token_of(after[k]) by {
                if k != j {
                    assert(after[k] == runs[k]);
                }
                assert(after[i] == runs[i]);
            }
        },
    }
}

/// Rendering keeps the law: the audio stream goes on with the clip that it
/// renders or ends it, and starts none.
pub proof fn lemma_render_keeps_exclusive(
    q: ClipQueueView,
    runs: Seq<PlayRun>,
    after: PlaybackState,
)
    requires
        exclusive(q, runs),
        render_step(q.player.state, after),
    ensures
        exclusive(ClipQueueView { player: ClipPlayer { state: after, ..q.player }, ..q }, runs),
{
}

/// A clip that is started while another is playing takes its place in
/// three steps. The player is asked to cancel the clip that it plays; the
/// audio stream gives that clip up and the player is ready; the player then
/// takes the new clip under a number that no earlier clip had. From the
/// request on the first clip is not rendered, and the run that waits for it
/// ends without failure.
pub proof fn lemma_new_clip_supersedes(
    q: ClipQueueView,
    first: Token,
    first_seqno: u32,
    second: Token,
    clip: Arc<SampleBuffer>,
    rendered: PlaybackState,
)
    requires
        q.wf(),
        q.scheduler.is_active(second.id),
        q.player.state matches PlaybackState::Playing { seqno, .. } && seqno == first_seqno,
        first_seqno < q.player.next_seqno < u32::MAX,
        render_step(PlaybackState::Cancel, rendered),
    ensures
        ({
            let asked = q.step_start(second, clip);
            let ready = ClipQueueView {
                player: ClipPlayer { state: rendered, ..asked.queue.player },
                ..asked.queue
            };
            let started = ready.step_start(second, clip);
            &&& asked.queue.player.state is Cancel
            &&& asked.run == (PlayRun::StartClip { token: second })
            &&& asked.outcome is None
            &&& asked.queue.step_playing(first, first_seqno).outcome == Some(Ok::<(), Error>(()))
            &&& rendered is Ready
            &&& ready.step_playing(first, first_seqno).outcome == Some(Ok::<(), Error>(()))
            &&& started.queue.player.state == (PlaybackState::Playing {
                seqno: q.player.next_seqno,
                samples: clip,
            })
            &&& started.run == (PlayRun::Playing { token: second, seqno: q.player.next_seqno })
            &&& q.player.next_seqno != first_seqno
            &&& started.queue.step_playing(first, first_seqno).outcome == Some(
                Ok::<(), Error>(()),
            )
            &&& started.queue.scheduler.is_active(second.id)
        }),
{
    lemma_released(q.scheduler, first.id);
}

/// A clip of a higher priority takes the audio output from the clip that is
/// playing. Its first step gets the token at once, takes the token of the
/// other clip away and asks the player to cancel that clip; the audio
/// stream then renders silence and the player is ready; the next step of
/// the new clip has the player take it. The run of the other clip ends
/// without failure at its next step, whenever that comes, and nothing of
/// its clip is rendered after the first step of the new one.
pub proof fn lemma_higher_priority_plays(
    q: ClipQueueView,
    first: Token,
    first_seqno: u32,
    clip: Arc<SampleBuffer>,
    priority: i32,
    now: u64,
    later: u64,
    rendered: PlaybackState,
)
    requires
        q.wf(),
        q.scheduler.is_active(first.id),
        priority > q.scheduler.queue[0].priority,
        q.scheduler.next_id < u32::MAX,
        q.player.state matches PlaybackState::Playing { seqno, .. } && seqno == first_seqno,
        first_seqno < q.player.next_seqno < u32::MAX,
        render_step(PlaybackState::Cancel, rendered),
    ensures
        ({
            let second = Token { id: q.scheduler.next_id };
            let asked = q.step(PlayRun::Idle, clip, priority, None, now);
            let ready = ClipQueueView {
                player: ClipPlayer { state: rendered, ..asked.queue.player },
                ..asked.queue
            };
            let started = ready.step(asked.run, clip, priority, None, later);
            &&& asked.run == (PlayRun::StartClip { token: second })
            &&& asked.outcome is None
            &&& asked.queue.scheduler.is_active(second.id)
            &&& asked.queue.scheduler.is_released(first.id)
            &&& asked.queue.player.playing() is None
            &&& asked.queue.step_playing(first, first_seqno).outcome == Some(Ok::<(), Error>(()))
            &&& ready.player.playing() is None
            &&& ready.step_playing(first, first_seqno).outcome == Some(Ok::<(), Error>(()))
            &&& started.run == (PlayRun::Playing { token: second, seqno: q.player.next_seqno })
            &&& started.queue.player.state == (PlaybackState::Playing {
                seqno: q.player.next_seqno,
                samples: clip,
            })
            &&& started.queue.player.playing() != Some(first_seqno)
            &&& started.queue.step_playing(first, first_seqno).outcome == Some(
                Ok::<(), Error>(()),
            )
        }),
{
    crate::clip_queue::lemma_higher_priority_takes_over(q, clip, priority, now);
    let asked = q.step(PlayRun::Idle, clip, priority, None, now);
    lemma_requested(q.scheduler, priority);
    lemma_released(asked.queue.scheduler, first.id);
}

/// Under the law, the clip that the player renders is that of one run, and
/// that run holds the active token: no clip of a run whose token waits or
/// was taken away is rendered.
pub proof fn lemma_rendered_clip_holds_token(q: ClipQueueView, runs: Seq<PlayRun>, i: int, k: int)
    requires
        exclusive(q, runs),
        0 <= i < runs.len(),
        0 <= k < runs.len(),
        renders(q, runs[i]),
    ensures
        q.scheduler.is_active(token_of(runs[i])->0),
        renders(q, runs[k]) ==> i == k,
{
    if renders(q, runs[k]) && i != k {
        if i < k {
            assert(token_of(runs[i]) != token_of(runs[k]));
        } else {
            assert(token_of(runs[k]) != token_of(runs[i]));
        }
    }
}

} // verus!
