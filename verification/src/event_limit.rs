//! A sliding-window limit on how often something may happen: at most
//! `max_events` events in any window of `window` time units.
//!
//! The limiter keeps no clock. Every call passes the current time, in any
//! unit that the window is also given in (the daemon uses milliseconds). A
//! time that lies before one seen earlier is taken as that earlier time.
use vstd::prelude::*;

verus! {

/// The limiter as a mathematical value.
pub struct EventLimitView {
    /// The number of events allowed in one window.
    pub max_events: nat,
    /// The length of the window.
    pub window: nat,
    /// The times of the counted events that are still inside the window,
    /// oldest first.
    pub events: Seq<u64>,
    /// The latest time seen.
    pub latest: u64,
    /// The times of all events counted so far, oldest first.
    pub accepted: Seq<u64>,
}

/// The number of events at the front of `events` that have left the window
/// which ends at `now`.
pub open spec fn expired_count(events: Seq<u64>, now: int, window: int) -> nat
    decreases events.len(),
{
    if events.len() > 0 && now - events[0] >= window {
        1 + expired_count(events.skip(1), now, window)
    } else {
        0
    }
}

impl EventLimitView {
    /// The time that a call at `now` takes place: never before an earlier
    /// call.
    pub open spec fn time_of(self, now: u64) -> u64 {
        if now < self.latest {
            self.latest
        } else {
            now
        }
    }

    /// The events still inside the window at `now`.
    pub open spec fn live_at(self, now: u64) -> Seq<u64> {
        self.events.skip(
            expired_count(self.events, self.time_of(now) as int, self.window as int) as int,
        )
    }

    /// Whether an event at `now` is within the allowance.
    pub open spec fn allows(self, now: u64) -> bool {
        self.live_at(now).len() < self.max_events
    }

    /// The limiter after a call of `count` at `now`.
    pub open spec fn counted(self, now: u64) -> EventLimitView {
        let t = self.time_of(now);
        if self.allows(now) {
            EventLimitView {
                events: self.live_at(now).push(t),
                latest: t,
                accepted: self.accepted.push(t),
                ..self
            }
        } else {
            EventLimitView { events: self.live_at(now), latest: t, ..self }
        }
    }

    /// What holds of every limiter: the events inside the window are the
    /// last counted ones, in the order of their times, none of them later
    /// than the latest time seen, and every counted event that is no longer
    /// kept has left the window.
    pub open spec fn wf(self) -> bool {
        &&& self.events.len() <= self.max_events
        &&& self.events.len() <= self.accepted.len()
        &&& forall|i: int|
            0 <= i < self.events.len() ==> #[trigger] self.events[i] == self.accepted[self.accepted.len()
                - self.events.len() + i]
        &&& forall|i: int, j: int|
            0 <= i <= j < self.accepted.len() ==> self.accepted[i] <= self.accepted[j]
        &&& forall|i: int| 0 <= i < self.accepted.len() ==> #[trigger] self.accepted[i] <= self.latest
        &&& forall|i: int|
            0 <= i < self.accepted.len() - self.events.len() ==> #[trigger] self.accepted[i]
                + self.window <= self.latest
        &&& self.spaced()
    }

    /// Any `max_events + 1` counted events span at least one window: the
    /// event that follows `max_events` others lies a whole window after the
    /// first of them.
    pub open spec fn spaced(self) -> bool {
        forall|j: int|
            0 <= j && j + self.max_events < self.accepted.len() ==> #[trigger] self.accepted[j
                + self.max_events] >= self.accepted[j] + self.window
    }
}

/// Counts events and tells when they come too fast.
pub struct EventLimit {
    max_events: u32,
    window: u64,
    events: Vec<u64>,
    latest: u64,
    accepted: Ghost<Seq<u64>>,
}

impl View for EventLimit {
    type V = EventLimitView;

    closed spec fn view(&self) -> EventLimitView {
        EventLimitView {
            max_events: self.max_events as nat,
            window: self.window as nat,
            events: self.events@,
            latest: self.latest,
            accepted: self.accepted@,
        }
    }
}

/// The events at the front that have left the window are those, and only
/// those, before the first one that has not.
proof fn lemma_expired_prefix(events: Seq<u64>, now: int, window: int, k: int)
    requires
        0 <= k <= events.len(),
        forall|i: int| 0 <= i < k ==> now - #[trigger] events[i] >= window,
        k < events.len() ==> now - events[k] < window,
    ensures
        expired_count(events, now, window) == k,
    decreases k,
{
    if k > 0 {
        let rest = events.skip(1);
        assert forall|i: int| 0 <= i < k - 1 implies now - #[trigger] rest[i] >= window by {
            assert(rest[i] == events[i + 1]);
        }
        if k - 1 < rest.len() {
            assert(rest[k - 1] == events[k]);
        }
        lemma_expired_prefix(rest, now, window, k - 1);
    }
}

impl EventLimit {
    #[verifier::type_invariant]
    spec fn valid(self) -> bool {
        self@.wf()
    }

    /// A limiter that allows `max_events` events in any window of `window`
    /// time units. Nothing has been counted yet.
    pub fn new(max_events: u32, window: u64) -> (r: EventLimit)
        ensures
            r@.wf(),
            r@ == (EventLimitView {
                max_events: max_events as nat,
                window: window as nat,
                events: Seq::empty(),
                latest: 0,
                accepted: Seq::empty(),
            }),
    {
        EventLimit {
            max_events,
            window,
            events: Vec::new(),
            latest: 0,
            accepted: Ghost(Seq::empty()),
        }
    }

    /// The number of events allowed in one window.
    pub fn max_events(&self) -> (r: u32)
        ensures
            r == self@.max_events,
    {
        self.max_events
    }

    /// The length of the window.
    pub fn window(&self) -> (r: u64)
        ensures
            r == self@.window,
    {
        self.window
    }

    /// Records one event at the time `now` if the allowance of the window
    /// that ends at `now` is not used up, and tells whether it did. An event
    /// that is refused is not recorded.
    pub fn count(&mut self, now: u64) -> (allowed: bool)
        ensures
            old(self)@.wf(),
            final(self)@.wf(),
            allowed == old(self)@.allows(now),
            final(self)@ == old(self)@.counted(now),
    {
        proof {
            use_type_invariant(&*self);
        }
        let t = if now < self.latest {
            self.latest
        } else {
            now
        };
        let ghost before = self@;
        let mut events = self.events.clone();
        let mut dropped: usize = 0;
        while events.len() > 0 && t - events[0] >= self.window
            invariant
                dropped <= before.events.len(),
                events@ == before.events.skip(dropped as int),
                self@ == before,
                before.wf(),
                t == before.time_of(now),
                forall|i: int| 0 <= i < dropped ==> t - #[trigger] before.events[i] >= before.window,
            decreases events.len(),
        {
            let ghost head = events@[0];
            events.remove(0);
            proof {
                assert(head == before.events[dropped as int]);
                assert(events@ =~= before.events.skip(dropped + 1));
            }
            dropped += 1;
        }
        proof {
            if (dropped as int) < before.events.len() {
                assert(events@[0] == before.events[dropped as int]);
            }
            lemma_expired_prefix(before.events, t as int, before.window as int, dropped as int);
            assert(events@ == before.live_at(now));
        }
        let ghost live = events@;
        let ghost shift = before.accepted.len() - before.events.len();
        proof {
            assert forall|i: int| 0 <= i < live.len() implies #[trigger] live[i]
                == before.accepted[shift + dropped + i] by {
                assert(live[i] == before.events[dropped + i]);
            }
            assert forall|i: int| 0 <= i < shift + dropped implies #[trigger] before.accepted[i]
                + before.window <= t by {
                if i >= shift {
                    assert(before.events[i - shift] == before.accepted[i]);
                }
            }
        }
        if events.len() < self.max_events as usize {
            events.push(t);
            let ghost after = EventLimitView {
                events: live.push(t),
                latest: t,
                accepted: before.accepted.push(t),
                ..before
            };
            proof {
                assert(after == before.counted(now));
                assert forall|i: int| 0 <= i < after.events.len() implies #[trigger] after.events[i]
                    == after.accepted[after.accepted.len() - after.events.len() + i] by {
                    if i < live.len() {
                        assert(after.events[i] == live[i]);
                    }
                }
                assert forall|j: int|
                    0 <= j && j + after.max_events < after.accepted.len() implies #[trigger] after.accepted[j
                    + after.max_events] >= after.accepted[j] + after.window by {
                    if j + after.max_events == before.accepted.len() {
                        assert(j < shift + dropped);
                        assert(before.accepted[j] + before.window <= t);
                    } else {
                        assert(before.accepted[j + before.max_events] >= before.accepted[j]
                            + before.window);
                    }
                }
                assert(after.wf());
            }
            *self = EventLimit {
                max_events: self.max_events,
                window: self.window,
                events,
                latest: t,
                accepted: Ghost(before.accepted.push(t)),
            };
            true
        } else {
            let ghost after = EventLimitView { events: live, latest: t, ..before };
            proof {
                assert(after == before.counted(now));
                assert(after.wf());
            }
            *self = EventLimit {
                max_events: self.max_events,
                window: self.window,
                events,
                latest: t,
                accepted: Ghost(before.accepted),
            };
            false
        }
    }

    /// A limiter with the same settings and the same events counted.
    pub fn duplicate(&self) -> (r: EventLimit)
        ensures
            r@ == self@,
    {
        proof {
            use_type_invariant(self);
        }
        EventLimit {
            max_events: self.max_events,
            window: self.window,
            events: self.events.clone(),
            latest: self.latest,
            accepted: Ghost(self.accepted@),
        }
    }
}

impl Clone for EventLimit {
    fn clone(&self) -> (r: EventLimit)
        ensures
            r@ == self@,
    {
        self.duplicate()
    }
}

/// In any window, at most `max_events` events are counted: of the events
/// counted so far, the one that comes `max_events` places after another lies
/// at least a whole window later, so no window that is shorter than that
/// holds both.
pub proof fn lemma_window_bound(limit: EventLimitView, first: int, last: int)
    requires
        limit.wf(),
        0 <= first <= last < limit.accepted.len(),
        limit.accepted[last] - limit.accepted[first] < limit.window,
    ensures
        last - first < limit.max_events,
{
    if last - first >= limit.max_events {
        let j = first;
        assert(limit.accepted[j + limit.max_events] >= limit.accepted[j] + limit.window);
        assert(limit.accepted[j + limit.max_events] <= limit.accepted[last]);
    }
}

/// Once the allowance of a window is used up, the next event in that window
/// is refused: after `max_events` events at one time, a call at that time
/// returns `false`.
pub proof fn lemma_full_window_refuses(limit: EventLimitView, now: u64)
    requires
        limit.wf(),
        limit.events.len() == limit.max_events,
        limit.max_events > 0,
        now >= limit.latest,
        now - limit.events[0] < limit.window,
    ensures
        !limit.allows(now),
{
    lemma_expired_prefix(limit.events, now as int, limit.window as int, 0);
    assert(limit.events.skip(0) =~= limit.events);
}

/// The events that have left the window are at the front: the first event
/// that is kept, if there is one, has not left it.
pub proof fn lemma_expired_bound(events: Seq<u64>, now: int, window: int)
    ensures
        expired_count(events, now, window) <= events.len(),
        expired_count(events, now, window) < events.len() ==> now - events[expired_count(
            events,
            now,
            window,
        ) as int] < window,
    decreases events.len(),
{
    if events.len() > 0 && now - events[0] >= window {
        let rest = events.skip(1);
        lemma_expired_bound(rest, now, window);
        let k = expired_count(rest, now, window);
        if k < rest.len() {
            assert(rest[k as int] == events[k as int + 1]);
        }
    }
}

/// Each event of a list comes at least `gap` after the one before it.
pub open spec fn apart(events: Seq<u64>, gap: int) -> bool {
    forall|i: int| 0 <= i && i + 1 < events.len() ==> #[trigger] events[i + 1] - events[i] >= gap
}

/// Events that lie at least `gap` apart span at least `gap` for each event
/// after the first.
pub proof fn lemma_apart_span(events: Seq<u64>, gap: int)
    requires
        apart(events, gap),
        events.len() > 0,
    ensures
        events.last() - events[0] >= (events.len() - 1) * gap,
    decreases events.len(),
{
    if events.len() > 1 {
        let front = events.drop_last();
        assert(apart(front, gap)) by {
            assert forall|i: int| 0 <= i && i + 1 < front.len() implies #[trigger] front[i + 1]
                - front[i] >= gap by {
                assert(front[i + 1] == events[i + 1]);
                assert(front[i] == events[i]);
                assert(events[i + 1] - events[i] >= gap);
            }
        }
        lemma_apart_span(front, gap);
        let n = events.len() as int;
        assert(front.last() == events[n - 2]);
        assert(front[0] == events[0]);
        assert(events[(n - 2) + 1] - events[n - 2] >= gap);
        assert(front.len() - 1 == n - 2);
        assert((n - 1) * gap == (n - 2) * gap + gap) by (nonlinear_arith);
        assert(events.last() == events[(n - 2) + 1]);
    } else {
        assert((events.len() - 1) * gap == 0) by (nonlinear_arith)
            requires
                events.len() == 1,
        ;
    }
}

/// Events that keep their distance are never refused. Where `max_events`
/// times `gap` is at least the window, and every event so far came at least
/// `gap` after the one before it, an event that comes `gap` or more after
/// the last one is counted, and the events that are kept are as far apart
/// as before.
pub proof fn lemma_spaced_events_pass(limit: EventLimitView, now: u64, gap: int)
    requires
        gap >= 1,
        limit.max_events >= 1,
        gap * limit.max_events >= limit.window,
        apart(limit.events, gap),
        now >= limit.latest,
        limit.events.len() > 0 ==> now - limit.events.last() >= gap,
    ensures
        limit.allows(now),
        apart(limit.counted(now).events, gap),
        limit.counted(now).events.len() > 0,
        limit.counted(now).events.last() == now,
        limit.counted(now).latest == now,
        limit.counted(now).max_events == limit.max_events,
        limit.counted(now).window == limit.window,
{
    let window = limit.window as int;
    let e = expired_count(limit.events, now as int, window);
    lemma_expired_bound(limit.events, now as int, window);
    let live = limit.events.skip(e as int);
    assert(live == limit.live_at(now));
    assert(apart(live, gap)) by {
        assert forall|i: int| 0 <= i && i + 1 < live.len() implies #[trigger] live[i + 1] - live[i]
            >= gap by {
            assert(live[i + 1] == limit.events[(e + i) + 1]);
            assert(live[i] == limit.events[e + i]);
            assert(limit.events[(e + i) + 1] - limit.events[e + i] >= gap);
        }
    }
    let k = live.len() as int;
    if k > 0 {
        lemma_apart_span(live, gap);
        assert(live[0] == limit.events[e as int]);
        assert(live.last() == limit.events.last());
        let n = limit.max_events as int;
        assert(k * gap < n * gap) by {
            assert((k - 1) * gap + gap == k * gap) by (nonlinear_arith);
            assert(gap * n == n * gap) by (nonlinear_arith);
        }
        assert(k < n) by (nonlinear_arith)
            requires
                k * gap < n * gap,
                gap >= 1,
        ;
    }
    let after = live.push(now);
    assert(apart(after, gap)) by {
        assert forall|i: int| 0 <= i && i + 1 < after.len() implies #[trigger] after[i + 1]
            - after[i] >= gap by {
            if i + 1 < live.len() {
                assert(after[i + 1] == live[i + 1]);
                assert(after[i] == live[i]);
                assert(live[i + 1] - live[i] >= gap);
            } else {
                assert(after[i] == live.last());
            }
        }
    }
}

impl EventLimitView {
    /// The limiter after `n` calls of `count` at the same time.
    pub open spec fn counted_times(self, now: u64, n: nat) -> EventLimitView
        decreases n,
    {
        if n == 0 {
            self
        } else {
            self.counted_times(now, (n - 1) as nat).counted(now)
        }
    }
}

/// A burst is cut at the allowance: of events that come at one time to a
/// limiter that holds none, the first `max_events` are counted and the
/// next one is refused.
pub proof fn lemma_burst_is_cut(limit: EventLimitView, now: u64, n: nat)
    requires
        limit.window > 0,
        limit.events.len() == 0,
        now >= limit.latest,
        n <= limit.max_events,
    ensures
        limit.counted_times(now, n).events == Seq::new(n, |i: int| now),
        limit.counted_times(now, n).max_events == limit.max_events,
        limit.counted_times(now, n).window == limit.window,
        limit.counted_times(now, n).latest == if n == 0 {
            limit.latest
        } else {
            now
        },
        limit.counted_times(now, n).allows(now) == (n < limit.max_events),
    decreases n,
{
    let after = limit.counted_times(now, n);
    if n == 0 {
        assert(limit.events =~= Seq::new(0, |i: int| now));
    } else {
        lemma_burst_is_cut(limit, now, (n - 1) as nat);
        let before = limit.counted_times(now, (n - 1) as nat);
        assert(before.events.skip(0) =~= before.events);
        assert(before.allows(now));
        assert(after.events =~= Seq::new(n, |i: int| now));
    }
    assert(after.events.skip(0) =~= after.events);
    lemma_same_time_stays(after.events, now, limit.window as int);
    assert(after.live_at(now) == after.events);
}

/// Events at the time `now` have not left a window that ends at `now`.
proof fn lemma_same_time_stays(events: Seq<u64>, now: u64, window: int)
    requires
        window > 0,
        forall|i: int| 0 <= i < events.len() ==> #[trigger] events[i] == now,
    ensures
        expired_count(events, now as int, window) == 0,
{
}

impl EventLimitView {
    /// The limiter after calls of `count` at the times of a list, in their
    /// order.
    pub open spec fn counted_at(self, times: Seq<u64>) -> EventLimitView
        decreases times.len(),
    {
        if times.len() == 0 {
            self
        } else {
            self.counted_at(times.drop_last()).counted(times.last())
        }
    }
}

/// Events that keep their distance are never refused, however many they
/// are and however long they go on. Where the allowance times `gap` fills
/// the window, a limiter that holds no event counts every event of a list
/// of events that lie at least `gap` apart.
pub proof fn lemma_paced_events_never_refused(
    limit: EventLimitView,
    times: Seq<u64>,
    gap: int,
    k: int,
)
    requires
        gap >= 1,
        limit.max_events >= 1,
        gap * limit.max_events >= limit.window,
        limit.events.len() == 0,
        apart(times, gap),
        times.len() > 0 ==> times[0] >= limit.latest,
        0 <= k < times.len(),
    ensures
        limit.counted_at(times.take(k)).allows(times[k]),
        limit.counted_at(times.take(k + 1)).events.last() == times[k],
        limit.counted_at(times.take(k + 1)).events.len() > 0,
        limit.counted_at(times.take(k + 1)).latest == times[k],
        apart(limit.counted_at(times.take(k + 1)).events, gap),
        limit.counted_at(times.take(k + 1)).max_events == limit.max_events,
        limit.counted_at(times.take(k + 1)).window == limit.window,
    decreases k,
{
    assert(times.take(k + 1).drop_last() =~= times.take(k));
    assert(times.take(k + 1).last() == times[k]);
    if k == 0 {
        assert(times.take(0) =~= Seq::empty());
        lemma_spaced_events_pass(limit, times[0], gap);
    } else {
        lemma_paced_events_never_refused(limit, times, gap, k - 1);
        assert(times[(k - 1) + 1] - times[k - 1] >= gap);
        lemma_spaced_events_pass(limit.counted_at(times.take(k)), times[k], gap);
    }
}

} // verus!
