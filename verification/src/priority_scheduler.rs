//! Arbitration of one resource by priority.
//!
//! The scheduler keeps the outstanding tokens in a queue, highest priority
//! first and, among equal priorities, oldest first. The token at the front is
//! active and holds the resource; the others wait. A new token of a higher
//! priority than the active one takes the front at once, and the token that
//! was active leaves the queue: it has been preempted.
//!
//! The scheduler decides; it does not wait. The caller suspends a task whose
//! token is waiting and wakes the tasks whose tokens a call names.
use vstd::prelude::*;

verus! {

/// A token in the queue.
#[derive(Debug, Clone, Copy, PartialEq, Eq, Structural)]
pub struct TokenState {
    pub id: u32,
    pub priority: i32,
}

/// A grant that was asked for. It names the token in the queue.
#[derive(Debug, Clone, Copy, PartialEq, Eq, Structural)]
pub struct Token {
    pub id: u32,
}

/// What a call of `Scheduler::get_token` did.
#[derive(Debug, Clone, Copy, PartialEq, Eq, Structural)]
pub struct Grant {
    /// The new token.
    pub token: Token,
    /// The token that lost the resource to the new one, if any. Its holder
    /// is to be woken.
    pub preempted: Option<u32>,
}

/// What a call of `Scheduler::release` did.
#[derive(Debug, Clone, Copy, PartialEq, Eq, Structural)]
pub struct Release {
    /// Whether the token was in the queue.
    pub removed: bool,
    /// The token that became active by the release, if any. Its holder is to
    /// be woken.
    pub activated: Option<u32>,
}

/// Where a waiting task stands.
#[derive(Debug, Clone, Copy, PartialEq, Eq, Structural)]
pub enum TokenPoll {
    /// The token no longer waits: it is active, or it has left the queue.
    Ready,
    /// The token waits and the deadline, if any, has not come.
    Waiting,
    /// The deadline has come while the token waited. The token has been
    /// withdrawn.
    TimedOut,
}

/// The position of the first token with the given id, if there is one.
pub open spec fn spec_find_id(states: Seq<TokenState>, id: u32) -> Option<int>
    decreases states.len(),
{
    if states.len() == 0 {
        None
    } else if states[0].id == id {
        Some(0)
    } else {
        match spec_find_id(states.skip(1), id) {
            Some(i) => Some(i + 1),
            None => None,
        }
    }
}

/// The position found by `spec_find_id` holds the id and is the first that
/// does; no position is found only if no token has the id.
pub proof fn lemma_find_id(states: Seq<TokenState>, id: u32)
    ensures
        match spec_find_id(states, id) {
            Some(i) => 0 <= i < states.len() && states[i].id == id && forall|j: int|
                0 <= j < i ==> (#[trigger] states[j]).id != id,
            None => forall|j: int| 0 <= j < states.len() ==> (#[trigger] states[j]).id != id,
        },
    decreases states.len(),
{
    if states.len() > 0 && states[0].id != id {
        let rest = states.skip(1);
        lemma_find_id(rest, id);
        match spec_find_id(rest, id) {
            Some(i) => {
                assert(rest[i] == states[i + 1]);
                assert forall|j: int| 0 <= j < i + 1 implies (#[trigger] states[j]).id != id by {
                    if j > 0 {
                        assert(rest[j - 1] == states[j]);
                    }
                }
            },
            None => {
                assert forall|j: int| 0 <= j < states.len() implies (#[trigger] states[j]).id
                    != id by {
                    if j > 0 {
                        assert(rest[j - 1] == states[j]);
                    }
                }
            },
        }
    }
}

/// The position of the first token with the given id.
pub fn find_id(states: &Vec<TokenState>, id: u32) -> (r: Option<usize>)
    ensures
        match r {
            Some(i) => spec_find_id(states@, id) == Some(i as int),
            None => spec_find_id(states@, id) is None,
        },
{
    let mut i: usize = 0;
    while i < states.len()
        invariant
            i <= states.len(),
            forall|j: int| 0 <= j < i ==> (#[trigger] states@[j]).id != id,
        decreases states.len() - i,
    {
        if states[i].id == id {
            proof {
                lemma_find_id(states@, id);
            }
            return Some(i);
        }
        i += 1;
    }
    proof {
        lemma_find_id(states@, id);
    }
    None
}

/// The place of a new token of the given priority: after every token whose
/// priority is at least as high.
pub open spec fn insert_index(queue: Seq<TokenState>, priority: i32) -> int
    decreases queue.len(),
{
    if queue.len() > 0 && queue[0].priority >= priority {
        1 + insert_index(queue.skip(1), priority)
    } else {
        0
    }
}

/// The queue is ordered by priority, highest first.
pub open spec fn ordered(queue: Seq<TokenState>) -> bool {
    forall|i: int, j: int| 0 <= i <= j < queue.len() ==> queue[i].priority >= queue[j].priority
}

/// No two tokens in the queue have the same id.
pub open spec fn distinct_ids(queue: Seq<TokenState>) -> bool {
    forall|i: int, j: int| 0 <= i < j < queue.len() ==> queue[i].id != queue[j].id
}

/// The place of a new token lies in the queue or at its end; the tokens
/// before it have at least its priority, and in an ordered queue the tokens
/// from it on have less.
pub proof fn lemma_insert_index(queue: Seq<TokenState>, priority: i32)
    ensures
        0 <= insert_index(queue, priority) <= queue.len(),
        forall|i: int|
            0 <= i < insert_index(queue, priority) ==> (#[trigger] queue[i]).priority >= priority,
        ordered(queue) ==> forall|i: int|
            insert_index(queue, priority) <= i < queue.len() ==> (#[trigger] queue[i]).priority
                < priority,
    decreases queue.len(),
{
    if queue.len() > 0 && queue[0].priority >= priority {
        let rest = queue.skip(1);
        lemma_insert_index(rest, priority);
        let k = insert_index(rest, priority);
        assert forall|i: int| 0 <= i < k + 1 implies (#[trigger] queue[i]).priority
            >= priority by {
            if i > 0 {
                assert(rest[i - 1] == queue[i]);
            }
        }
        if ordered(queue) {
            assert(ordered(rest)) by {
                assert forall|i: int, j: int| 0 <= i <= j < rest.len() implies rest[i].priority
                    >= rest[j].priority by {
                    assert(rest[i] == queue[i + 1]);
                    assert(rest[j] == queue[j + 1]);
                }
            }
            assert forall|i: int| k + 1 <= i < queue.len() implies (#[trigger] queue[i]).priority
                < priority by {
                assert(rest[i - 1] == queue[i]);
            }
        }
    } else if ordered(queue) {
        assert forall|i: int| 0 <= i < queue.len() implies (#[trigger] queue[i]).priority
            < priority by {
            assert(queue[0].priority >= queue[i].priority);
        }
    }
}

/// The scheduler as a mathematical value.
pub struct SchedulerView {
    /// The tokens, the active one first.
    pub queue: Seq<TokenState>,
    /// The id that the next token gets.
    pub next_id: u32,
}

impl SchedulerView {
    /// What holds of every scheduler: the queue is ordered by priority, no
    /// id occurs twice, and every id in it was handed out before.
    pub open spec fn wf(self) -> bool {
        &&& ordered(self.queue)
        &&& distinct_ids(self.queue)
        &&& forall|i: int| 0 <= i < self.queue.len() ==> (#[trigger] self.queue[i]).id < self.next_id
    }

    /// The token holds the resource.
    pub open spec fn is_active(self, id: u32) -> bool {
        self.queue.len() > 0 && self.queue[0].id == id
    }

    /// The token is in the queue behind the active one.
    pub open spec fn is_waiting(self, id: u32) -> bool {
        spec_find_id(self.queue, id) matches Some(i) && i > 0
    }

    /// The token is not in the queue: it was released or preempted, or it
    /// never was there.
    pub open spec fn is_released(self, id: u32) -> bool {
        spec_find_id(self.queue, id) is None
    }

    /// The token that a request of the given priority preempts: the active
    /// one, if its priority is lower.
    pub open spec fn preempted_by(self, priority: i32) -> Option<u32> {
        if self.queue.len() > 0 && self.queue[0].priority < priority {
            Some(self.queue[0].id)
        } else {
            None
        }
    }

    /// The scheduler after a request of the given priority. The new token
    /// gets the next id. It takes the place of the active token if it
    /// preempts that one, else the place after the tokens of at least its
    /// priority.
    pub open spec fn requested(self, priority: i32) -> SchedulerView {
        let token = TokenState { id: self.next_id, priority };
        SchedulerView {
            queue: if self.preempted_by(priority) is Some {
                self.queue.update(0, token)
            } else {
                self.queue.insert(insert_index(self.queue, priority), token)
            },
            next_id: (self.next_id + 1) as u32,
        }
    }

    /// The scheduler after the release of a token.
    pub open spec fn released(self, id: u32) -> SchedulerView {
        match spec_find_id(self.queue, id) {
            Some(i) => SchedulerView { queue: self.queue.remove(i), ..self },
            None => self,
        }
    }

    /// The token that becomes active by the release of `id`: the second in
    /// the queue, if `id` is the active one.
    pub open spec fn activated_by_release(self, id: u32) -> Option<u32> {
        if self.is_active(id) && self.queue.len() > 1 {
            Some(self.queue[1].id)
        } else {
            None
        }
    }
}

/// Arbitrates one resource among the holders of tokens.
pub struct Scheduler {
    queue: Vec<TokenState>,
    next_id: u32,
}

impl View for Scheduler {
    type V = SchedulerView;

    closed spec fn view(&self) -> SchedulerView {
        SchedulerView { queue: self.queue@, next_id: self.next_id }
    }
}

impl Scheduler {
    /// A scheduler without tokens. The first token gets the id 1.
    pub fn new() -> (r: Scheduler)
        ensures
            r@.wf(),
            r@.queue.len() == 0,
            r@.next_id == 1,
    {
        Scheduler { queue: Vec::new(), next_id: 1 }
    }

    /// The number of tokens in the queue.
    pub fn len(&self) -> (n: usize)
        ensures
            n == self@.queue.len(),
    {
        self.queue.len()
    }

    /// Takes the token out of the queue. If it was the active one, the next
    /// token becomes active.
    pub fn release(&mut self, id: u32) -> (r: Release)
        requires
            old(self)@.wf(),
        ensures
            final(self)@.wf(),
            final(self)@ == old(self)@.released(id),
            r.removed == !old(self)@.is_released(id),
            r.activated == old(self)@.activated_by_release(id),
            final(self)@.is_released(id),
    {
        proof {
            lemma_find_id(self.queue@, id);
        }
        match find_id(&self.queue, id) {
            Some(index) => {
                let ghost before = self.queue@;
                self.queue.remove(index);
                proof {
                    let after = self.queue@;
                    assert(after == before.remove(index as int));
                    assert forall|i: int, j: int| 0 <= i <= j < after.len() implies after[i].priority
                        >= after[j].priority by {
                        let a = if i < index { i } else { i + 1 };
                        let b = if j < index { j } else { j + 1 };
                        assert(after[i] == before[a]);
                        assert(after[j] == before[b]);
                    }
                    assert forall|i: int, j: int| 0 <= i < j < after.len() implies after[i].id
                        != after[j].id by {
                        let a = if i < index { i } else { i + 1 };
                        let b = if j < index { j } else { j + 1 };
                        assert(after[i] == before[a]);
                        assert(after[j] == before[b]);
                    }
                    assert forall|i: int| 0 <= i < after.len() implies (#[trigger] after[i]).id
                        != id by {
                        let a = if i < index { i } else { i + 1 };
                        assert(after[i] == before[a]);
                    }
                    assert forall|i: int| 0 <= i < after.len() implies (#[trigger] after[i]).id
                        < self.next_id by {
                        let a = if i < index { i } else { i + 1 };
                        assert(after[i] == before[a]);
                    }
                    lemma_find_id(after, id);
                }
                let activated = if index == 0 && self.queue.len() > 0 {
                    proof {
                        assert(self.queue@[0] == before[1]);
                    }
                    Some(self.queue[0].id)
                } else {
                    None
                };
                Release { removed: true, activated }
            },
            None => Release { removed: false, activated: None },
        }
    }

    /// Whether the token holds the resource.
    pub fn is_active(&self, id: u32) -> (r: bool)
        ensures
            r == self@.is_active(id),
    {
        self.queue.len() > 0 && self.queue[0].id == id
    }

    /// Whether the token is in the queue behind the active one.
    pub fn is_waiting(&self, id: u32) -> (r: bool)
        ensures
            r == self@.is_waiting(id),
    {
        match find_id(&self.queue, id) {
            Some(i) => i > 0,
            None => false,
        }
    }

    /// Whether the token is out of the queue.
    pub fn is_released(&self, id: u32) -> (r: bool)
        ensures
            r == self@.is_released(id),
    {
        find_id(&self.queue, id).is_none()
    }

    /// Puts a new token of the given priority into the queue. The token is
    /// active at once if the queue was empty or the active token had a lower
    /// priority; in the second case that token leaves the queue and is named
    /// in the result. Else the new token waits behind the tokens of at least
    /// its priority.
    #[verifier::rlimit(50)]
    pub fn get_token(&mut self, priority: i32) -> (r: Grant)
        requires
            old(self)@.wf(),
            old(self)@.next_id < u32::MAX,
        ensures
            final(self)@.wf(),
            final(self)@ == old(self)@.requested(priority),
            r.token.id == old(self)@.next_id,
            r.preempted == old(self)@.preempted_by(priority),
            !final(self)@.is_released(r.token.id),
    {
        let id = self.next_id;
        self.next_id = self.next_id + 1;
        let token = TokenState { id, priority };
        let ghost before = self.queue@;
        proof {
            lemma_insert_index(before, priority);
        }
        let preempted = if self.queue.len() > 0 && self.queue[0].priority < priority {
            let old_id = self.queue[0].id;
            self.queue.set(0, token);
            proof {
                let after = self.queue@;
                assert forall|i: int, j: int| 0 <= i <= j < after.len() implies after[i].priority
                    >= after[j].priority by {
                    assert(before[0].priority >= before[j].priority);
                }
            }
            Some(old_id)
        } else {
            let mut index: usize = 0;
            proof {
                assert(before.skip(0) =~= before);
            }
            while index < self.queue.len() && self.queue[index].priority >= priority
                invariant
                    index <= self.queue.len(),
                    self.queue@ == before,
                    index + insert_index(before.skip(index as int), priority) == insert_index(
                        before,
                        priority,
                    ),
                decreases self.queue.len() - index,
            {
                proof {
                    assert(before.skip(index as int).skip(1) =~= before.skip(index + 1));
                }
                index += 1;
            }
            proof {
                if (index as int) < before.len() {
                    assert(before.skip(index as int)[0] == before[index as int]);
                }
                assert(index == insert_index(before, priority));
            }
            self.queue.insert(index, token);
            proof {
                let after = self.queue@;
                assert(after == before.insert(index as int, token));
                assert forall|i: int, j: int| 0 <= i <= j < after.len() implies after[i].priority
                    >= after[j].priority by {
                    let a = if i < index { i } else { i - 1 };
                    let b = if j < index { j } else { j - 1 };
                    if i != index {
                        assert(after[i] == before[a]);
                    }
                    if j != index {
                        assert(after[j] == before[b]);
                    }
                }
                assert forall|i: int, j: int| 0 <= i < j < after.len() implies after[i].id
                    != after[j].id by {
                    let a = if i < index { i } else { i - 1 };
                    let b = if j < index { j } else { j - 1 };
                    if i != index {
                        assert(after[i] == before[a]);
                    }
                    if j != index {
                        assert(after[j] == before[b]);
                    }
                }
                assert forall|i: int| 0 <= i < after.len() implies (#[trigger] after[i]).id
                    < self.next_id by {
                    let a = if i < index { i } else { i - 1 };
                    if i != index {
                        assert(after[i] == before[a]);
                    }
                }
                assert(after[index as int] == token);
            }
            None
        };
        proof {
            lemma_find_id(self.queue@, id);
            if preempted is Some {
                assert(self.queue@[0].id == id);
            }
        }
        Grant { token: Token { id }, preempted }
    }

    /// Puts a new token into the queue as `get_token` does, unless every id
    /// has been handed out.
    pub fn try_get_token(&mut self, priority: i32) -> (r: Option<Grant>)
        requires
            old(self)@.wf(),
        ensures
            final(self)@.wf(),
            match r {
                Some(grant) => old(self)@.next_id < u32::MAX && final(self)@ == old(
                    self,
                )@.requested(priority) && grant.token.id == old(self)@.next_id && grant.preempted
                    == old(self)@.preempted_by(priority),
                None => old(self)@.next_id == u32::MAX && final(self)@ == old(self)@,
            },
    {
        if self.next_id < u32::MAX {
            Some(self.get_token(priority))
        } else {
            None
        }
    }

    /// Tells a task that waits for its token whether to go on waiting. At or
    /// after the deadline a token that still waits is withdrawn.
    pub fn poll_token(&mut self, token: &Token, now: u64, deadline: Option<u64>) -> (r: TokenPoll)
        requires
            old(self)@.wf(),
        ensures
            final(self)@.wf(),
            r == if !old(self)@.is_waiting(token.id) {
                TokenPoll::Ready
            } else if deadline matches Some(d) && now >= d {
                TokenPoll::TimedOut
            } else {
                TokenPoll::Waiting
            },
            r == TokenPoll::TimedOut ==> final(self)@ == old(self)@.released(token.id),
            r != TokenPoll::TimedOut ==> final(self)@ == old(self)@,
    {
        if !self.is_waiting(token.id) {
            return TokenPoll::Ready;
        }
        match deadline {
            Some(d) => {
                if now >= d {
                    self.release(token.id);
                    TokenPoll::TimedOut
                } else {
                    TokenPoll::Waiting
                }
            },
            None => TokenPoll::Waiting,
        }
    }
}

impl Token {
    /// Gives the grant back.
    pub fn release(&self, scheduler: &mut Scheduler) -> (r: Release)
        requires
            old(scheduler)@.wf(),
        ensures
            final(scheduler)@.wf(),
            final(scheduler)@ == old(scheduler)@.released(self.id),
            r.removed == !old(scheduler)@.is_released(self.id),
            r.activated == old(scheduler)@.activated_by_release(self.id),
    {
        scheduler.release(self.id)
    }

    /// Whether the grant was given back or taken away.
    pub fn is_released(&self, scheduler: &Scheduler) -> (r: bool)
        ensures
            r == scheduler@.is_released(self.id),
    {
        scheduler.is_released(self.id)
    }

    /// Whether the grant holds the resource.
    pub fn is_active(&self, scheduler: &Scheduler) -> (r: bool)
        ensures
            r == scheduler@.is_active(self.id),
    {
        scheduler.is_active(self.id)
    }

    /// Whether the grant waits for the resource.
    pub fn is_waiting(&self, scheduler: &Scheduler) -> (r: bool)
        ensures
            r == scheduler@.is_waiting(self.id),
    {
        scheduler.is_waiting(self.id)
    }
}

/// At most one token holds the resource.
pub proof fn lemma_one_active(s: SchedulerView, a: u32, b: u32)
    requires
        s.wf(),
        s.is_active(a),
        s.is_active(b),
    ensures
        a == b,
{
}

/// A token is in exactly one of the three states.
pub proof fn lemma_token_states(s: SchedulerView, id: u32)
    requires
        s.wf(),
    ensures
        s.is_active(id) || s.is_waiting(id) || s.is_released(id),
        !(s.is_active(id) && s.is_waiting(id)),
        !(s.is_active(id) && s.is_released(id)),
        !(s.is_waiting(id) && s.is_released(id)),
{
    lemma_find_id(s.queue, id);
}

/// A request of a higher priority than that of the active token is active
/// at once, and the token that was active has left the queue.
pub proof fn lemma_higher_priority_preempts(s: SchedulerView, active: u32, priority: i32)
    requires
        s.wf(),
        s.is_active(active),
        priority > s.queue[0].priority,
        s.next_id < u32::MAX,
    ensures
        s.requested(priority).is_active(s.next_id),
        s.requested(priority).is_released(active),
        s.preempted_by(priority) == Some(active),
{
    let after = s.requested(priority).queue;
    lemma_find_id(after, active);
    assert forall|j: int| 0 <= j < after.len() implies (#[trigger] after[j]).id != active by {
        if j > 0 {
            assert(after[j] == s.queue[j]);
        }
    }
}

/// Among requests of one priority the earlier is served first: a request of
/// the priority of the active token waits, behind every token of at least
/// that priority.
pub proof fn lemma_equal_priority_waits(s: SchedulerView, priority: i32)
    requires
        s.wf(),
        s.queue.len() > 0,
        priority <= s.queue[0].priority,
        s.next_id < u32::MAX,
    ensures
        s.requested(priority).is_waiting(s.next_id),
        s.requested(priority).queue[0] == s.queue[0],
        forall|i: int|
            0 <= i < insert_index(s.queue, priority) ==> s.requested(priority).queue[i]
                == s.queue[i],
{
    lemma_insert_index(s.queue, priority);
    let k = insert_index(s.queue, priority);
    let after = s.requested(priority).queue;
    assert(k >= 1);
    lemma_find_id(after, s.next_id);
    assert(after[k].id == s.next_id);
    assert forall|j: int| 0 <= j < after.len() && j != k implies (#[trigger] after[j]).id
        != s.next_id by {
        if j < k {
            assert(after[j] == s.queue[j]);
        } else {
            assert(after[j] == s.queue[j - 1]);
        }
    }
}

} // verus!
