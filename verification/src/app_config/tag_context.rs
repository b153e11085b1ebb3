//! The tag dispatcher: the last known value of every tag, the waiters for a
//! change, and the queue of values to write to the runtime.
//!
//! Every tag carries a version that each change of its value moves on. A
//! waiter remembers the version that it saw when it was armed and is ready
//! when the tag has another one: a change that came before the waiter was
//! armed does not satisfy it, and a change after it does.
use crate::actions::tag_dispatcher::Error;
use crate::text::same_str;
use vstd::prelude::*;

verus! {

/// How long the acknowledgement of a write is waited for, in milliseconds.
pub const SET_TAG_TIMEOUT_MS: u64 = 500;

/// A tag as a mathematical value.
pub struct TagEntry {
    pub name: Seq<char>,
    /// The last known value; `None` while it is unknown.
    pub value: Option<Seq<char>>,
    /// The value of the last change; empty before the first.
    pub latest: Seq<char>,
    /// Moves on with every change.
    pub version: u64,
}

/// A write that waits for its acknowledgement, as a mathematical value.
pub struct PendingView {
    pub ticket: u64,
    pub name: Seq<char>,
}

/// A value to write to the runtime, as a mathematical value.
pub struct RequestView {
    pub tag_name: Seq<char>,
    pub value: Seq<char>,
}

/// The dispatcher as a mathematical value.
pub struct TagContextView {
    /// The tags in the order in which they were registered.
    pub tags: Seq<TagEntry>,
    /// The values that are to be written to the runtime, oldest first.
    pub requests: Seq<RequestView>,
    /// The writes that wait for their acknowledgement, oldest first.
    pub pending: Seq<PendingView>,
    /// The ticket of the next write.
    pub next_ticket: u64,
}

/// The version after a change.
pub open spec fn next_version(v: u64) -> u64 {
    if v == u64::MAX {
        0
    } else {
        (v + 1) as u64
    }
}

/// The position of the tag with the given name, if it is registered.
pub open spec fn entry_index(tags: Seq<TagEntry>, name: Seq<char>) -> Option<int>
    decreases tags.len(),
{
    if tags.len() == 0 {
        None
    } else if tags.last().name == name {
        Some(tags.len() - 1)
    } else {
        entry_index(tags.drop_last(), name)
    }
}

/// The position that `entry_index` gives holds the name, and none is given
/// only if no tag has the name.
pub proof fn lemma_entry_index(tags: Seq<TagEntry>, name: Seq<char>)
    ensures
        match entry_index(tags, name) {
            Some(i) => 0 <= i < tags.len() && tags[i].name == name,
            None => forall|j: int| 0 <= j < tags.len() ==> (#[trigger] tags[j]).name != name,
        },
    decreases tags.len(),
{
    if tags.len() > 0 && tags.last().name != name {
        lemma_entry_index(tags.drop_last(), name);
        match entry_index(tags.drop_last(), name) {
            Some(i) => {
                assert(tags.drop_last()[i] == tags[i]);
            },
            None => {
                assert forall|j: int| 0 <= j < tags.len() implies (#[trigger] tags[j]).name
                    != name by {
                    if j < tags.len() - 1 {
                        assert(tags.drop_last()[j] == tags[j]);
                    }
                }
            },
        }
    }
}

/// The writes that still wait after the acknowledgement of the given tags.
pub open spec fn unacknowledged(pending: Seq<PendingView>, names: Seq<Seq<char>>) -> Seq<
    PendingView,
>
    decreases pending.len(),
{
    if pending.len() == 0 {
        pending
    } else if names.contains(pending.last().name) {
        unacknowledged(pending.drop_last(), names)
    } else {
        unacknowledged(pending.drop_last(), names).push(pending.last())
    }
}

/// The writes that still wait when the one with the given ticket is given
/// up.
pub open spec fn without_ticket(pending: Seq<PendingView>, ticket: u64) -> Seq<PendingView>
    decreases pending.len(),
{
    if pending.len() == 0 {
        pending
    } else if pending.last().ticket == ticket {
        without_ticket(pending.drop_last(), ticket)
    } else {
        without_ticket(pending.drop_last(), ticket).push(pending.last())
    }
}

/// Whether a write with the given ticket waits.
pub open spec fn is_pending(pending: Seq<PendingView>, ticket: u64) -> bool {
    exists|i: int| 0 <= i < pending.len() && (#[trigger] pending[i]).ticket == ticket
}

/// A waiter for the next change of a tag.
#[derive(Debug)]
pub struct TagWait {
    pub name: String,
    pub version: u64,
}

/// A write that waits for its acknowledgement.
#[derive(Debug, Clone, Copy, PartialEq, Eq, Structural)]
pub struct SetTagWait {
    pub ticket: u64,
    /// The time, in milliseconds, after which the write is no longer waited
    /// for.
    pub deadline: u64,
}

impl TagContextView {
    /// What holds of every dispatcher: no two tags have the same name.
    pub open spec fn wf(self) -> bool {
        forall|i: int, j: int| 0 <= i < j < self.tags.len() ==> self.tags[i].name != self.tags[j].name
    }

    /// The last known value of a tag; `None` if it is unknown or the tag is
    /// not registered.
    pub open spec fn current(self, name: Seq<char>) -> Option<Seq<char>> {
        match entry_index(self.tags, name) {
            Some(i) => self.tags[i].value,
            None => None,
        }
    }

    /// The dispatcher after a tag is registered. A tag that is registered
    /// already stays as it is.
    pub open spec fn added(self, name: Seq<char>, value: Option<Seq<char>>) -> TagContextView {
        if entry_index(self.tags, name) is Some {
            self
        } else {
            TagContextView {
                tags: self.tags.push(TagEntry { name, value, latest: Seq::empty(), version: 0 }),
                ..self
            }
        }
    }

    /// The dispatcher after the value of a tag has changed. A change of a
    /// tag that is not registered is ignored.
    pub open spec fn changed(self, name: Seq<char>, value: Seq<char>) -> TagContextView {
        match entry_index(self.tags, name) {
            Some(i) => TagContextView {
                tags: self.tags.update(
                    i,
                    TagEntry {
                        name: self.tags[i].name,
                        value: Some(value),
                        latest: value,
                        version: next_version(self.tags[i].version),
                    },
                ),
                ..self
            },
            None => self,
        }
    }

    /// The dispatcher after a value is set from within: the tag has changed
    /// and the value is queued for the runtime.
    pub open spec fn set(self, name: Seq<char>, value: Seq<char>) -> TagContextView {
        let c = self.changed(name, value);
        TagContextView { requests: c.requests.push(RequestView { tag_name: name, value }), ..c }
    }

    /// What a waiter armed now for the tag would hold: the version of the
    /// tag.
    pub open spec fn armed(self, name: Seq<char>) -> Option<u64> {
        match entry_index(self.tags, name) {
            Some(i) => Some(self.tags[i].version),
            None => None,
        }
    }

    /// What a waiter gets: nothing while the tag has the version that the
    /// waiter holds, else the value of the last change.
    pub open spec fn polled(self, name: Seq<char>, version: u64) -> Result<
        Option<Seq<char>>,
        Error,
    > {
        match entry_index(self.tags, name) {
            Some(i) => if self.tags[i].version == version {
                Ok(None)
            } else {
                Ok(Some(self.tags[i].latest))
            },
            None => Err(Error::TagNotFound),
        }
    }
}

struct TagObservable {
    name: String,
    state: Option<String>,
    latest: String,
    version: u64,
}

impl View for TagObservable {
    type V = TagEntry;

    closed spec fn view(&self) -> TagEntry {
        TagEntry {
            name: self.name@,
            value: match self.state {
                Some(s) => Some(s@),
                None => None,
            },
            latest: self.latest@,
            version: self.version,
        }
    }
}

/// A value to write to the runtime.
#[derive(Debug)]
pub struct TagSetRequest {
    pub tag_name: String,
    pub value: String,
}

impl View for TagSetRequest {
    type V = RequestView;

    open spec fn view(&self) -> RequestView {
        RequestView { tag_name: self.tag_name@, value: self.value@ }
    }
}

struct PendingWrite {
    ticket: u64,
    name: String,
}

impl View for PendingWrite {
    type V = PendingView;

    closed spec fn view(&self) -> PendingView {
        PendingView { ticket: self.ticket, name: self.name@ }
    }
}

/// The tag dispatcher.
pub struct TagContext {
    tags: Vec<TagObservable>,
    requests: Vec<TagSetRequest>,
    pending: Vec<PendingWrite>,
    next_ticket: u64,
}

spec fn entries(tags: Seq<TagObservable>) -> Seq<TagEntry> {
    Seq::new(tags.len(), |i: int| tags[i]@)
}

/// The views of a list of requests.
pub open spec fn request_views(requests: Seq<TagSetRequest>) -> Seq<RequestView> {
    Seq::new(requests.len(), |i: int| requests[i]@)
}

spec fn pending_views(pending: Seq<PendingWrite>) -> Seq<PendingView> {
    Seq::new(pending.len(), |i: int| pending[i]@)
}

impl View for TagContext {
    type V = TagContextView;

    closed spec fn view(&self) -> TagContextView {
        TagContextView {
            tags: entries(self.tags@),
            requests: request_views(self.requests@),
            pending: pending_views(self.pending@),
            next_ticket: self.next_ticket,
        }
    }
}

/// The text of an optional string.
pub open spec fn option_text(s: Option<String>) -> Option<Seq<char>> {
    match s {
        Some(s) => Some(s@),
        None => None,
    }
}

impl TagContext {
    /// A dispatcher without tags.
    pub fn new() -> (r: TagContext)
        ensures
            r@.wf(),
            r@.tags.len() == 0,
            r@.requests.len() == 0,
            r@.pending.len() == 0,
            r@.next_ticket == 0,
    {
        TagContext { tags: Vec::new(), requests: Vec::new(), pending: Vec::new(), next_ticket: 0 }
    }

    fn find(&self, name: &str) -> (r: Option<usize>)
        ensures
            match r {
                Some(i) => entry_index(self@.tags, name@) == Some(i as int) && i < self.tags.len(),
                None => entry_index(self@.tags, name@) is None,
            },
    {
        let ghost views = entries(self.tags@);
        let mut i: usize = self.tags.len();
        proof {
            assert(views.take(views.len() as int) =~= views);
        }
        while i > 0
            invariant
                i <= self.tags.len(),
                views == entries(self.tags@),
                entry_index(views, name@) == entry_index(views.take(i as int), name@),
            decreases i,
        {
            i -= 1;
            proof {
                assert(views.take(i + 1).last() == self.tags@[i as int]@);
                assert(views.take(i + 1).drop_last() =~= views.take(i as int));
            }
            if same_str(self.tags[i].name.as_str(), name) {
                return Some(i);
            }
        }
        None
    }

    /// Records that the value of a tag has changed and wakes its waiters. A
    /// tag that is not registered is ignored.
    pub fn tag_changed(&mut self, name: &str, new_value: &str)
        requires
            old(self)@.wf(),
        ensures
            final(self)@.wf(),
            final(self)@ == old(self)@.changed(name@, new_value@),
    {
        let ghost before = self@;
        if let Some(i) = self.find(name) {
            let version = self.tags[i].version.wrapping_add(1);
            let entry = TagObservable {
                name: self.tags[i].name.clone(),
                state: Some(new_value.to_owned()),
                latest: new_value.to_owned(),
                version,
            };
            self.tags.set(i, entry);
            proof {
                assert(self@.tags =~= before.changed(name@, new_value@).tags);
                assert(self@.requests =~= before.requests);
                assert(self@.pending =~= before.pending);
                assert forall|a: int, b: int| 0 <= a < b < self@.tags.len() implies self@.tags[a].name
                    != self@.tags[b].name by {
                    assert(self@.tags[a].name == before.tags[a].name);
                    assert(self@.tags[b].name == before.tags[b].name);
                }
            }
        }
    }

    /// The names of the registered tags, in the order of their registration.
    pub fn tag_names(&self) -> (r: Vec<String>)
        ensures
            r@.len() == self@.tags.len(),
            forall|i: int| 0 <= i < r@.len() ==> (#[trigger] r@[i])@ == self@.tags[i].name,
    {
        let mut names: Vec<String> = Vec::new();
        let mut i: usize = 0;
        while i < self.tags.len()
            invariant
                i <= self.tags.len(),
                names@.len() == i,
                forall|k: int| 0 <= k < i ==> (#[trigger] names@[k])@ == self@.tags[k].name,
            decreases self.tags.len() - i,
        {
            let ghost before = names@;
            names.push(self.tags[i].name.clone());
            proof {
                assert forall|k: int| 0 <= k < i + 1 implies (#[trigger] names@[k])@
                    == self@.tags[k].name by {
                    if k < i {
                        assert(names@[k] == before[k]);
                    }
                }
            }
            i += 1;
        }
        names
    }

    /// Registers a tag with its value, if it is known. A tag that is
    /// registered already stays as it is.
    pub fn add_tag(&mut self, name: &str, state: Option<String>)
        requires
            old(self)@.wf(),
        ensures
            final(self)@.wf(),
            final(self)@ == old(self)@.added(name@, option_text(state)),
    {
        let ghost before = self@;
        proof {
            lemma_entry_index(before.tags, name@);
        }
        if self.find(name).is_none() {
            self.tags.push(
                TagObservable { name: name.to_owned(), state, latest: String::new(), version: 0 },
            );
            proof {
                assert(self@.tags =~= before.added(name@, option_text(state)).tags);
                assert(self@.requests =~= before.requests);
                assert(self@.pending =~= before.pending);
                assert forall|a: int, b: int| 0 <= a < b < self@.tags.len() implies self@.tags[a].name
                    != self@.tags[b].name by {
                    if b == before.tags.len() {
                        assert(before.tags[a].name != name@);
                    } else {
                        assert(before.tags[a].name != before.tags[b].name);
                    }
                }
            }
        }
    }

    /// Changes the value of a tag from within and queues the value for the
    /// runtime. Whether the runtime takes the value is not waited for.
    pub fn set_tag(&mut self, tag_name: &str, value: &str)
        requires
            old(self)@.wf(),
        ensures
            final(self)@.wf(),
            final(self)@ == old(self)@.set(tag_name@, value@),
    {
        self.tag_changed(tag_name, value);
        let ghost before = self@;
        self.requests.push(TagSetRequest { tag_name: tag_name.to_owned(), value: value.to_owned() });
        proof {
            assert(self@.requests =~= before.requests.push(
                RequestView { tag_name: tag_name@, value: value@ },
            ));
            assert(self@.tags =~= before.tags);
            assert(self@.pending =~= before.pending);
        }
    }

    /// Changes the value of a tag from within, queues the value for the
    /// runtime, and returns a waiter for the acknowledgement of the write.
    /// The waiter gives up `SET_TAG_TIMEOUT_MS` after `now`.
    pub fn async_set_tag(&mut self, tag_name: &str, value: &str, now: u64) -> (r: SetTagWait)
        requires
            old(self)@.wf(),
        ensures
            final(self)@.wf(),
            final(self)@ == (TagContextView {
                pending: old(self)@.pending.push(
                    PendingView { ticket: old(self)@.next_ticket, name: tag_name@ },
                ),
                next_ticket: next_version(old(self)@.next_ticket),
                ..old(self)@.set(tag_name@, value@)
            }),
            r.ticket == old(self)@.next_ticket,
            r.deadline == if now + SET_TAG_TIMEOUT_MS > u64::MAX {
                u64::MAX
            } else {
                (now + SET_TAG_TIMEOUT_MS) as u64
            },
    {
        self.set_tag(tag_name, value);
        let ghost before = self@;
        let ticket = self.next_ticket;
        self.next_ticket = self.next_ticket.wrapping_add(1);
        self.pending.push(PendingWrite { ticket, name: tag_name.to_owned() });
        proof {
            assert(self@.pending =~= before.pending.push(
                PendingView { ticket, name: tag_name@ },
            ));
            assert(self@.tags =~= before.tags);
            assert(self@.requests =~= before.requests);
        }
        SetTagWait { ticket, deadline: now.saturating_add(SET_TAG_TIMEOUT_MS) }
    }

    /// Takes what is queued for the runtime out of the queue.
    pub fn take_requests(&mut self) -> (r: Vec<TagSetRequest>)
        requires
            old(self)@.wf(),
        ensures
            final(self)@.wf(),
            request_views(r@) == old(self)@.requests,
            final(self)@ == (TagContextView { requests: Seq::empty(), ..old(self)@ }),
    {
        let ghost before = self@;
        let mut taken: Vec<TagSetRequest> = Vec::new();
        let ghost moved = self.requests@;
        taken.append(&mut self.requests);
        proof {
            assert(taken@ =~= moved);
            assert(self@.requests =~= Seq::<RequestView>::empty());
            assert(self@.tags =~= before.tags);
            assert(self@.pending =~= before.pending);
        }
        taken
    }

    /// Records that the runtime has acknowledged the write of the given
    /// tags: every write of one of them that waits is done.
    pub fn write_acknowledged(&mut self, names: &Vec<String>)
        requires
            old(self)@.wf(),
        ensures
            final(self)@.wf(),
            final(self)@ == (TagContextView {
                pending: unacknowledged(old(self)@.pending, crate::name_set::texts(names@)),
                ..old(self)@
            }),
    {
        let ghost before = self@;
        let ghost views = pending_views(self.pending@);
        let ghost acked = crate::name_set::texts(names@);
        let mut rest: Vec<PendingWrite> = Vec::new();
        let mut i: usize = 0;
        proof {
            assert(views.take(0).len() == 0);
            assert(pending_views(rest@) =~= unacknowledged(views.take(0), acked));
        }
        while i < self.pending.len()
            invariant
                i <= self.pending.len(),
                self@ == before,
                views == pending_views(self.pending@),
                acked == crate::name_set::texts(names@),
                pending_views(rest@) == unacknowledged(views.take(i as int), acked),
            decreases self.pending.len() - i,
        {
            let ghost old_rest = pending_views(rest@);
            proof {
                assert(views.take(i + 1).drop_last() =~= views.take(i as int));
                assert(views.take(i + 1).last() == self.pending@[i as int]@);
            }
            let p = &self.pending[i];
            match crate::name_set::position(names, p.name.as_str()) {
                Some(k) => {
                    proof {
                        assert(acked[k as int] == p.name@);
                    }
                },
                None => {
                    proof {
                        assert forall|k: int| 0 <= k < acked.len() implies acked[k] != p.name@ by {
                            assert(names@[k]@ != p.name@);
                        }
                    }
                    rest.push(PendingWrite { ticket: p.ticket, name: p.name.clone() });
                    proof {
                        assert(pending_views(rest@) =~= old_rest.push(views[i as int]));
                    }
                },
            }
            i += 1;
        }
        proof {
            assert(views.take(views.len() as int) =~= views);
        }
        self.pending = rest;
        proof {
            assert(self@.tags =~= before.tags);
            assert(self@.requests =~= before.requests);
        }
    }

    /// Whether the write with the given ticket waits for its acknowledgement.
    fn has_pending(&self, ticket: u64) -> (r: Option<usize>)
        ensures
            r is Some <==> is_pending(self@.pending, ticket),
            r matches Some(i) ==> i < self.pending.len() && self.pending@[i as int].ticket
                == ticket,
    {
        let mut i: usize = 0;
        while i < self.pending.len()
            invariant
                i <= self.pending.len(),
                forall|k: int| 0 <= k < i ==> (#[trigger] self@.pending[k]).ticket != ticket,
            decreases self.pending.len() - i,
        {
            if self.pending[i].ticket == ticket {
                assert(self@.pending[i as int].ticket == ticket);
                return Some(i);
            }
            assert(self@.pending[i as int].ticket == self.pending@[i as int].ticket);
            i += 1;
        }
        None
    }

    /// Tells the waiter of a write whether it is done: the write has been
    /// acknowledged, or the waiter's time is over, in which case the write
    /// is no longer waited for. Both count as success.
    pub fn poll_set_tag(&mut self, wait: &SetTagWait, now: u64) -> (done: bool)
        requires
            old(self)@.wf(),
        ensures
            final(self)@.wf(),
            done == (!is_pending(old(self)@.pending, wait.ticket) || now >= wait.deadline),
            final(self)@ == if done {
                TagContextView {
                    pending: without_ticket(old(self)@.pending, wait.ticket),
                    ..old(self)@
                }
            } else {
                old(self)@
            },
    {
        if self.has_pending(wait.ticket).is_some() && now < wait.deadline {
            return false;
        }
        self.forget(wait.ticket);
        true
    }

    /// Gives up waiting for the acknowledgement of a write.
    pub fn forget(&mut self, ticket: u64)
        requires
            old(self)@.wf(),
        ensures
            final(self)@.wf(),
            final(self)@ == (TagContextView {
                pending: without_ticket(old(self)@.pending, ticket),
                ..old(self)@
            }),
    {
        let ghost before = self@;
        let ghost views = pending_views(self.pending@);
        let mut rest: Vec<PendingWrite> = Vec::new();
        let mut i: usize = 0;
        proof {
            assert(views.take(0).len() == 0);
            assert(pending_views(rest@) =~= without_ticket(views.take(0), ticket));
        }
        while i < self.pending.len()
            invariant
                i <= self.pending.len(),
                self@ == before,
                views == pending_views(self.pending@),
                pending_views(rest@) == without_ticket(views.take(i as int), ticket),
            decreases self.pending.len() - i,
        {
            let ghost old_rest = pending_views(rest@);
            proof {
                assert(views.take(i + 1).drop_last() =~= views.take(i as int));
                assert(views.take(i + 1).last() == self.pending@[i as int]@);
            }
            let p = &self.pending[i];
            if p.ticket != ticket {
                rest.push(PendingWrite { ticket: p.ticket, name: p.name.clone() });
                proof {
                    assert(pending_views(rest@) =~= old_rest.push(views[i as int]));
                }
            }
            i += 1;
        }
        proof {
            assert(views.take(views.len() as int) =~= views);
        }
        self.pending = rest;
        proof {
            assert(self@.tags =~= before.tags);
            assert(self@.requests =~= before.requests);
        }
    }

    /// Whether a tag of the given name is registered.
    pub fn has_tag(&self, name: &str) -> (r: bool)
        ensures
            r == entry_index(self@.tags, name@) is Some,
    {
        self.find(name).is_some()
    }

    /// The last known value of a tag and a waiter for its next change.
    pub fn wait_value(&self, tag: &str) -> (r: Result<(Option<String>, TagWait), Error>)
        ensures
            match r {
                Ok((value, wait)) => self@.armed(tag@) == Some(wait.version) && wait.name@ == tag@
                    && option_text(value) == self@.current(tag@),
                Err(e) => self@.armed(tag@) is None && e == Error::TagNotFound,
            },
    {
        match self.find(tag) {
            Some(i) => {
                let value = match &self.tags[i].state {
                    Some(s) => Some(s.clone()),
                    None => None,
                };
                Ok((value, TagWait { name: tag.to_owned(), version: self.tags[i].version }))
            },
            None => Err(Error::TagNotFound),
        }
    }

    /// What a waiter gets now: nothing while the tag has not changed since
    /// the waiter was armed, else the value of the last change.
    pub fn poll_wait(&self, wait: &TagWait) -> (r: Result<Option<String>, Error>)
        ensures
            match r {
                Ok(value) => self@.polled(wait.name@, wait.version) == Ok::<
                    Option<Seq<char>>,
                    Error,
                >(option_text(value)),
                Err(e) => self@.polled(wait.name@, wait.version) == Err::<Option<Seq<char>>, Error>(
                    e,
                ),
            },
    {
        match self.find(wait.name.as_str()) {
            Some(i) => {
                if self.tags[i].version == wait.version {
                    Ok(None)
                } else {
                    Ok(Some(self.tags[i].latest.clone()))
                }
            },
            None => Err(Error::TagNotFound),
        }
    }

    /// What a waiter for the tag `name` that holds the version `version`
    /// gets now.
    pub fn poll_version(&self, name: &str, version: u64) -> (r: Result<Option<String>, Error>)
        ensures
            match r {
                Ok(value) => self@.polled(name@, version) == Ok::<Option<Seq<char>>, Error>(
                    option_text(value),
                ),
                Err(e) => self@.polled(name@, version) == Err::<Option<Seq<char>>, Error>(e),
            },
    {
        match self.find(name) {
            Some(i) => {
                if self.tags[i].version == version {
                    Ok(None)
                } else {
                    Ok(Some(self.tags[i].latest.clone()))
                }
            },
            None => Err(Error::TagNotFound),
        }
    }

    /// The last known value of a tag; `None` if it is unknown or the tag is
    /// not registered.
    pub fn get_value(&self, tag: &str) -> (r: Option<String>)
        ensures
            option_text(r) == self@.current(tag@),
    {
        match self.find(tag) {
            Some(i) => match &self.tags[i].state {
                Some(s) => Some(s.clone()),
                None => None,
            },
            None => None,
        }
    }
}

/// A waiter is not satisfied by what happened before it was armed: right
/// after arming it gets nothing, whatever changes the tag has seen.
pub proof fn lemma_armed_waiter_waits(ctx: TagContextView, name: Seq<char>)
    requires
        ctx.wf(),
        ctx.armed(name) is Some,
    ensures
        ctx.polled(name, ctx.armed(name)->0) == Ok::<Option<Seq<char>>, Error>(None),
{
}

/// The first change after a waiter was armed satisfies it, and the waiter
/// gets the new value.
pub proof fn lemma_change_wakes_waiter(ctx: TagContextView, name: Seq<char>, value: Seq<char>)
    requires
        ctx.wf(),
        ctx.armed(name) is Some,
    ensures
        ctx.changed(name, value).polled(name, ctx.armed(name)->0) == Ok::<
            Option<Seq<char>>,
            Error,
        >(Some(value)),
        ctx.changed(name, value).current(name) == Some(value),
{
    lemma_entry_index(ctx.tags, name);
    let i = entry_index(ctx.tags, name)->0;
    lemma_index_after_change(ctx, name, value, name);
}

/// A change of one tag does not wake the waiters of another.
pub proof fn lemma_other_change_keeps_waiting(
    ctx: TagContextView,
    name: Seq<char>,
    other: Seq<char>,
    value: Seq<char>,
)
    requires
        ctx.wf(),
        ctx.armed(name) is Some,
        other != name,
    ensures
        ctx.changed(other, value).polled(name, ctx.armed(name)->0) == Ok::<
            Option<Seq<char>>,
            Error,
        >(None),
{
    lemma_entry_index(ctx.tags, name);
    lemma_entry_index(ctx.tags, other);
    lemma_index_after_change(ctx, other, value, name);
}

/// A change keeps every tag at its place.
pub proof fn lemma_index_after_change(
    ctx: TagContextView,
    name: Seq<char>,
    value: Seq<char>,
    looked_up: Seq<char>,
)
    requires
        ctx.wf(),
    ensures
        entry_index(ctx.changed(name, value).tags, looked_up) == entry_index(ctx.tags, looked_up),
        ctx.changed(name, value).wf(),
{
    lemma_entry_index(ctx.tags, name);
    let after = ctx.changed(name, value).tags;
    assert(after.len() == ctx.tags.len());
    assert forall|k: int| 0 <= k < after.len() implies (#[trigger] after[k]).name
        == ctx.tags[k].name by {}
    lemma_same_names_same_index(ctx.tags, after, looked_up);
}

/// Two lists of tags with the same names at the same places give the same
/// place for a name.
pub proof fn lemma_same_names_same_index(a: Seq<TagEntry>, b: Seq<TagEntry>, name: Seq<char>)
    requires
        a.len() == b.len(),
        forall|k: int| 0 <= k < a.len() ==> (#[trigger] a[k]).name == b[k].name,
    ensures
        entry_index(a, name) == entry_index(b, name),
    decreases a.len(),
{
    if a.len() > 0 {
        assert(a.last().name == b.last().name);
        assert forall|k: int| 0 <= k < a.drop_last().len() implies (#[trigger] a.drop_last()[k]).name
            == b.drop_last()[k].name by {
            assert(a.drop_last()[k] == a[k]);
            assert(b.drop_last()[k] == b[k]);
        }
        lemma_same_names_same_index(a.drop_last(), b.drop_last(), name);
    }
}

} // verus!
