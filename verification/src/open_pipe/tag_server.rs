//! The tag side of an Open Pipe server: the tags with their values, and the
//! clients that asked to be told of changes.
//!
//! The server decides what to send and to whom. The caller sends: every
//! message that a function returns or appends to an outbox carries the cookie
//! of the subscription that it is for.
use crate::name_set::{texts, NameSet};
use crate::open_pipe::connection::{
    ErrorInfo, Message, MessageVariant, NotifyTag, NotifyTags, NotifyWriteTag, NotifyWriteTags,
    ParamWrapperCap, TagData, TagValue, WriteTagValue,
};
use crate::text::same_str;
use vstd::prelude::*;

verus! {

/// A client that wants to be told of changes.
struct Subscription {
    tags: Vec<String>,
    cookie: String,
}

/// A subscription as a mathematical value: the tags asked for, where none
/// means every tag, and the cookie of the client.
pub struct SubscriptionView {
    pub tags: Seq<Seq<char>>,
    pub cookie: Seq<char>,
}

impl View for Subscription {
    type V = SubscriptionView;

    closed spec fn view(&self) -> SubscriptionView {
        SubscriptionView { tags: texts(self.tags@), cookie: self.cookie@ }
    }
}

/// The server as a mathematical value.
pub struct TagServerView {
    /// The tags in the order in which they became known.
    pub tags: Seq<TagValue>,
    /// The subscriptions in the order in which they were made.
    pub subscriptions: Seq<SubscriptionView>,
    /// Whether a tag that a client subscribes to and that is not known is
    /// made, with the value `0`.
    pub populate: bool,
}

/// The position of the tag with the given name, if there is one.
pub open spec fn tag_index(tags: Seq<TagValue>, name: Seq<char>) -> Option<int>
    decreases tags.len(),
{
    if tags.len() == 0 {
        None
    } else if tags.last().name == name {
        Some(tags.len() - 1)
    } else {
        tag_index(tags.drop_last(), name)
    }
}

/// The position of the subscription with the given cookie, if there is one.
pub open spec fn subscription_index(subs: Seq<SubscriptionView>, cookie: Seq<char>) -> Option<int>
    decreases subs.len(),
{
    if subs.len() == 0 {
        None
    } else if subs.last().cookie == cookie {
        Some(subs.len() - 1)
    } else {
        subscription_index(subs.drop_last(), cookie)
    }
}

/// A tag of good quality with the given value.
pub open spec fn good_tag(name: Seq<char>, value: Seq<char>) -> TagValue {
    TagValue { name, value, quality: "Good"@, quality_code: 192 }
}

/// The tags after the value of one is set: the tag keeps its place and its
/// quality, and a tag that was not known is added at the end.
pub open spec fn with_value(tags: Seq<TagValue>, name: Seq<char>, value: Seq<char>) -> Seq<
    TagValue,
> {
    match tag_index(tags, name) {
        Some(i) => tags.update(i, TagValue { value, ..tags[i] }),
        None => tags.push(good_tag(name, value)),
    }
}

/// The tags after each name that is not known is added with the value `0`.
pub open spec fn populated(tags: Seq<TagValue>, names: Seq<Seq<char>>) -> Seq<TagValue>
    decreases names.len(),
{
    if names.len() == 0 {
        tags
    } else {
        let before = populated(tags, names.drop_last());
        if tag_index(before, names.last()) is Some {
            before
        } else {
            before.push(good_tag(names.last(), "0"@))
        }
    }
}

/// The tags that are reported for a list of names, in the order of the
/// list: those that are known. For the empty list, every tag.
pub open spec fn reported(tags: Seq<TagValue>, names: Seq<Seq<char>>) -> Seq<TagValue> {
    if names.len() == 0 {
        tags
    } else {
        reported_named(tags, names)
    }
}

/// The known tags among a list of names, in the order of the list.
pub open spec fn reported_named(tags: Seq<TagValue>, names: Seq<Seq<char>>) -> Seq<TagValue>
    decreases names.len(),
{
    if names.len() == 0 {
        Seq::empty()
    } else {
        let before = reported_named(tags, names.drop_last());
        match tag_index(tags, names.last()) {
            Some(i) => before.push(tags[i]),
            None => before,
        }
    }
}

/// The tags carried by a list of notifications.
pub open spec fn payload(notes: Seq<NotifyTag>) -> Seq<TagValue> {
    Seq::new(notes.len(), |i: int| notes[i].data@)
}

/// Every notification carries the time stamp and no error.
pub open spec fn stamped(notes: Seq<NotifyTag>, time_stamp: Seq<char>) -> bool {
    forall|i: int|
        0 <= i < notes.len() ==> (#[trigger] notes[i]).time_stamp@ == time_stamp
            && notes[i].error.error_code == 0 && notes[i].error.error_description@.len() == 0
}

/// No notification carries an error: the error code is zero and the
/// description is empty.
pub open spec fn faultless(notes: Seq<NotifyTag>) -> bool {
    forall|i: int|
        0 <= i < notes.len() ==> (#[trigger] notes[i]).error.error_code == 0
            && notes[i].error.error_description@.len() == 0
}

/// All notifications carry the same time stamp.
pub open spec fn one_stamp(notes: Seq<NotifyTag>) -> bool {
    forall|i: int, j: int|
        0 <= i < notes.len() && 0 <= j < notes.len() ==> (#[trigger] notes[i]).time_stamp@ == (
        #[trigger] notes[j]).time_stamp@
}

/// The views of a list of tags.
pub open spec fn tag_values(tags: Seq<TagData>) -> Seq<TagValue> {
    Seq::new(tags.len(), |i: int| tags[i]@)
}

/// The views of a list of subscriptions.
spec fn subscription_views(subs: Seq<Subscription>) -> Seq<SubscriptionView> {
    Seq::new(subs.len(), |i: int| subs[i]@)
}

/// No two tags have the same name.
pub open spec fn distinct_tags(tags: Seq<TagValue>) -> bool {
    forall|i: int, j: int| 0 <= i < j < tags.len() ==> tags[i].name != tags[j].name
}

/// No two subscriptions have the same cookie.
pub open spec fn distinct_cookies(subs: Seq<SubscriptionView>) -> bool {
    forall|i: int, j: int| 0 <= i < j < subs.len() ==> subs[i].cookie != subs[j].cookie
}

/// The position that `tag_index` gives holds the name, and no position is
/// given only if no tag has the name.
pub proof fn lemma_tag_index(tags: Seq<TagValue>, name: Seq<char>)
    ensures
        match tag_index(tags, name) {
            Some(i) => 0 <= i < tags.len() && tags[i].name == name && forall|j: int|
                i < j < tags.len() ==> (#[trigger] tags[j]).name != name,
            None => forall|j: int| 0 <= j < tags.len() ==> (#[trigger] tags[j]).name != name,
        },
    decreases tags.len(),
{
    if tags.len() > 0 && tags.last().name != name {
        lemma_tag_index(tags.drop_last(), name);
        match tag_index(tags.drop_last(), name) {
            Some(i) => {
                assert(tags.drop_last()[i] == tags[i]);
                assert forall|j: int| i < j < tags.len() implies (#[trigger] tags[j]).name
                    != name by {
                    if j < tags.len() - 1 {
                        assert(tags.drop_last()[j] == tags[j]);
                    }
                }
            },
            None => {
                assert forall|j: int| 0 <= j < tags.len() implies (#[trigger] tags[j]).name
                    != name by {
                    if j < tags.len() - 1 {
                        assert(tags.drop_last()[j] == tags[j]);
                    }
                }
            },
        }
    }
}

/// The position that `subscription_index` gives holds the cookie, and no
/// position is given only if no subscription has the cookie.
pub proof fn lemma_subscription_index(subs: Seq<SubscriptionView>, cookie: Seq<char>)
    ensures
        match subscription_index(subs, cookie) {
            Some(i) => 0 <= i < subs.len() && subs[i].cookie == cookie && forall|j: int|
                i < j < subs.len() ==> (#[trigger] subs[j]).cookie != cookie,
            None => forall|j: int| 0 <= j < subs.len() ==> (#[trigger] subs[j]).cookie != cookie,
        },
    decreases subs.len(),
{
    if subs.len() > 0 && subs.last().cookie != cookie {
        lemma_subscription_index(subs.drop_last(), cookie);
        match subscription_index(subs.drop_last(), cookie) {
            Some(i) => {
                assert(subs.drop_last()[i] == subs[i]);
                assert forall|j: int| i < j < subs.len() implies (#[trigger] subs[j]).cookie
                    != cookie by {
                    if j < subs.len() - 1 {
                        assert(subs.drop_last()[j] == subs[j]);
                    }
                }
            },
            None => {
                assert forall|j: int| 0 <= j < subs.len() implies (#[trigger] subs[j]).cookie
                    != cookie by {
                    if j < subs.len() - 1 {
                        assert(subs.drop_last()[j] == subs[j]);
                    }
                }
            },
        }
    }
}

/// Finds a tag by its name.
fn find_tag(tags: &Vec<TagData>, name: &str) -> (r: Option<usize>)
    ensures
        match r {
            Some(i) => tag_index(tag_values(tags@), name@) == Some(i as int) && i < tags.len(),
            None => tag_index(tag_values(tags@), name@) is None,
        },
{
    let ghost values = tag_values(tags@);
    let mut i: usize = tags.len();
    proof {
        assert(values.take(values.len() as int) =~= values);
    }
    while i > 0
        invariant
            i <= tags.len(),
            values == tag_values(tags@),
            tag_index(values, name@) == tag_index(values.take(i as int), name@),
        decreases i,
    {
        i -= 1;
        proof {
            assert(values.take(i + 1).last() == tags@[i as int]@);
            assert(values.take(i + 1).drop_last() =~= values.take(i as int));
        }
        if same_str(tags[i].name.as_str(), name) {
            return Some(i);
        }
    }
    None
}

/// Finds a subscription by its cookie.
fn find_subscription(subs: &Vec<Subscription>, cookie: &str) -> (r: Option<usize>)
    ensures
        match r {
            Some(i) => subscription_index(subscription_views(subs@), cookie@) == Some(i as int)
                && i < subs.len(),
            None => subscription_index(subscription_views(subs@), cookie@) is None,
        },
{
    let ghost views = subscription_views(subs@);
    let mut i: usize = subs.len();
    proof {
        assert(views.take(views.len() as int) =~= views);
    }
    while i > 0
        invariant
            i <= subs.len(),
            views == subscription_views(subs@),
            subscription_index(views, cookie@) == subscription_index(
                views.take(i as int),
                cookie@,
            ),
        decreases i,
    {
        i -= 1;
        proof {
            assert(views.take(i + 1).last() == subs@[i as int]@);
            assert(views.take(i + 1).drop_last() =~= views.take(i as int));
        }
        if same_str(subs[i].cookie.as_str(), cookie) {
            return Some(i);
        }
    }
    None
}

/// Calls `chrono::Utc::now` and writes the time as `to_rfc3339` does.
/// Nothing is known of the result.
#[verifier::external_body]
fn current_time_stamp() -> (r: String) {
    chrono::Utc::now().to_rfc3339()
}

/// A copy of a list of names.
fn copy_names(names: &Vec<String>) -> (r: Vec<String>)
    ensures
        texts(r@) == texts(names@),
{
    let mut r: Vec<String> = Vec::new();
    let mut i: usize = 0;
    while i < names.len()
        invariant
            i <= names.len(),
            r@.len() == i,
            texts(r@) == texts(names@).take(i as int),
        decreases names.len() - i,
    {
        let ghost before = r@;
        r.push(names[i].clone());
        proof {
            assert forall|j: int| 0 <= j < i + 1 implies texts(r@)[j] == texts(names@)[j] by {
                if j < i {
                    assert(r@[j] == before[j]);
                    assert(texts(before)[j] == texts(names@).take(i as int)[j]);
                }
            }
            assert(texts(r@) =~= texts(names@).take(i + 1));
        }
        i += 1;
    }
    proof {
        assert(texts(names@).take(names@.len() as int) =~= texts(names@));
    }
    r
}

/// The notification of one tag.
fn note(tag: &TagData, time_stamp: &str) -> (r: NotifyTag)
    ensures
        r.data == *tag,
        r.time_stamp@ == time_stamp@,
        r.error.error_code == 0,
        r.error.error_description@.len() == 0,
{
    NotifyTag {
        data: tag.duplicate(),
        time_stamp: time_stamp.to_owned(),
        error: ErrorInfo { error_code: 0, error_description: String::new() },
    }
}

/// What one subscription is told after a change: whether it is told at all,
/// and of which tags.
pub open spec fn interested(
    sub: SubscriptionView,
    changed: Seq<Seq<char>>,
    exclude: Option<Seq<char>>,
) -> bool {
    &&& exclude != Some(sub.cookie)
    &&& sub.tags.len() == 0 || exists|i: int|
        0 <= i < sub.tags.len() && changed.contains(#[trigger] sub.tags[i])
}

/// One message to a subscriber, as a mathematical value.
pub struct Notice {
    pub cookie: Seq<char>,
    pub tags: Seq<TagValue>,
}

/// The subscriptions that stay when the clients named in `dropped` are gone.
pub open spec fn kept(subs: Seq<SubscriptionView>, dropped: Seq<Seq<char>>) -> Seq<
    SubscriptionView,
>
    decreases subs.len(),
{
    if subs.len() == 0 {
        subs
    } else if dropped.contains(subs.last().cookie) {
        kept(subs.drop_last(), dropped)
    } else {
        kept(subs.drop_last(), dropped).push(subs.last())
    }
}

/// The messages that a change causes: one for each subscription that is
/// interested, in the order of the subscriptions, with the tags that the
/// subscription asked for.
pub open spec fn notices(
    subs: Seq<SubscriptionView>,
    tags: Seq<TagValue>,
    changed: Seq<Seq<char>>,
    exclude: Option<Seq<char>>,
) -> Seq<Notice>
    decreases subs.len(),
{
    if subs.len() == 0 {
        Seq::empty()
    } else {
        let before = notices(subs.drop_last(), tags, changed, exclude);
        if interested(subs.last(), changed, exclude) {
            before.push(Notice { cookie: subs.last().cookie, tags: reported(tags, subs.last().tags) })
        } else {
            before
        }
    }
}

/// A message is the notification of tag values for a subscription: it
/// carries the cookie of the subscription and the tags, each without an
/// error.
pub open spec fn is_notice(m: Message, n: Notice) -> bool {
    &&& m.client_cookie@ == n.cookie
    &&& m.message matches MessageVariant::NotifySubscribeTag(p) && payload(p.params.tags@)
        == n.tags && faultless(p.params.tags@)
}

/// A message is the answer to a write: it carries the cookie of the writer
/// and names every written tag, in the order of the write, each without an
/// error.
pub open spec fn answers_write(m: Message, values: Seq<WriteTagValue>, cookie: Seq<char>) -> bool {
    &&& m.client_cookie@ == cookie
    &&& m.message matches MessageVariant::NotifyWriteTag(p) && p.params.tags@.len()
        == values.len() && forall|i: int|
        0 <= i < values.len() ==> (#[trigger] p.params.tags@[i]).name@ == values[i].name@
            && p.params.tags@[i].error.error_code == 0
            && p.params.tags@[i].error.error_description@.len() == 0
}

/// A message is the refusal to end a subscription that does not exist:
/// error 4, under the cookie of the request.
pub open spec fn refuses_unsubscribe(m: Message, cookie: Seq<char>) -> bool {
    &&& m.client_cookie@ == cookie
    &&& m.message matches MessageVariant::ErrorUnsubscribeTag(e) && e.error_code == 4
        && e.error_description@ == "No matching subscription"@
}

/// The messages are the given notices, one for one.
pub open spec fn are_notices(messages: Seq<Message>, expected: Seq<Notice>) -> bool {
    messages.len() == expected.len() && forall|i: int|
        0 <= i < messages.len() ==> is_notice(#[trigger] messages[i], expected[i])
}

/// The tags after a list of values is written, one after the other.
pub open spec fn written(tags: Seq<TagValue>, values: Seq<WriteTagValue>) -> Seq<TagValue>
    decreases values.len(),
{
    if values.len() == 0 {
        tags
    } else {
        with_value(
            written(tags, values.drop_last()),
            values.last().name@,
            values.last().value@,
        )
    }
}

/// The names of a list of values to write, each once, in the order in which
/// they first occur.
pub open spec fn written_names(values: Seq<WriteTagValue>) -> Seq<Seq<char>>
    decreases values.len(),
{
    if values.len() == 0 {
        Seq::empty()
    } else {
        let before = written_names(values.drop_last());
        if before.contains(values.last().name@) {
            before
        } else {
            before.push(values.last().name@)
        }
    }
}

/// Setting a value keeps the names of the tags distinct.
pub proof fn lemma_with_value_distinct(tags: Seq<TagValue>, name: Seq<char>, value: Seq<char>)
    requires
        distinct_tags(tags),
    ensures
        distinct_tags(with_value(tags, name, value)),
{
    lemma_tag_index(tags, name);
    let after = with_value(tags, name, value);
    assert forall|i: int, j: int| 0 <= i < j < after.len() implies after[i].name
        != after[j].name by {
        match tag_index(tags, name) {
            Some(k) => {
                assert(after[i].name == tags[i].name);
                assert(after[j].name == tags[j].name);
            },
            None => {
                if j == tags.len() {
                    assert(tags[i].name != name);
                }
            },
        }
    }
}

/// The tags and subscriptions of an Open Pipe server.
pub struct TagServer {
    subscriptions: Vec<Subscription>,
    tags: Vec<TagData>,
    populate: bool,
}

impl View for TagServer {
    type V = TagServerView;

    closed spec fn view(&self) -> TagServerView {
        TagServerView {
            tags: tag_values(self.tags@),
            subscriptions: subscription_views(self.subscriptions@),
            populate: self.populate,
        }
    }
}

impl TagServerView {
    /// What holds of every server: no two tags have the same name and no two
    /// subscriptions the same cookie.
    pub open spec fn wf(self) -> bool {
        distinct_tags(self.tags) && distinct_cookies(self.subscriptions)
    }

    /// The subscriptions after one is made with the given cookie: it takes
    /// the place of an earlier one with the same cookie, or comes last.
    pub open spec fn subscribed(self, tags: Seq<Seq<char>>, cookie: Seq<char>) -> Seq<
        SubscriptionView,
    > {
        let sub = SubscriptionView { tags, cookie };
        match subscription_index(self.subscriptions, cookie) {
            Some(i) => self.subscriptions.update(i, sub),
            None => self.subscriptions.push(sub),
        }
    }

    /// The tags after a subscription to the given names.
    pub open spec fn tags_after_subscribe(self, names: Seq<Seq<char>>) -> Seq<TagValue> {
        if self.populate {
            populated(self.tags, names)
        } else {
            self.tags
        }
    }
}

impl TagServer {
    /// A server without tags and without subscriptions.
    pub fn new(populate: bool) -> (r: TagServer)
        ensures
            r@.wf(),
            r@.tags.len() == 0,
            r@.subscriptions.len() == 0,
            r@.populate == populate,
    {
        TagServer { subscriptions: Vec::new(), tags: Vec::new(), populate }
    }

    /// The notifications for a list of names: one for each name that is a
    /// known tag, or one for every tag if the list is empty. Each carries the
    /// given time stamp and no error.
    pub fn build_notify_tags_at(tag_map: &Vec<TagData>, tags: &Vec<String>, time_stamp: &str) -> (r:
        NotifyTags)
        ensures
            payload(r.tags@) == reported(tag_values(tag_map@), texts(tags@)),
            stamped(r.tags@, time_stamp@),
    {
        let mut notes: Vec<NotifyTag> = Vec::new();
        let ghost values = tag_values(tag_map@);
        if tags.len() == 0 {
            let mut i: usize = 0;
            while i < tag_map.len()
                invariant
                    i <= tag_map.len(),
                    values == tag_values(tag_map@),
                    notes@.len() == i,
                    payload(notes@) == values.take(i as int),
                    stamped(notes@, time_stamp@),
                decreases tag_map.len() - i,
            {
                let ghost before = notes@;
                notes.push(note(&tag_map[i], time_stamp));
                proof {
                    assert forall|j: int| 0 <= j < i + 1 implies payload(notes@)[j]
                        == values[j] by {
                        if j < i {
                            assert(notes@[j] == before[j]);
                            assert(payload(before)[j] == values.take(i as int)[j]);
                        }
                    }
                    assert(payload(notes@) =~= values.take(i + 1));
                    assert forall|j: int| 0 <= j < notes@.len() implies (#[trigger] notes@[j]).time_stamp@
                        == time_stamp@ && notes@[j].error.error_code == 0
                        && notes@[j].error.error_description@.len() == 0 by {
                        if j < i {
                            assert(notes@[j] == before[j]);
                        }
                    }
                }
                i += 1;
            }
            proof {
                assert(values.take(values.len() as int) =~= values);
            }
        } else {
            let ghost names = texts(tags@);
            let mut i: usize = 0;
            proof {
                assert(names.take(0).len() == 0);
                assert(payload(notes@) =~= reported_named(values, names.take(0)));
            }
            while i < tags.len()
                invariant
                    i <= tags.len(),
                    values == tag_values(tag_map@),
                    names == texts(tags@),
                    payload(notes@) == reported_named(values, names.take(i as int)),
                    stamped(notes@, time_stamp@),
                decreases tags.len() - i,
            {
                let ghost before = payload(notes@);
                proof {
                    assert(names.take(i + 1).drop_last() =~= names.take(i as int));
                    assert(names.take(i + 1).last() == tags@[i as int]@);
                }
                if let Some(k) = find_tag(tag_map, tags[i].as_str()) {
                    let ghost old_notes = notes@;
                    notes.push(note(&tag_map[k], time_stamp));
                    proof {
                        assert forall|j: int| 0 <= j < notes@.len() implies payload(notes@)[j]
                            == before.push(values[k as int])[j] by {
                            if j < old_notes.len() {
                                assert(notes@[j] == old_notes[j]);
                                assert(payload(old_notes)[j] == before[j]);
                            }
                        }
                        assert(payload(notes@) =~= before.push(values[k as int]));
                        assert forall|j: int| 0 <= j < notes@.len() implies (#[trigger] notes@[j]).time_stamp@
                            == time_stamp@ && notes@[j].error.error_code == 0
                            && notes@[j].error.error_description@.len() == 0 by {
                            if j < old_notes.len() {
                                assert(notes@[j] == old_notes[j]);
                            }
                        }
                    }
                }
                i += 1;
            }
            proof {
                assert(names.take(names.len() as int) =~= names);
            }
        }
        NotifyTags { tags: notes }
    }

    /// The notifications for a list of names, with the current time as their
    /// time stamp.
    pub fn build_notify_tags(tag_map: &Vec<TagData>, tags: &Vec<String>) -> (r: NotifyTags)
        ensures
            payload(r.tags@) == reported(tag_values(tag_map@), texts(tags@)),
            faultless(r.tags@),
            one_stamp(r.tags@),
    {
        let time_stamp = current_time_stamp();
        TagServer::build_notify_tags_at(tag_map, tags, time_stamp.as_str())
    }

    /// Sets the value of a tag, which is made if it is not known, and adds
    /// its name to the names of the changed tags.
    pub fn set_tag_value(&mut self, tag: &str, value: &str, notifications: &mut NameSet)
        requires
            old(self)@.wf(),
            old(notifications).wf(),
        ensures
            final(self)@.wf(),
            final(notifications).wf(),
            final(self)@.tags == with_value(old(self)@.tags, tag@, value@),
            final(self)@.subscriptions == old(self)@.subscriptions,
            final(self)@.populate == old(self)@.populate,
            final(notifications).names() == if old(notifications).has(tag@) {
                old(notifications).names()
            } else {
                old(notifications).names().push(tag@)
            },
    {
        self.store(tag, value);
        notifications.insert(tag);
    }

    /// Sets the value of a tag, which is made if it is not known.
    fn store(&mut self, tag: &str, value: &str)
        requires
            old(self)@.wf(),
        ensures
            final(self)@.wf(),
            final(self)@.tags == with_value(old(self)@.tags, tag@, value@),
            final(self)@.subscriptions == old(self)@.subscriptions,
            final(self)@.populate == old(self)@.populate,
    {
        let ghost before = self@.tags;
        proof {
            lemma_with_value_distinct(before, tag@, value@);
            reveal_strlit("Good");
        }
        match find_tag(&self.tags, tag) {
            None => {
                self.tags.push(
                    TagData {
                        name: tag.to_owned(),
                        quality: "Good".to_owned(),
                        quality_code: 192,
                        value: value.to_owned(),
                    },
                );
                proof {
                    assert(self@.tags =~= with_value(before, tag@, value@));
                }
            },
            Some(i) => {
                let old_tag = self.tags[i].duplicate();
                self.tags.set(
                    i,
                    TagData {
                        name: old_tag.name,
                        quality: old_tag.quality,
                        quality_code: old_tag.quality_code,
                        value: value.to_owned(),
                    },
                );
                proof {
                    assert(self@.tags =~= with_value(before, tag@, value@));
                }
            },
        }
    }

    /// Makes the tags of a list that are not known, with the value `0`.
    fn populate_tags(&mut self, tags: &Vec<String>)
        requires
            old(self)@.wf(),
        ensures
            final(self)@.wf(),
            final(self)@.tags == populated(old(self)@.tags, texts(tags@)),
            final(self)@.subscriptions == old(self)@.subscriptions,
            final(self)@.populate == old(self)@.populate,
    {
        let ghost start = self@;
        let ghost names = texts(tags@);
        let mut i: usize = 0;
        proof {
            assert(names.take(0).len() == 0);
            reveal_strlit("Good");
        }
        while i < tags.len()
            invariant
                i <= tags.len(),
                names == texts(tags@),
                self@.wf(),
                self@.tags == populated(start.tags, names.take(i as int)),
                self@.subscriptions == start.subscriptions,
                self@.populate == start.populate,
            decreases tags.len() - i,
        {
            let ghost before = self@.tags;
            proof {
                assert(names.take(i + 1).drop_last() =~= names.take(i as int));
                assert(names.take(i + 1).last() == tags@[i as int]@);
                lemma_tag_index(before, tags@[i as int]@);
            }
            if find_tag(&self.tags, tags[i].as_str()).is_none() {
                self.tags.push(
                    TagData {
                        name: tags[i].clone(),
                        value: "0".to_owned(),
                        quality: "Good".to_owned(),
                        quality_code: 192,
                    },
                );
                proof {
                    assert(self@.tags =~= before.push(good_tag(tags@[i as int]@, "0"@)));
                    assert forall|a: int, b: int| 0 <= a < b < self@.tags.len() implies self@.tags[a].name
                        != self@.tags[b].name by {
                        if b == before.len() {
                            assert(before[a].name != tags@[i as int]@);
                        } else {
                            assert(before[a].name != before[b].name);
                        }
                    }
                }
            }
            i += 1;
        }
        proof {
            assert(names.take(names.len() as int) =~= names);
        }
    }

    /// Records a subscription and returns the answer to it: the values of
    /// the tags asked for. A subscription made under a cookie that is in use
    /// takes the place of the earlier one.
    pub fn subscribe(&mut self, tags: &Vec<String>, cookie: &str) -> (r: Message)
        requires
            old(self)@.wf(),
        ensures
            final(self)@.wf(),
            final(self)@.populate == old(self)@.populate,
            final(self)@.tags == old(self)@.tags_after_subscribe(texts(tags@)),
            final(self)@.subscriptions == old(self)@.subscribed(texts(tags@), cookie@),
            is_notice(
                r,
                Notice { cookie: cookie@, tags: reported(final(self)@.tags, texts(tags@)) },
            ),
    {
        if self.populate {
            self.populate_tags(tags);
        }
        let subscr = Subscription { tags: copy_names(tags), cookie: cookie.to_owned() };
        let notes = TagServer::build_notify_tags(&self.tags, &subscr.tags);
        let msg = Message {
            message: MessageVariant::NotifySubscribeTag(ParamWrapperCap { params: notes }),
            client_cookie: subscr.cookie.clone(),
        };
        let ghost before = self@.subscriptions;
        proof {
            lemma_subscription_index(before, cookie@);
        }
        match find_subscription(&self.subscriptions, cookie) {
            Some(i) => {
                self.subscriptions.set(i, subscr);
                proof {
                    let after = self@.subscriptions;
                    assert(after =~= before.update(
                        i as int,
                        SubscriptionView { tags: texts(tags@), cookie: cookie@ },
                    ));
                    assert forall|a: int, b: int| 0 <= a < b < after.len() implies after[a].cookie
                        != after[b].cookie by {
                        assert(after[a].cookie == before[a].cookie);
                        assert(after[b].cookie == before[b].cookie);
                    }
                }
            },
            None => {
                self.subscriptions.push(subscr);
                proof {
                    let after = self@.subscriptions;
                    assert(after =~= before.push(
                        SubscriptionView { tags: texts(tags@), cookie: cookie@ },
                    ));
                    assert forall|a: int, b: int| 0 <= a < b < after.len() implies after[a].cookie
                        != after[b].cookie by {
                        if b == before.len() {
                            assert(before[a].cookie != cookie@);
                        } else {
                            assert(before[a].cookie != before[b].cookie);
                        }
                    }
                }
            },
        }
        msg
    }

    /// Ends the subscription made under the cookie and returns the answer:
    /// a confirmation, or error 4 if there is no such subscription.
    pub fn unsubscribe(&mut self, cookie: &str) -> (r: Message)
        requires
            old(self)@.wf(),
        ensures
            final(self)@.wf(),
            final(self)@.tags == old(self)@.tags,
            final(self)@.populate == old(self)@.populate,
            r.client_cookie@ == cookie@,
            match subscription_index(old(self)@.subscriptions, cookie@) {
                Some(i) => final(self)@.subscriptions == old(self)@.subscriptions.remove(i)
                    && r.message is NotifyUnsubscribeTag,
                None => final(self)@.subscriptions == old(self)@.subscriptions
                    && refuses_unsubscribe(r, cookie@),
            },
    {
        let ghost before = self@.subscriptions;
        match find_subscription(&self.subscriptions, cookie) {
            Some(i) => {
                self.subscriptions.remove(i);
                proof {
                    let after = self@.subscriptions;
                    assert(after =~= before.remove(i as int));
                    assert forall|a: int, b: int| 0 <= a < b < after.len() implies after[a].cookie
                        != after[b].cookie by {
                        let x = if a < i { a } else { a + 1 };
                        let y = if b < i { b } else { b + 1 };
                        assert(after[a] == before[x]);
                        assert(after[b] == before[y]);
                    }
                }
                Message {
                    message: MessageVariant::NotifyUnsubscribeTag,
                    client_cookie: cookie.to_owned(),
                }
            },
            None => Message {
                message: MessageVariant::ErrorUnsubscribeTag(
                    ErrorInfo {
                        error_code: 4,
                        error_description: "No matching subscription".to_owned(),
                    },
                ),
                client_cookie: cookie.to_owned(),
            },
        }
    }

    /// Ends the subscriptions of the clients named in `dropped`.
    fn drop_subscriptions(&mut self, dropped: &NameSet)
        requires
            old(self)@.wf(),
        ensures
            final(self)@.wf(),
            final(self)@.tags == old(self)@.tags,
            final(self)@.populate == old(self)@.populate,
            final(self)@.subscriptions == kept(old(self)@.subscriptions, dropped.names()),
    {
        let ghost start = self@;
        let mut remaining: Vec<Subscription> = Vec::new();
        let mut i: usize = 0;
        let ghost views = subscription_views(self.subscriptions@);
        proof {
            assert(views.take(0).len() == 0);
            assert(subscription_views(remaining@) =~= kept(views.take(0), dropped.names()));
        }
        while i < self.subscriptions.len()
            invariant
                i <= self.subscriptions.len(),
                self@ == start,
                start.wf(),
                views == subscription_views(self.subscriptions@),
                subscription_views(remaining@) == kept(views.take(i as int), dropped.names()),
                forall|a: int|
                    0 <= a < remaining.len() ==> exists|b: int|
                        0 <= b < i && (#[trigger] remaining@[a])@.cookie == views[b].cookie,
                distinct_cookies(subscription_views(remaining@)),
            decreases self.subscriptions.len() - i,
        {
            let ghost before = subscription_views(remaining@);
            proof {
                assert(views.take(i + 1).drop_last() =~= views.take(i as int));
                assert(views.take(i + 1).last() == self.subscriptions@[i as int]@);
            }
            if !dropped.contains(self.subscriptions[i].cookie.as_str()) {
                let sub = &self.subscriptions[i];
                remaining.push(Subscription { tags: copy_names(&sub.tags), cookie: sub.cookie.clone() });
                proof {
                    let after = subscription_views(remaining@);
                    assert(after =~= before.push(views[i as int]));
                    assert forall|a: int, b: int| 0 <= a < b < after.len() implies after[a].cookie
                        != after[b].cookie by {
                        if b == before.len() {
                            let k = choose|k: int|
                                0 <= k < i && remaining@[a]@.cookie == views[k].cookie;
                            assert(views[k].cookie != views[i as int].cookie);
                        } else {
                            assert(before[a].cookie != before[b].cookie);
                        }
                    }
                    assert forall|a: int| 0 <= a < remaining.len() implies exists|b: int|
                        0 <= b < i + 1 && (#[trigger] remaining@[a])@.cookie
                            == views[b].cookie by {
                        if a == before.len() {
                            assert(remaining@[a]@.cookie == views[i as int].cookie);
                        } else {
                            let k = choose|k: int|
                                0 <= k < i && remaining@[a]@.cookie == views[k].cookie;
                            assert(0 <= k < i + 1);
                        }
                    }
                }
            }
            i += 1;
        }
        proof {
            assert(views.take(views.len() as int) =~= views);
        }
        self.subscriptions = remaining;
    }

    /// Whether a subscription asked for one of the changed tags.
    fn wants(sub: &Subscription, notifications: &NameSet) -> (r: bool)
        ensures
            r == exists|i: int|
                0 <= i < sub@.tags.len() && notifications.names().contains(#[trigger] sub@.tags[i]),
    {
        let mut i: usize = 0;
        while i < sub.tags.len()
            invariant
                i <= sub.tags.len(),
                forall|j: int|
                    0 <= j < i ==> !notifications.names().contains(#[trigger] sub@.tags[j]),
            decreases sub.tags.len() - i,
        {
            if notifications.contains(sub.tags[i].as_str()) {
                assert(sub@.tags[i as int] == sub.tags@[i as int]@);
                return true;
            }
            assert(sub@.tags[i as int] == sub.tags@[i as int]@);
            i += 1;
        }
        false
    }

    /// Ends the subscriptions of the clients named in `dropped`, then tells
    /// the others of the tags named in `notifications`: a subscription gets a
    /// message if it asked for every tag or for one of those named, unless
    /// its cookie is `exclude_cookie`. Returns the messages.
    pub fn send_tag_notifications(
        &mut self,
        notifications: &NameSet,
        exclude_cookie: Option<&str>,
        dropped: &NameSet,
    ) -> (r: Vec<Message>)
        requires
            old(self)@.wf(),
        ensures
            final(self)@.wf(),
            final(self)@.tags == old(self)@.tags,
            final(self)@.populate == old(self)@.populate,
            final(self)@.subscriptions == kept(old(self)@.subscriptions, dropped.names()),
            are_notices(
                r@,
                notices(
                    final(self)@.subscriptions,
                    final(self)@.tags,
                    notifications.names(),
                    match exclude_cookie {
                        Some(c) => Some(c@),
                        None => None,
                    },
                ),
            ),
    {
        self.drop_subscriptions(dropped);
        let ghost exclude: Option<Seq<char>> = match exclude_cookie {
            Some(c) => Some(c@),
            None => None,
        };
        let ghost subs = self@.subscriptions;
        let ghost tags = self@.tags;
        let ghost changed = notifications.names();
        let mut out: Vec<Message> = Vec::new();
        let mut i: usize = 0;
        proof {
            assert(subs.take(0).len() == 0);
        }
        while i < self.subscriptions.len()
            invariant
                i <= self.subscriptions.len(),
                subs == self@.subscriptions,
                subs == subscription_views(self.subscriptions@),
                tags == self@.tags,
                tags == tag_values(self.tags@),
                changed == notifications.names(),
                exclude == match exclude_cookie {
                    Some(c) => Some(c@),
                    None => None,
                },
                are_notices(out@, notices(subs.take(i as int), tags, changed, exclude)),
            decreases self.subscriptions.len() - i,
        {
            let ghost before = notices(subs.take(i as int), tags, changed, exclude);
            let ghost old_out = out@;
            proof {
                assert(subs.take(i + 1).drop_last() =~= subs.take(i as int));
                assert(subs.take(i + 1).last() == self.subscriptions@[i as int]@);
            }
            let sub = &self.subscriptions[i];
            let excluded = match exclude_cookie {
                Some(c) => same_str(c, sub.cookie.as_str()),
                None => false,
            };
            let found = !excluded && (sub.tags.len() == 0 || TagServer::wants(sub, notifications));
            proof {
                assert(sub@.tags.len() == sub.tags@.len());
                assert(found == interested(sub@, changed, exclude));
            }
            if found {
                let notes = TagServer::build_notify_tags(&self.tags, &sub.tags);
                out.push(
                    Message {
                        message: MessageVariant::NotifySubscribeTag(
                            ParamWrapperCap { params: notes },
                        ),
                        client_cookie: sub.cookie.clone(),
                    },
                );
                proof {
                    let expected = notices(subs.take(i + 1), tags, changed, exclude);
                    assert(expected == before.push(
                        Notice { cookie: sub@.cookie, tags: reported(tags, sub@.tags) },
                    ));
                    assert forall|k: int| 0 <= k < out@.len() implies is_notice(
                        #[trigger] out@[k],
                        expected[k],
                    ) by {
                        if k < old_out.len() {
                            assert(out@[k] == old_out[k]);
                        }
                    }
                }
            }
            i += 1;
        }
        proof {
            assert(subs.take(subs.len() as int) =~= subs);
        }
        out
    }

    /// Writes the values, tells the other subscribers of the change, and
    /// returns the messages for them and the answer to the writer: one
    /// outcome without error for each value.
    pub fn write_tags(&mut self, tag_values: &Vec<WriteTagValue>, cookie: &str, dropped: &NameSet) -> (r:
        (Vec<Message>, Message))
        requires
            old(self)@.wf(),
        ensures
            final(self)@.wf(),
            final(self)@.populate == old(self)@.populate,
            final(self)@.tags == written(old(self)@.tags, tag_values@),
            final(self)@.subscriptions == kept(old(self)@.subscriptions, dropped.names()),
            are_notices(
                r.0@,
                notices(
                    final(self)@.subscriptions,
                    final(self)@.tags,
                    written_names(tag_values@),
                    Some(cookie@),
                ),
            ),
            answers_write(r.1, tag_values@, cookie@),
    {
        let mut tag_result: Vec<NotifyWriteTag> = Vec::new();
        let mut notifications = NameSet::new();
        let ghost start = self@;
        let mut i: usize = 0;
        proof {
            assert(tag_values@.take(0).len() == 0);
        }
        while i < tag_values.len()
            invariant
                i <= tag_values.len(),
                self@.wf(),
                notifications.wf(),
                self@.populate == start.populate,
                self@.subscriptions == start.subscriptions,
                self@.tags == written(start.tags, tag_values@.take(i as int)),
                notifications.names() == written_names(tag_values@.take(i as int)),
                tag_result@.len() == i,
                forall|k: int|
                    0 <= k < i ==> (#[trigger] tag_result@[k]).name == tag_values@[k].name
                        && tag_result@[k].error.error_code == 0
                        && tag_result@[k].error.error_description@.len() == 0,
            decreases tag_values.len() - i,
        {
            proof {
                assert(tag_values@.take(i + 1).drop_last() =~= tag_values@.take(i as int));
                assert(tag_values@.take(i + 1).last() == tag_values@[i as int]);
            }
            let item = &tag_values[i];
            self.set_tag_value(item.name.as_str(), item.value.as_str(), &mut notifications);
            tag_result.push(
                NotifyWriteTag {
                    name: item.name.clone(),
                    error: ErrorInfo { error_code: 0, error_description: String::new() },
                },
            );
            i += 1;
        }
        proof {
            assert(tag_values@.take(tag_values@.len() as int) =~= tag_values@);
        }
        let notes = self.send_tag_notifications(&notifications, Some(cookie), dropped);
        let reply = Message {
            message: MessageVariant::NotifyWriteTag(
                ParamWrapperCap { params: NotifyWriteTags { tags: tag_result } },
            ),
            client_cookie: cookie.to_owned(),
        };
        (notes, reply)
    }

    /// Handles a request of a client: a subscription, the end of one, or a
    /// write. Returns the answer, if the message is one of these, and appends
    /// to `outbox` what other subscribers are to be told. A write also ends
    /// the subscriptions of the clients named in `dropped`.
    pub fn handle_message(&mut self, msg: Message, outbox: &mut Vec<Message>, dropped: &NameSet) -> (r:
        Option<Message>)
        requires
            old(self)@.wf(),
        ensures
            final(self)@.wf(),
            final(self)@.populate == old(self)@.populate,
            match msg.message {
                MessageVariant::SubscribeTag(p) => {
                    &&& final(self)@.tags == old(self)@.tags_after_subscribe(
                        texts(p.params.tags@),
                    )
                    &&& final(self)@.subscriptions == old(self)@.subscribed(
                        texts(p.params.tags@),
                        msg.client_cookie@,
                    )
                    &&& final(outbox)@ == old(outbox)@
                    &&& r matches Some(m) && is_notice(
                        m,
                        Notice {
                            cookie: msg.client_cookie@,
                            tags: reported(final(self)@.tags, texts(p.params.tags@)),
                        },
                    )
                },
                MessageVariant::UnsubscribeTag => {
                    &&& final(self)@.tags == old(self)@.tags
                    &&& final(outbox)@ == old(outbox)@
                    &&& r matches Some(m) && m.client_cookie@ == msg.client_cookie@
                    &&& match subscription_index(old(self)@.subscriptions, msg.client_cookie@) {
                        Some(i) => final(self)@.subscriptions == old(self)@.subscriptions.remove(i)
                            && r->0.message is NotifyUnsubscribeTag,
                        None => final(self)@.subscriptions == old(self)@.subscriptions
                            && refuses_unsubscribe(r->0, msg.client_cookie@),
                    }
                },
                MessageVariant::WriteTag(p) => {
                    &&& final(self)@.tags == written(old(self)@.tags, p.params.tags@)
                    &&& final(self)@.subscriptions == kept(
                        old(self)@.subscriptions,
                        dropped.names(),
                    )
                    &&& final(outbox)@.len() >= old(outbox)@.len()
                    &&& final(outbox)@.take(old(outbox)@.len() as int) == old(outbox)@
                    &&& are_notices(
                        final(outbox)@.skip(old(outbox)@.len() as int),
                        notices(
                            final(self)@.subscriptions,
                            final(self)@.tags,
                            written_names(p.params.tags@),
                            Some(msg.client_cookie@),
                        ),
                    )
                    &&& r matches Some(m) && answers_write(m, p.params.tags@, msg.client_cookie@)
                },
                _ => final(self)@ == old(self)@ && final(outbox)@ == old(outbox)@ && r is None,
            },
    {
        match msg.message {
            MessageVariant::SubscribeTag(p) => Some(
                self.subscribe(&p.params.tags, msg.client_cookie.as_str()),
            ),
            MessageVariant::UnsubscribeTag => Some(self.unsubscribe(msg.client_cookie.as_str())),
            MessageVariant::WriteTag(p) => {
                let (mut notes, reply) = self.write_tags(
                    &p.params.tags,
                    msg.client_cookie.as_str(),
                    dropped,
                );
                let ghost before = outbox@;
                let ghost added = notes@;
                outbox.append(&mut notes);
                proof {
                    assert(outbox@.take(before.len() as int) =~= before);
                    assert(outbox@.skip(before.len() as int) =~= added);
                }
                Some(reply)
            },
            _ => None,
        }
    }
}

} // verus!
