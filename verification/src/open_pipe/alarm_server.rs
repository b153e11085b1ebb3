//! The alarm side of an Open Pipe server: the alarms that were reported,
//! ordered by their ids, and the clients that asked to be told of alarms.
//!
//! The server decides what to send and to whom; the caller sends.
use crate::open_pipe::alarm_data::AlarmData;
use crate::open_pipe::connection::{
    ErrorInfo, Message, MessageVariant, NotifyAlarm, NotifyAlarms, ParamWrapperCap,
    SubscribeAlarmParams,
};
use crate::text::same_str;
use vstd::prelude::*;

verus! {

/// A client that wants to be told of alarms.
struct Subscription {
    system_names: Option<Vec<String>>,
    filter: Option<String>,
    language_id: Option<u32>,
    cookie: String,
}

/// The alarms and subscriptions of an Open Pipe server.
pub struct AlarmServer {
    subscriptions: Vec<Subscription>,
    alarms: Vec<AlarmData>,
}

/// A message for the client that subscribed under `recipient`.
#[derive(Debug)]
pub struct Notice {
    pub recipient: String,
    pub message: Message,
}

/// The alarms are ordered by their ids, and no id occurs twice.
pub open spec fn ordered_by_id(alarms: Seq<AlarmData>) -> bool {
    forall|i: int, j: int| 0 <= i < j < alarms.len() ==> alarms[i].id < alarms[j].id
}

/// The number of alarms at the front of a list whose id is below `id`.
pub open spec fn lower(alarms: Seq<AlarmData>, id: i32) -> int
    decreases alarms.len(),
{
    if alarms.len() > 0 && alarms[0].id < id {
        1 + lower(alarms.skip(1), id)
    } else {
        0
    }
}

/// The alarms after one alarm is reported: an alarm with the id of a known
/// one changes the state and the modification time of that one, another
/// alarm is put in at its place in the order of the ids.
pub open spec fn stored(alarms: Seq<AlarmData>, alarm: AlarmData) -> Seq<AlarmData> {
    let p = lower(alarms, alarm.id);
    if p < alarms.len() && alarms[p].id == alarm.id {
        alarms.update(
            p,
            AlarmData {
                state: alarm.state,
                modification_time: alarm.modification_time,
                ..alarms[p]
            },
        )
    } else {
        alarms.insert(p, alarm)
    }
}

/// The alarms after the first `n` alarms of a list are reported.
pub open spec fn stored_all(alarms: Seq<AlarmData>, reported: Seq<AlarmData>, n: nat) -> Seq<
    AlarmData,
>
    decreases n,
{
    if n == 0 || n > reported.len() {
        alarms
    } else {
        stored(stored_all(alarms, reported, (n - 1) as nat), reported[n - 1])
    }
}

/// In an ordered list the alarms before the place `lower` have smaller ids,
/// and those from it on do not.
pub proof fn lemma_lower(alarms: Seq<AlarmData>, id: i32)
    requires
        ordered_by_id(alarms),
    ensures
        0 <= lower(alarms, id) <= alarms.len(),
        forall|i: int| 0 <= i < lower(alarms, id) ==> (#[trigger] alarms[i]).id < id,
        forall|i: int| lower(alarms, id) <= i < alarms.len() ==> (#[trigger] alarms[i]).id >= id,
    decreases alarms.len(),
{
    if alarms.len() > 0 && alarms[0].id < id {
        let rest = alarms.skip(1);
        assert(ordered_by_id(rest)) by {
            assert forall|i: int, j: int| 0 <= i < j < rest.len() implies rest[i].id
                < rest[j].id by {
                assert(rest[i] == alarms[i + 1]);
                assert(rest[j] == alarms[j + 1]);
            }
        }
        lemma_lower(rest, id);
        let k = lower(rest, id);
        assert forall|i: int| 0 <= i < k + 1 implies (#[trigger] alarms[i]).id < id by {
            if i > 0 {
                assert(rest[i - 1] == alarms[i]);
            }
        }
        assert forall|i: int| k + 1 <= i < alarms.len() implies (#[trigger] alarms[i]).id
            >= id by {
            assert(rest[i - 1] == alarms[i]);
        }
    } else {
        assert forall|i: int| 0 <= i < alarms.len() implies (#[trigger] alarms[i]).id >= id by {
            if i > 0 {
                assert(alarms[0].id < alarms[i].id);
            }
        }
    }
}

/// The place where the ids stop being smaller is the place `lower`.
pub proof fn lemma_lower_is(alarms: Seq<AlarmData>, id: i32, p: int)
    requires
        0 <= p <= alarms.len(),
        forall|i: int| 0 <= i < p ==> (#[trigger] alarms[i]).id < id,
        p < alarms.len() ==> alarms[p].id >= id,
    ensures
        lower(alarms, id) == p,
    decreases p,
{
    if p > 0 {
        let rest = alarms.skip(1);
        assert forall|i: int| 0 <= i < p - 1 implies (#[trigger] rest[i]).id < id by {
            assert(rest[i] == alarms[i + 1]);
        }
        if p - 1 < rest.len() {
            assert(rest[p - 1] == alarms[p]);
        }
        lemma_lower_is(rest, id, p - 1);
    }
}

/// Reporting an alarm keeps the alarms ordered.
pub proof fn lemma_stored_ordered(alarms: Seq<AlarmData>, alarm: AlarmData)
    requires
        ordered_by_id(alarms),
    ensures
        ordered_by_id(stored(alarms, alarm)),
{
    lemma_lower(alarms, alarm.id);
    let p = lower(alarms, alarm.id);
    let after = stored(alarms, alarm);
    if p < alarms.len() && alarms[p].id == alarm.id {
        assert forall|i: int, j: int| 0 <= i < j < after.len() implies after[i].id
            < after[j].id by {
            assert(after[i].id == alarms[i].id);
            assert(after[j].id == alarms[j].id);
        }
    } else {
        assert forall|i: int, j: int| 0 <= i < j < after.len() implies after[i].id
            < after[j].id by {
            let a = if i < p { i } else { i - 1 };
            let b = if j < p { j } else { j - 1 };
            if i != p {
                assert(after[i] == alarms[a]);
            }
            if j != p {
                assert(after[j] == alarms[b]);
            }
        }
    }
}

/// A subscription as a mathematical value: the cookie of the client.
pub struct AlarmSubscriptionView {
    pub cookie: Seq<char>,
    pub language_id: Option<u32>,
}

impl View for Subscription {
    type V = AlarmSubscriptionView;

    closed spec fn view(&self) -> AlarmSubscriptionView {
        AlarmSubscriptionView { cookie: self.cookie@, language_id: self.language_id }
    }
}

spec fn subscription_views(subs: Seq<Subscription>) -> Seq<AlarmSubscriptionView> {
    Seq::new(subs.len(), |i: int| subs[i]@)
}

/// The position of the subscription with the given cookie, if there is one.
pub open spec fn cookie_index(subs: Seq<AlarmSubscriptionView>, cookie: Seq<char>) -> Option<int>
    decreases subs.len(),
{
    if subs.len() == 0 {
        None
    } else if subs.last().cookie == cookie {
        Some(subs.len() - 1)
    } else {
        cookie_index(subs.drop_last(), cookie)
    }
}

/// The cookies of the subscriptions that are told of what the client with
/// the cookie `sender` reports: all others, in their order.
pub open spec fn recipients(subs: Seq<AlarmSubscriptionView>, sender: Seq<char>) -> Seq<Seq<char>>
    decreases subs.len(),
{
    if subs.len() == 0 {
        Seq::empty()
    } else if subs.last().cookie == sender {
        recipients(subs.drop_last(), sender)
    } else {
        recipients(subs.drop_last(), sender).push(subs.last().cookie)
    }
}

/// The alarms of a notification are the travelling forms of the given
/// alarm records.
pub open spec fn carries(notes: Seq<NotifyAlarm>, alarms: Seq<AlarmData>) -> bool {
    notes.len() == alarms.len() && forall|i: int|
        0 <= i < notes.len() ==> travels_as(#[trigger] notes[i], alarms[i])
}

/// The travelling form of an alarm record.
pub open spec fn travels_as(n: NotifyAlarm, a: AlarmData) -> bool {
    &&& n.name == a.name
    &&& n.id@ == crate::text::decimal_text(a.id as int)
    &&& n.alarm_class_name == a.alarm_class_name
    &&& n.alarm_class_symbol == a.alarm_class_symbol
    &&& n.event_text == a.event_text
    &&& n.instance_id@ == crate::text::decimal_text(a.instance_id as int)
    &&& n.priority@ == crate::text::decimal_text(a.priority as int)
    &&& n.state@ == crate::text::decimal_text(a.state as int)
    &&& n.state_text == a.state_text
    &&& n.state_machine@ == crate::text::decimal_text(a.state_machine as int)
    &&& n.modification_time@ == crate::open_pipe::alarm_data::time_text(a.modification_time)
}

/// A message tells of the given alarms under the given cookie.
pub open spec fn tells(m: Message, alarms: Seq<AlarmData>, cookie: Seq<char>) -> bool {
    &&& m.client_cookie@ == cookie
    &&& m.message matches MessageVariant::NotifySubscribeAlarm(p) && carries(
        p.params.alarms@,
        alarms,
    )
}

impl AlarmServer {
    /// The alarms that were reported, ordered by their ids.
    pub closed spec fn alarms(&self) -> Seq<AlarmData> {
        self.alarms@
    }

    /// The subscriptions in the order in which they were made.
    pub closed spec fn subscriptions(&self) -> Seq<AlarmSubscriptionView> {
        subscription_views(self.subscriptions@)
    }

    /// What holds of every server: the alarms are ordered by their ids.
    pub open spec fn wf(&self) -> bool {
        ordered_by_id(self.alarms())
    }

    /// A server without alarms and without subscriptions.
    pub fn new() -> (r: AlarmServer)
        ensures
            r.wf(),
            r.alarms().len() == 0,
            r.subscriptions().len() == 0,
    {
        AlarmServer { subscriptions: Vec::new(), alarms: Vec::new() }
    }

    /// The notification of a list of alarms. The selection by system names
    /// and by a filter text is not carried out: every alarm is reported.
    pub fn build_notify_alarms(
        alarms: &Vec<AlarmData>,
        system_names: &Option<Vec<String>>,
        filter: &Option<String>,
    ) -> (r: NotifyAlarms)
        ensures
            carries(r.alarms@, alarms@),
    {
        let mut notes: Vec<NotifyAlarm> = Vec::new();
        let mut i: usize = 0;
        while i < alarms.len()
            invariant
                i <= alarms.len(),
                notes@.len() == i,
                forall|k: int| 0 <= k < i ==> travels_as(#[trigger] notes@[k], alarms@[k]),
            decreases alarms.len() - i,
        {
            let ghost before = notes@;
            notes.push(alarms[i].to_notify());
            proof {
                assert forall|k: int| 0 <= k < i + 1 implies travels_as(
                    #[trigger] notes@[k],
                    alarms@[k],
                ) by {
                    if k < i {
                        assert(notes@[k] == before[k]);
                    }
                }
            }
            i += 1;
        }
        NotifyAlarms { alarms: notes }
    }

    fn find(&self, cookie: &str) -> (r: Option<usize>)
        ensures
            match r {
                Some(i) => cookie_index(self.subscriptions(), cookie@) == Some(i as int) && i
                    < self.subscriptions@.len(),
                None => cookie_index(self.subscriptions(), cookie@) is None,
            },
    {
        let ghost views = self.subscriptions();
        let mut i: usize = self.subscriptions.len();
        proof {
            assert(views.take(views.len() as int) =~= views);
        }
        while i > 0
            invariant
                i <= self.subscriptions.len(),
                views == self.subscriptions(),
                cookie_index(views, cookie@) == cookie_index(views.take(i as int), cookie@),
            decreases i,
        {
            i -= 1;
            proof {
                assert(views.take(i + 1).last() == self.subscriptions@[i as int]@);
                assert(views.take(i + 1).drop_last() =~= views.take(i as int));
            }
            if same_str(self.subscriptions[i].cookie.as_str(), cookie) {
                return Some(i);
            }
        }
        None
    }

    /// Records a subscription and returns the answer to it: all alarms. A
    /// subscription made under a cookie that is in use takes the place of
    /// the earlier one.
    pub fn subscribe(&mut self, params: SubscribeAlarmParams, cookie: &str) -> (r: Message)
        requires
            old(self).wf(),
        ensures
            final(self).wf(),
            final(self).alarms() == old(self).alarms(),
            tells(r, old(self).alarms(), cookie@),
            final(self).subscriptions() == match cookie_index(old(self).subscriptions(), cookie@) {
                Some(i) => old(self).subscriptions().update(
                    i,
                    AlarmSubscriptionView { cookie: cookie@, language_id: params.language_id },
                ),
                None => old(self).subscriptions().push(
                    AlarmSubscriptionView { cookie: cookie@, language_id: params.language_id },
                ),
            },
    {
        let subscr = Subscription {
            system_names: params.system_names,
            filter: params.filter,
            language_id: params.language_id,
            cookie: cookie.to_owned(),
        };
        let msg = Message {
            message: MessageVariant::NotifySubscribeAlarm(
                ParamWrapperCap {
                    params: AlarmServer::build_notify_alarms(
                        &self.alarms,
                        &subscr.system_names,
                        &subscr.filter,
                    ),
                },
            ),
            client_cookie: subscr.cookie.clone(),
        };
        let ghost before = self.subscriptions();
        match self.find(cookie) {
            Some(i) => {
                self.subscriptions.set(i, subscr);
                proof {
                    assert(self.subscriptions() =~= before.update(
                        i as int,
                        AlarmSubscriptionView { cookie: cookie@, language_id: params.language_id },
                    ));
                }
            },
            None => {
                self.subscriptions.push(subscr);
                proof {
                    assert(self.subscriptions() =~= before.push(
                        AlarmSubscriptionView { cookie: cookie@, language_id: params.language_id },
                    ));
                }
            },
        }
        msg
    }

    /// Ends the subscription made under the cookie and returns the answer:
    /// a confirmation, or error 4 if there is no such subscription.
    pub fn unsubscribe(&mut self, cookie: &str) -> (r: Message)
        requires
            old(self).wf(),
        ensures
            final(self).wf(),
            final(self).alarms() == old(self).alarms(),
            r.client_cookie@ == cookie@,
            match cookie_index(old(self).subscriptions(), cookie@) {
                Some(i) => final(self).subscriptions() == old(self).subscriptions().remove(i)
                    && r.message is NotifyUnsubscribeAlarm,
                None => final(self).subscriptions() == old(self).subscriptions() && (r.message matches MessageVariant::ErrorUnsubscribeAlarm(
                    e,
                ) && e.error_code == 4 && e.error_description@ == "No matching subscription"@),
            },
    {
        let ghost before = self.subscriptions();
        match self.find(cookie) {
            Some(i) => {
                self.subscriptions.remove(i);
                proof {
                    assert(self.subscriptions() =~= before.remove(i as int));
                }
                Message {
                    message: MessageVariant::NotifyUnsubscribeAlarm,
                    client_cookie: cookie.to_owned(),
                }
            },
            None => Message {
                message: MessageVariant::ErrorUnsubscribeAlarm(
                    ErrorInfo {
                        error_code: 4,
                        error_description: "No matching subscription".to_owned(),
                    },
                ),
                client_cookie: cookie.to_owned(),
            },
        }
    }

    /// Puts one reported alarm into the list of alarms.
    fn store(&mut self, alarm: AlarmData)
        requires
            old(self).wf(),
        ensures
            final(self).wf(),
            final(self).subscriptions() == old(self).subscriptions(),
            final(self).alarms() == stored(old(self).alarms(), alarm),
    {
        let ghost before = self.alarms@;
        proof {
            lemma_stored_ordered(before, alarm);
        }
        let mut lo: usize = 0;
        let mut hi: usize = self.alarms.len();
        while lo < hi
            invariant
                lo <= hi <= self.alarms.len(),
                self.alarms@ == before,
                ordered_by_id(before),
                forall|i: int| 0 <= i < lo ==> (#[trigger] before[i]).id < alarm.id,
                forall|i: int| hi <= i < before.len() ==> (#[trigger] before[i]).id >= alarm.id,
            decreases hi - lo,
        {
            let mid = lo + (hi - lo) / 2;
            if self.alarms[mid].id < alarm.id {
                proof {
                    assert forall|i: int| 0 <= i < mid + 1 implies (#[trigger] before[i]).id
                        < alarm.id by {
                        if i < mid {
                            assert(before[i].id < before[mid as int].id);
                        }
                    }
                }
                lo = mid + 1;
            } else {
                proof {
                    assert forall|i: int| mid <= i < before.len() implies (#[trigger] before[i]).id
                        >= alarm.id by {
                        if i > mid {
                            assert(before[mid as int].id < before[i].id);
                        }
                    }
                }
                hi = mid;
            }
        }
        proof {
            lemma_lower_is(before, alarm.id, lo as int);
        }
        if lo < self.alarms.len() && self.alarms[lo].id == alarm.id {
            let known = self.alarms[lo].duplicate();
            self.alarms.set(
                lo,
                AlarmData {
                    name: known.name,
                    id: known.id,
                    alarm_class_name: known.alarm_class_name,
                    alarm_class_symbol: known.alarm_class_symbol,
                    event_text: known.event_text,
                    instance_id: known.instance_id,
                    priority: known.priority,
                    state: alarm.state,
                    state_text: known.state_text,
                    state_machine: known.state_machine,
                    modification_time: alarm.modification_time,
                },
            );
        } else {
            self.alarms.insert(lo, alarm);
        }
    }

    /// Takes in the alarms that the client with the given cookie reports:
    /// every other subscriber is to be told of them, and they are put into
    /// the list of alarms. Returns the messages for the subscribers; each
    /// carries the cookie of the client that reported.
    pub fn notify_subscribe(&mut self, alarms: Vec<AlarmData>, cookie: &str) -> (r: Vec<Notice>)
        requires
            old(self).wf(),
        ensures
            final(self).wf(),
            final(self).subscriptions() == old(self).subscriptions(),
            final(self).alarms() == stored_all(old(self).alarms(), alarms@, alarms@.len()),
            r@.len() == recipients(old(self).subscriptions(), cookie@).len(),
            forall|i: int|
                0 <= i < r@.len() ==> (#[trigger] r@[i]).recipient@ == recipients(
                    old(self).subscriptions(),
                    cookie@,
                )[i] && tells(r@[i].message, alarms@, cookie@),
    {
        let mut notices: Vec<Notice> = Vec::new();
        let ghost subs = self.subscriptions();
        let mut i: usize = 0;
        proof {
            assert(subs.take(0).len() == 0);
        }
        while i < self.subscriptions.len()
            invariant
                i <= self.subscriptions.len(),
                subs == self.subscriptions(),
                *self == *old(self),
                notices@.len() == recipients(subs.take(i as int), cookie@).len(),
                forall|k: int|
                    0 <= k < notices@.len() ==> (#[trigger] notices@[k]).recipient@ == recipients(
                        subs.take(i as int),
                        cookie@,
                    )[k] && tells(notices@[k].message, alarms@, cookie@),
            decreases self.subscriptions.len() - i,
        {
            let ghost before = notices@;
            let ghost before_recipients = recipients(subs.take(i as int), cookie@);
            proof {
                assert(subs.take(i + 1).drop_last() =~= subs.take(i as int));
                assert(subs.take(i + 1).last() == self.subscriptions@[i as int]@);
            }
            let subscr = &self.subscriptions[i];
            if !same_str(subscr.cookie.as_str(), cookie) {
                let notify = AlarmServer::build_notify_alarms(
                    &alarms,
                    &subscr.system_names,
                    &subscr.filter,
                );
                notices.push(
                    Notice {
                        recipient: subscr.cookie.clone(),
                        message: Message {
                            message: MessageVariant::NotifySubscribeAlarm(
                                ParamWrapperCap { params: notify },
                            ),
                            client_cookie: cookie.to_owned(),
                        },
                    },
                );
                proof {
                    let now = recipients(subs.take(i + 1), cookie@);
                    assert(now == before_recipients.push(subscr@.cookie));
                    assert forall|k: int| 0 <= k < notices@.len() implies (
                    #[trigger] notices@[k]).recipient@ == now[k] && tells(
                        notices@[k].message,
                        alarms@,
                        cookie@,
                    ) by {
                        if k < before.len() {
                            assert(notices@[k] == before[k]);
                        }
                    }
                }
            }
            i += 1;
        }
        proof {
            assert(subs.take(subs.len() as int) =~= subs);
        }
        let mut k: usize = 0;
        while k < alarms.len()
            invariant
                k <= alarms.len(),
                self.wf(),
                self.subscriptions() == subs,
                self.alarms() == stored_all(old(self).alarms(), alarms@, k as nat),
            decreases alarms.len() - k,
        {
            self.store(alarms[k].duplicate());
            k += 1;
        }
        notices
    }

    /// Handles a message of a client: a subscription, the end of one, or a
    /// report of alarms. Returns the answer, if there is one, and appends to
    /// `outbox` what the subscribers are to be told.
    pub fn handle_message(&mut self, msg: Message, outbox: &mut Vec<Notice>) -> (r: Option<Message>)
        requires
            old(self).wf(),
        ensures
            final(self).wf(),
            match msg.message {
                MessageVariant::SubscribeAlarm(p) => {
                    &&& final(self).alarms() == old(self).alarms()
                    &&& final(outbox)@ == old(outbox)@
                    &&& r matches Some(m) && tells(m, old(self).alarms(), msg.client_cookie@)
                },
                MessageVariant::UnsubscribeAlarm => {
                    &&& final(self).alarms() == old(self).alarms()
                    &&& final(outbox)@ == old(outbox)@
                    &&& r matches Some(m) && m.client_cookie@ == msg.client_cookie@
                    &&& match cookie_index(old(self).subscriptions(), msg.client_cookie@) {
                        Some(i) => final(self).subscriptions() == old(self).subscriptions().remove(
                            i,
                        ) && r->0.message is NotifyUnsubscribeAlarm,
                        None => final(self).subscriptions() == old(self).subscriptions()
                            && r->0.message is ErrorUnsubscribeAlarm,
                    }
                },
                MessageVariant::NotifySubscribeAlarm(p) => {
                    &&& r is None
                    &&& final(self).subscriptions() == old(self).subscriptions()
                    &&& final(outbox)@.len() == old(outbox)@.len() + recipients(
                        old(self).subscriptions(),
                        msg.client_cookie@,
                    ).len()
                    &&& final(outbox)@.take(old(outbox)@.len() as int) == old(outbox)@
                    &&& forall|i: int|
                        old(outbox)@.len() <= i < final(outbox)@.len() ==> (
                        #[trigger] final(outbox)@[i]).recipient@ == recipients(
                            old(self).subscriptions(),
                            msg.client_cookie@,
                        )[i - old(outbox)@.len()] && final(outbox)@[i].message.client_cookie@
                            == msg.client_cookie@
                    &&& exists|reported: Seq<AlarmData>| #[trigger]
                        is_report(reported, p.params.alarms@) && final(self).alarms()
                            == stored_all(old(self).alarms(), reported, reported.len())
                            && all_tell(
                            final(outbox)@.skip(old(outbox)@.len() as int),
                            reported,
                            msg.client_cookie@,
                        )
                },
                _ => final(self).alarms() == old(self).alarms() && final(self).subscriptions()
                    == old(self).subscriptions() && final(outbox)@ == old(outbox)@ && r is None,
            },
    {
        match msg.message {
            MessageVariant::SubscribeAlarm(p) => Some(
                self.subscribe(p.params, msg.client_cookie.as_str()),
            ),
            MessageVariant::UnsubscribeAlarm => Some(self.unsubscribe(msg.client_cookie.as_str())),
            MessageVariant::NotifySubscribeAlarm(p) => {
                let alarms = crate::ingress::subscribe_alarms(&p.params);
                let ghost reported = alarms@;
                let mut notices = self.notify_subscribe(alarms, msg.client_cookie.as_str());
                let ghost before = outbox@;
                let ghost added = notices@;
                outbox.append(&mut notices);
                proof {
                    assert(outbox@.take(before.len() as int) =~= before);
                    assert(is_report(reported, p.params.alarms@));
                    assert(outbox@.skip(before.len() as int) =~= added);
                    assert(all_tell(added, reported, msg.client_cookie@));
                    assert forall|i: int| before.len() <= i < outbox@.len() implies (
                    #[trigger] outbox@[i]).recipient@ == recipients(
                        old(self).subscriptions(),
                        msg.client_cookie@,
                    )[i - before.len()] && outbox@[i].message.client_cookie@
                        == msg.client_cookie@ by {
                        assert(outbox@[i] == added[i - before.len()]);
                    }
                }
                None
            },
            _ => None,
        }
    }
}

/// Every notice of a list tells of the given alarms under the given cookie.
pub open spec fn all_tell(notices: Seq<Notice>, alarms: Seq<AlarmData>, cookie: Seq<char>) -> bool {
    forall|i: int| 0 <= i < notices.len() ==> tells((#[trigger] notices[i]).message, alarms, cookie)
}

/// The alarm records are those of a report: one for each travelling alarm,
/// with its fields.
pub open spec fn is_report(reported: Seq<AlarmData>, alarms: Seq<NotifyAlarm>) -> bool {
    reported.len() == alarms.len() && forall|i: int|
        0 <= i < reported.len() ==> (#[trigger] reported[i]).fields_from(&alarms[i])
}

} // verus!
