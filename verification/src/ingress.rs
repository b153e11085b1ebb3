//! What comes in from the runtime: every message is handed to the part of
//! the world that it is for.
//!
//! A notification of tag values changes the tags, a notification of alarms
//! is taken in by the alarm filters, and the acknowledgement of a write ends
//! the wait of the actions that wrote. Every other message is passed over.
use crate::actions::action::{World, WorldView};
use crate::alarm_filter::BoolExpr;
use crate::app_config::alarm_context::{all_notified, tags_after, FilterView};
use crate::app_config::tag_context::{unacknowledged, TagContextView};
use crate::name_set::texts;
use crate::open_pipe::alarm_data::AlarmData;
use crate::open_pipe::connection::{
    Message, MessageVariant, NotifyAlarm, NotifyAlarms, NotifyTag, NotifyTags, NotifyWriteTag,
    WriteTagValue,
};
use vstd::prelude::*;

verus! {

/// An alarm record that agrees with a travelling alarm in every field but
/// the modification time.
pub open spec fn reported_alarm(notify: &NotifyAlarm) -> AlarmData {
    choose|a: AlarmData| a.fields_from(notify)
}

/// Whether an alarm satisfies a filter does not depend on its modification
/// time, nor on the texts of its symbol, event and state.
pub proof fn lemma_matches_by_fields(e: BoolExpr, a: &AlarmData, b: &AlarmData)
    requires
        a.name == b.name,
        a.id == b.id,
        a.alarm_class_name == b.alarm_class_name,
        a.instance_id == b.instance_id,
        a.priority == b.priority,
        a.state == b.state,
    ensures
        e.matches(a) == e.matches(b),
    decreases e,
{
    match e {
        BoolExpr::Not(x) => {
            lemma_matches_by_fields(*x, a, b);
        },
        BoolExpr::And(x, y) => {
            lemma_matches_by_fields(*x, a, b);
            lemma_matches_by_fields(*y, a, b);
        },
        BoolExpr::Or(x, y) => {
            lemma_matches_by_fields(*x, a, b);
            lemma_matches_by_fields(*y, a, b);
        },
        _ => {},
    }
}

/// A filter takes in an alarm record as it takes in any record with the
/// same fields.
pub proof fn lemma_notified_by_fields(f: FilterView, a: &AlarmData, notify: &NotifyAlarm)
    requires
        a.fields_from(notify),
    ensures
        f.notified(a) == f.notified(&reported_alarm(notify)),
        f.announces(a) == f.announces(&reported_alarm(notify)),
{
    let b = reported_alarm(notify);
    assert(b.fields_from(notify));
    lemma_matches_by_fields(f.filter, a, &b);
}

/// The tags after the first `n` tag values of a notification are taken in.
pub open spec fn tags_changed(tags: TagContextView, values: Seq<NotifyTag>, n: nat) -> TagContextView
    decreases n,
{
    if n == 0 || n > values.len() {
        tags
    } else {
        tags_changed(tags, values, (n - 1) as nat).changed(
            values[n - 1].data.name@,
            values[n - 1].data.value@,
        )
    }
}

/// The world after the first `n` alarms of a notification are taken in.
pub open spec fn alarms_taken(world: WorldView, alarms: Seq<NotifyAlarm>, n: nat) -> WorldView
    decreases n,
{
    if n == 0 || n > alarms.len() {
        world
    } else {
        let before = alarms_taken(world, alarms, (n - 1) as nat);
        let alarm = reported_alarm(&alarms[n - 1]);
        WorldView {
            alarms: all_notified(before.alarms, &alarm),
            tags: tags_after(before.alarms, &alarm, before.tags),
            ..before
        }
    }
}

/// The names of the tags whose write a message acknowledges.
pub open spec fn acknowledged_names(tags: Seq<NotifyWriteTag>) -> Seq<Seq<char>> {
    Seq::new(tags.len(), |i: int| tags[i].name@)
}

/// The world after a message from the runtime is taken in.
pub open spec fn message_taken(world: WorldView, msg: &Message) -> WorldView {
    match msg.message {
        MessageVariant::NotifySubscribeTag(p) => WorldView {
            tags: tags_changed(world.tags, p.params.tags@, p.params.tags@.len()),
            ..world
        },
        MessageVariant::NotifySubscribeAlarm(p) => alarms_taken(
            world,
            p.params.alarms@,
            p.params.alarms@.len(),
        ),
        MessageVariant::NotifyWriteTag(p) => WorldView {
            tags: TagContextView {
                pending: unacknowledged(
                    world.tags.pending,
                    acknowledged_names(p.params.tags@),
                ),
                ..world.tags
            },
            ..world
        },
        _ => world,
    }
}

fn take_tags(world: &mut World, values: &Vec<NotifyTag>)
    requires
        old(world).wf(),
    ensures
        final(world).wf(),
        final(world)@ == (WorldView {
            tags: tags_changed(old(world)@.tags, values@, values@.len()),
            ..old(world)@
        }),
{
    let mut i: usize = 0;
    while i < values.len()
        invariant
            i <= values.len(),
            world.wf(),
            world@ == (WorldView {
                tags: tags_changed(old(world)@.tags, values@, i as nat),
                ..old(world)@
            }),
        decreases values.len() - i,
    {
        let tag = &values[i];
        world.tags.tag_changed(tag.data.name.as_str(), tag.data.value.as_str());
        i += 1;
    }
}

fn take_alarms(world: &mut World, alarms: &Vec<NotifyAlarm>)
    requires
        old(world).wf(),
    ensures
        final(world).wf(),
        final(world)@ == alarms_taken(old(world)@, alarms@, alarms@.len()),
{
    let mut i: usize = 0;
    while i < alarms.len()
        invariant
            i <= alarms.len(),
            world.wf(),
            world@ == alarms_taken(old(world)@, alarms@, i as nat),
        decreases alarms.len() - i,
    {
        let ghost before = world@;
        let alarm_data = AlarmData::from_notify(alarms[i].clone());
        proof {
            let reported = reported_alarm(&alarms@[i as int]);
            assert forall|k: int| 0 <= k < before.alarms.len() implies (
            #[trigger] before.alarms[k]).notified(&alarm_data) == before.alarms[k].notified(
                &reported,
            ) && before.alarms[k].announces(&alarm_data) == before.alarms[k].announces(
                &reported,
            ) by {
                lemma_notified_by_fields(before.alarms[k], &alarm_data, &alarms@[i as int]);
            }
            assert(all_notified(before.alarms, &alarm_data) =~= all_notified(
                before.alarms,
                &reported,
            ));
            lemma_tags_after_by_fields(
                before.alarms,
                &alarm_data,
                &alarms@[i as int],
                before.tags,
            );
        }
        world.alarms.handle_notification(&alarm_data, &mut world.tags);
        i += 1;
    }
}

/// The tags are told the same by the filters for any two records with the
/// same fields.
pub proof fn lemma_tags_after_by_fields(
    filters: Seq<FilterView>,
    a: &AlarmData,
    notify: &NotifyAlarm,
    tags: TagContextView,
)
    requires
        a.fields_from(notify),
    ensures
        tags_after(filters, a, tags) == tags_after(filters, &reported_alarm(notify), tags),
    decreases filters.len(),
{
    if filters.len() > 0 {
        lemma_tags_after_by_fields(filters.drop_last(), a, notify, tags);
        lemma_notified_by_fields(filters.last(), a, notify);
    }
}

fn names_of(tags: &Vec<NotifyWriteTag>) -> (r: Vec<String>)
    ensures
        texts(r@) == acknowledged_names(tags@),
{
    let mut names: Vec<String> = Vec::new();
    let mut i: usize = 0;
    while i < tags.len()
        invariant
            i <= tags.len(),
            names@.len() == i,
            forall|k: int| 0 <= k < i ==> (#[trigger] names@[k])@ == tags@[k].name@,
        decreases tags.len() - i,
    {
        let ghost before = names@;
        names.push(tags[i].name.clone());
        proof {
            assert forall|k: int| 0 <= k < i + 1 implies (#[trigger] names@[k])@
                == tags@[k].name@ by {
                if k < i {
                    assert(names@[k] == before[k]);
                }
            }
        }
        i += 1;
    }
    proof {
        assert(texts(names@) =~= acknowledged_names(tags@));
    }
    names
}

/// Takes in a message from the runtime.
pub fn handle_message(world: &mut World, msg: &Message)
    requires
        old(world).wf(),
    ensures
        final(world).wf(),
        final(world)@ == message_taken(old(world)@, msg),
{
    match &msg.message {
        MessageVariant::NotifySubscribeTag(p) => {
            take_tags(world, &p.params.tags);
        },
        MessageVariant::NotifySubscribeAlarm(p) => {
            take_alarms(world, &p.params.alarms);
        },
        MessageVariant::NotifyWriteTag(p) => {
            let names = names_of(&p.params.tags);
            world.tags.write_acknowledged(&names);
        },
        _ => {},
    }
}

/// The tags of the answer to a subscription that the runtime has accepted:
/// those without an error code, with their values, in the order of the
/// answer.
pub open spec fn accepted_tags(values: Seq<NotifyTag>, n: nat) -> Seq<(Seq<char>, Seq<char>)>
    decreases n,
{
    if n == 0 || n > values.len() {
        Seq::empty()
    } else {
        let before = accepted_tags(values, (n - 1) as nat);
        if values[n - 1].error.error_code == 0 {
            before.push((values[n - 1].data.name@, values[n - 1].data.value@))
        } else {
            before
        }
    }
}

/// The views of a list of tag values.
pub open spec fn value_views(values: Seq<WriteTagValue>) -> Seq<(Seq<char>, Seq<char>)> {
    Seq::new(values.len(), |i: int| (values[i].name@, values[i].value@))
}

/// The tags of the answer to a subscription that the runtime has accepted,
/// with their values.
pub fn subscribe_tags(answer: &NotifyTags) -> (r: Vec<WriteTagValue>)
    ensures
        value_views(r@) == accepted_tags(answer.tags@, answer.tags@.len()),
{
    let mut values: Vec<WriteTagValue> = Vec::new();
    let mut i: usize = 0;
    proof {
        assert(value_views(values@) =~= accepted_tags(answer.tags@, 0));
    }
    while i < answer.tags.len()
        invariant
            i <= answer.tags.len(),
            value_views(values@) == accepted_tags(answer.tags@, i as nat),
        decreases answer.tags.len() - i,
    {
        let tag = &answer.tags[i];
        let ghost before = value_views(values@);
        if tag.error.error_code == 0 {
            values.push(WriteTagValue { name: tag.data.name.clone(), value: tag.data.value.clone() });
            proof {
                assert(value_views(values@) =~= before.push((tag.data.name@, tag.data.value@)));
            }
        }
        i += 1;
    }
    values
}

/// The alarm records of the answer to a subscription.
pub fn subscribe_alarms(answer: &NotifyAlarms) -> (r: Vec<AlarmData>)
    ensures
        r@.len() == answer.alarms@.len(),
        forall|i: int| 0 <= i < r@.len() ==> (#[trigger] r@[i]).fields_from(&answer.alarms@[i]),
{
    let mut alarms: Vec<AlarmData> = Vec::new();
    let mut i: usize = 0;
    while i < answer.alarms.len()
        invariant
            i <= answer.alarms.len(),
            alarms@.len() == i,
            forall|k: int| 0 <= k < i ==> (#[trigger] alarms@[k]).fields_from(&answer.alarms@[k]),
        decreases answer.alarms.len() - i,
    {
        let ghost before = alarms@;
        alarms.push(AlarmData::from_notify(answer.alarms[i].clone()));
        proof {
            assert forall|k: int| 0 <= k < i + 1 implies (#[trigger] alarms@[k]).fields_from(
                &answer.alarms@[k],
            ) by {
                if k < i {
                    assert(alarms@[k] == before[k]);
                }
            }
        }
        i += 1;
    }
    alarms
}

} // verus!
