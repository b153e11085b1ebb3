//! Reading the actions of a state from the elements that stand for them.
use crate::actions::wait_alarm::AlarmCondition;
use crate::actions::wait_tag::TagCondition;
use crate::read_config::{ActionType, ReadError};
use crate::read_config::error::{ConfigErrorKind, KindView};
use crate::read_config::number::{IntErrorKind, NumberKind, Numbers, ReadingView};
use crate::read_config::reader::{
    bool_attribute, check_element_ns, fail_at, fail_text, int_attribute, number_attribute,
    optional_attribute, parse_duration, required_attribute, spec_bool, spec_check, spec_count,
    spec_duration, spec_int, spec_number, spec_required, spec_text_content, text_content, Stop,
    StopView,
};
use crate::read_config::view::{
    action_views, lemma_action_views, lemma_action_views_push, ActionTypeView, ConditionView,
};
use crate::read_config::xml::XmlNode;
use crate::text::same_str;
use vstd::prelude::*;

verus! {

/// The time that the attribute `timeout` stands for, if the element has
/// the attribute.
pub open spec fn spec_timeout(node: &XmlNode, nums: Seq<ReadingView>) -> Result<
    Option<u64>,
    StopView,
> {
    match node.spec_attribute("timeout"@) {
        None => Ok(None),
        Some(text) => match spec_duration(text, nums) {
            Ok(v) => Ok(Some(v)),
            Err(e) => Err(e),
        },
    }
}

/// The action of a `play` element: the clip named by its text, with the
/// priority of the attribute `priority`, or zero, and the time of the
/// attribute `timeout`, if there is one.
pub open spec fn spec_play(node: &XmlNode, nums: Seq<ReadingView>) -> Result<
    ActionTypeView,
    StopView,
> {
    match spec_int(node, "priority"@, i32::MIN as int, i32::MAX as int) {
        Err(e) => Err(e),
        Ok(priority) => match spec_timeout(node, nums) {
            Err(e) => Err(e),
            Ok(timeout) => match spec_text_content(node) {
                Err(e) => Err(e),
                Ok(sound) => Ok(
                    ActionTypeView::Play {
                        priority: match priority {
                            Some(p) => p as i32,
                            None => 0,
                        },
                        timeout,
                        sound,
                    },
                ),
            },
        },
    }
}

/// Reads a `play` element.
pub fn parse_play(node: &XmlNode, numbers: &Numbers) -> (r: Result<ActionType, Stop>)
    ensures
        match r {
            Ok(a) => spec_play(node, numbers@) == Ok::<ActionTypeView, StopView>(a@),
            Err(e) => spec_play(node, numbers@) == Err::<ActionTypeView, StopView>(e@),
        },
{
    let priority: i32 = match int_attribute(node, "priority", -0x8000_0000, 0x7fff_ffff) {
        Err(e) => {
            return Err(e);
        },
        Ok(Some(p)) => p as i32,
        Ok(None) => 0,
    };
    let timeout = match node.attribute("timeout") {
        None => None,
        Some(text) => match parse_duration(text.as_str(), numbers) {
            Ok(v) => Some(v),
            Err(e) => {
                return Err(e);
            },
        },
    };
    match text_content(node) {
        Err(e) => Err(e),
        Ok(sound) => Ok(ActionType::Play { priority, timeout, sound }),
    }
}

/// The action of a `wait` element: a wait of the duration that its text
/// stands for.
pub open spec fn spec_wait(node: &XmlNode, nums: Seq<ReadingView>) -> Result<
    ActionTypeView,
    StopView,
> {
    match spec_text_content(node) {
        Err(e) => Err(e),
        Ok(text) => match spec_duration(text, nums) {
            Err(e) => Err(e),
            Ok(v) => Ok(ActionTypeView::Wait(v)),
        },
    }
}

/// Reads a `wait` element.
pub fn parse_wait(node: &XmlNode, numbers: &Numbers) -> (r: Result<ActionType, Stop>)
    ensures
        match r {
            Ok(a) => spec_wait(node, numbers@) == Ok::<ActionTypeView, StopView>(a@),
            Err(e) => spec_wait(node, numbers@) == Err::<ActionTypeView, StopView>(e@),
        },
{
    match text_content(node) {
        Err(e) => Err(e),
        Ok(text) => match parse_duration(text.as_str(), numbers) {
            Err(e) => Err(e),
            Ok(v) => Ok(ActionType::Wait(v)),
        },
    }
}

/// The condition that one of the attributes of a `wait_tag` element names,
/// if the element has that attribute. The attributes are, in the order in
/// which they are looked at: `eq`, `ne`, `lt`, `le`, `gt`, `ge`, `eq_str`
/// and `changed`.
pub open spec fn condition_at(node: &XmlNode, nums: Seq<ReadingView>, k: int) -> Result<
    Option<ConditionView>,
    StopView,
> {
    if k == 0 {
        match spec_number(node, "eq"@, NumberKind::Double, nums) {
            Err(e) => Err(e),
            Ok(None) => Ok(None),
            Ok(Some(v)) => Ok(Some(ConditionView::EqualNumber(v))),
        }
    } else if k == 1 {
        match spec_number(node, "ne"@, NumberKind::Double, nums) {
            Err(e) => Err(e),
            Ok(None) => Ok(None),
            Ok(Some(v)) => Ok(Some(ConditionView::NotEqualNumber(v))),
        }
    } else if k == 2 {
        match spec_number(node, "lt"@, NumberKind::Double, nums) {
            Err(e) => Err(e),
            Ok(None) => Ok(None),
            Ok(Some(v)) => Ok(Some(ConditionView::Less(v))),
        }
    } else if k == 3 {
        match spec_number(node, "le"@, NumberKind::Double, nums) {
            Err(e) => Err(e),
            Ok(None) => Ok(None),
            Ok(Some(v)) => Ok(Some(ConditionView::LessEqual(v))),
        }
    } else if k == 4 {
        match spec_number(node, "gt"@, NumberKind::Double, nums) {
            Err(e) => Err(e),
            Ok(None) => Ok(None),
            Ok(Some(v)) => Ok(Some(ConditionView::Greater(v))),
        }
    } else if k == 5 {
        match spec_number(node, "ge"@, NumberKind::Double, nums) {
            Err(e) => Err(e),
            Ok(None) => Ok(None),
            Ok(Some(v)) => Ok(Some(ConditionView::GreaterEqual(v))),
        }
    } else if k == 6 {
        match node.spec_attribute("eq_str"@) {
            None => Ok(None),
            Some(v) => Ok(Some(ConditionView::EqualString(v))),
        }
    } else {
        match node.spec_attribute("changed"@) {
            None => Ok(None),
            Some(_) => Ok(Some(ConditionView::Changed)),
        }
    }
}

/// The condition after one more attribute has been looked at: a second
/// condition is an error.
pub open spec fn merged(
    node: &XmlNode,
    prev: Result<Option<ConditionView>, StopView>,
    found: Result<Option<ConditionView>, StopView>,
) -> Result<Option<ConditionView>, StopView> {
    match prev {
        Err(e) => Err(e),
        Ok(before) => match found {
            Err(e) => Err(e),
            Ok(None) => Ok(before),
            Ok(Some(c)) => if before is Some {
                Err(fail_at(node, KindView::ExclusiveAttributes))
            } else {
                Ok(Some(c))
            },
        },
    }
}

/// The condition that the first `k` of the attributes give.
pub open spec fn conditions_upto(node: &XmlNode, nums: Seq<ReadingView>, k: nat) -> Result<
    Option<ConditionView>,
    StopView,
>
    decreases k,
{
    if k == 0 {
        Ok(None)
    } else {
        merged(
            node,
            conditions_upto(node, nums, (k - 1) as nat),
            condition_at(node, nums, k - 1),
        )
    }
}

/// The action of a `wait_tag` element: a wait for the tag named by its
/// text, with the one condition that its attributes name.
pub open spec fn spec_wait_tag(node: &XmlNode, nums: Seq<ReadingView>) -> Result<
    ActionTypeView,
    StopView,
> {
    match conditions_upto(node, nums, 8) {
        Err(e) => Err(e),
        Ok(None) => Err(fail_at(node, KindView::ExclusiveAttributes)),
        Ok(Some(condition)) => match spec_text_content(node) {
            Err(e) => Err(e),
            Ok(tag_name) => Ok(ActionTypeView::WaitTag { tag_name, condition }),
        },
    }
}

/// The model of a condition that may be missing.
pub open spec fn condition_view(c: Option<TagCondition>) -> Option<ConditionView> {
    match c {
        Some(c) => Some(c@),
        None => None,
    }
}

/// Takes a condition that an attribute names; a second one is an error.
fn set_tag_condition(node: &XmlNode, var: &mut Option<TagCondition>, cond: TagCondition) -> (r:
    Result<(), Stop>)
    ensures
        match r {
            Ok(()) => merged(
                node,
                Ok(condition_view(*old(var))),
                Ok(Some(cond@)),
            ) == Ok::<Option<ConditionView>, StopView>(condition_view(*final(var))),
            Err(e) => merged(node, Ok(condition_view(*old(var))), Ok(Some(cond@))) == Err::<
                Option<ConditionView>,
                StopView,
            >(e@),
        },
{
    if var.is_some() {
        return Err(crate::read_config::reader::fail(node, ConfigErrorKind::ExclusiveAttributes));
    }
    *var = Some(cond);
    Ok(())
}

/// Looks at one of the attributes that stand for a number.
fn number_condition(
    node: &XmlNode,
    numbers: &Numbers,
    var: &mut Option<TagCondition>,
    k: usize,
) -> (r: Result<(), Stop>)
    requires
        k < 6,
    ensures
        match r {
            Ok(()) => merged(
                node,
                Ok(condition_view(*old(var))),
                condition_at(node, numbers@, k as int),
            ) == Ok::<Option<ConditionView>, StopView>(condition_view(*final(var))),
            Err(e) => merged(
                node,
                Ok(condition_view(*old(var))),
                condition_at(node, numbers@, k as int),
            ) == Err::<Option<ConditionView>, StopView>(e@),
        },
{
    let name = if k == 0 {
        "eq"
    } else if k == 1 {
        "ne"
    } else if k == 2 {
        "lt"
    } else if k == 3 {
        "le"
    } else if k == 4 {
        "gt"
    } else {
        "ge"
    };
    match number_attribute(node, name, NumberKind::Double, numbers) {
        Err(e) => Err(e),
        Ok(None) => Ok(()),
        Ok(Some(v)) => {
            let cond = if k == 0 {
                TagCondition::EqualNumber(v)
            } else if k == 1 {
                TagCondition::NotEqualNumber(v)
            } else if k == 2 {
                TagCondition::Less(v)
            } else if k == 3 {
                TagCondition::LessEqual(v)
            } else if k == 4 {
                TagCondition::Greater(v)
            } else {
                TagCondition::GreaterEqual(v)
            };
            set_tag_condition(node, var, cond)
        },
    }
}

/// Reads a `wait_tag` element.
pub fn parse_wait_tag(node: &XmlNode, numbers: &Numbers) -> (r: Result<ActionType, Stop>)
    ensures
        match r {
            Ok(a) => spec_wait_tag(node, numbers@) == Ok::<ActionTypeView, StopView>(a@),
            Err(e) => spec_wait_tag(node, numbers@) == Err::<ActionTypeView, StopView>(e@),
        },
{
    let mut condition: Option<TagCondition> = None;
    let mut k: usize = 0;
    while k < 6
        invariant
            k <= 6,
            conditions_upto(node, numbers@, k as nat) == Ok::<Option<ConditionView>, StopView>(
                condition_view(condition),
            ),
        decreases 6 - k,
    {
        match number_condition(node, numbers, &mut condition, k) {
            Err(e) => {
                proof {
                    lemma_conditions_stop(node, numbers@, (k + 1) as nat);
                }
                return Err(e);
            },
            Ok(()) => {},
        }
        k += 1;
    }
    proof {
        assert(conditions_upto(node, numbers@, 7) == merged(
            node,
            conditions_upto(node, numbers@, 6),
            condition_at(node, numbers@, 6),
        ));
        assert(conditions_upto(node, numbers@, 8) == merged(
            node,
            conditions_upto(node, numbers@, 7),
            condition_at(node, numbers@, 7),
        ));
    }
    match optional_attribute(node, "eq_str") {
        Some(v) => {
            match set_tag_condition(node, &mut condition, TagCondition::EqualString(v)) {
                Err(e) => {
                    proof {
                        lemma_conditions_stop(node, numbers@, 7);
                    }
                    return Err(e);
                },
                Ok(()) => {},
            }
        },
        None => {},
    }
    assert(conditions_upto(node, numbers@, 7) == Ok::<Option<ConditionView>, StopView>(
        condition_view(condition),
    ));
    match node.attribute("changed") {
        Some(_) => {
            match set_tag_condition(node, &mut condition, TagCondition::Changed) {
                Err(e) => {
                    return Err(e);
                },
                Ok(()) => {},
            }
        },
        None => {},
    }
    assert(conditions_upto(node, numbers@, 8) == Ok::<Option<ConditionView>, StopView>(
        condition_view(condition),
    ));
    let condition = match condition {
        Some(c) => c,
        None => {
            return Err(
                crate::read_config::reader::fail(node, ConfigErrorKind::ExclusiveAttributes),
            );
        },
    };
    match text_content(node) {
        Err(e) => Err(e),
        Ok(tag_name) => Ok(ActionType::WaitTag { tag_name, condition }),
    }
}

/// Once the attributes have given an error, it stays.
proof fn lemma_conditions_stop(node: &XmlNode, nums: Seq<ReadingView>, k: nat)
    requires
        k <= 8,
        conditions_upto(node, nums, k) is Err,
    ensures
        conditions_upto(node, nums, 8) == conditions_upto(node, nums, k),
    decreases 8 - k,
{
    if k < 8 {
        assert(conditions_upto(node, nums, k + 1) == conditions_upto(node, nums, k));
        lemma_conditions_stop(node, nums, k + 1);
    }
}

/// The message for a `count` that names no condition.
pub open spec fn count_message() -> Seq<char> {
    "Must be one of 'none', 'any', 'inc' or 'dec'"@
}

/// The action of a `wait_alarm` element: a wait for the filter named by
/// its text, with the condition that the attribute `count` names.
pub open spec fn spec_wait_alarm(node: &XmlNode) -> Result<ActionTypeView, StopView> {
    match spec_text_content(node) {
        Err(e) => Err(e),
        Ok(filter_name) => match spec_required(node, "count"@) {
            Err(e) => Err(e),
            Ok(count) => if count == "none"@ {
                Ok(ActionTypeView::WaitAlarm { filter_name, condition: AlarmCondition::NoAlarm })
            } else if count == "any"@ {
                Ok(ActionTypeView::WaitAlarm { filter_name, condition: AlarmCondition::Any })
            } else if count == "inc"@ {
                Ok(ActionTypeView::WaitAlarm { filter_name, condition: AlarmCondition::Inc })
            } else if count == "dec"@ {
                Ok(ActionTypeView::WaitAlarm { filter_name, condition: AlarmCondition::Dec })
            } else {
                Err(fail_at(node, KindView::ParseAttribute("count"@, count_message())))
            },
        },
    }
}

/// Reads a `wait_alarm` element.
pub fn parse_wait_alarm(node: &XmlNode) -> (r: Result<ActionType, Stop>)
    ensures
        match r {
            Ok(a) => spec_wait_alarm(node) == Ok::<ActionTypeView, StopView>(a@),
            Err(e) => spec_wait_alarm(node) == Err::<ActionTypeView, StopView>(e@),
        },
{
    let filter_name = match text_content(node) {
        Err(e) => {
            return Err(e);
        },
        Ok(t) => t,
    };
    let count = match required_attribute(node, "count") {
        Err(e) => {
            return Err(e);
        },
        Ok(c) => c,
    };
    let condition = if same_str(count.as_str(), "none") {
        AlarmCondition::NoAlarm
    } else if same_str(count.as_str(), "any") {
        AlarmCondition::Any
    } else if same_str(count.as_str(), "inc") {
        AlarmCondition::Inc
    } else if same_str(count.as_str(), "dec") {
        AlarmCondition::Dec
    } else {
        return Err(
            crate::read_config::reader::fail(
                node,
                ConfigErrorKind::ParseAttribute(
                    "count".to_owned(),
                    "Must be one of 'none', 'any', 'inc' or 'dec'".to_owned(),
                ),
            ),
        );
    };
    Ok(ActionType::WaitAlarm { filter_name, condition })
}

/// The action of a `goto` element: a change to the state named by its text.
pub open spec fn spec_goto(node: &XmlNode) -> Result<ActionTypeView, StopView> {
    match spec_text_content(node) {
        Err(e) => Err(e),
        Ok(t) => Ok(ActionTypeView::Goto(t)),
    }
}

/// Reads a `goto` element.
pub fn parse_goto(node: &XmlNode) -> (r: Result<ActionType, Stop>)
    ensures
        match r {
            Ok(a) => spec_goto(node) == Ok::<ActionTypeView, StopView>(a@),
            Err(e) => spec_goto(node) == Err::<ActionTypeView, StopView>(e@),
        },
{
    match text_content(node) {
        Err(e) => Err(e),
        Ok(t) => Ok(ActionType::Goto(t)),
    }
}

/// The action of a `set_tag` element: the tag named by the attribute `tag`
/// gets the text of the element as its value.
pub open spec fn spec_set_tag(node: &XmlNode) -> Result<ActionTypeView, StopView> {
    match spec_required(node, "tag"@) {
        Err(e) => Err(e),
        Ok(tag_name) => match spec_text_content(node) {
            Err(e) => Err(e),
            Ok(value) => Ok(ActionTypeView::SetTag { tag_name, value }),
        },
    }
}

/// Reads a `set_tag` element.
pub fn parse_set_tag(node: &XmlNode) -> (r: Result<ActionType, Stop>)
    ensures
        match r {
            Ok(a) => spec_set_tag(node) == Ok::<ActionTypeView, StopView>(a@),
            Err(e) => spec_set_tag(node) == Err::<ActionTypeView, StopView>(e@),
        },
{
    match required_attribute(node, "tag") {
        Err(e) => Err(e),
        Ok(tag_name) => match text_content(node) {
            Err(e) => Err(e),
            Ok(value) => Ok(ActionType::SetTag { tag_name, value }),
        },
    }
}

/// The action of an `ignore_alarms` element: the alarms of the filter
/// named by its text are ignored, for good if the attribute `permanent`
/// says so.
pub open spec fn spec_ignore_alarms(node: &XmlNode) -> Result<ActionTypeView, StopView> {
    match spec_bool(node, "permanent"@) {
        Err(e) => Err(e),
        Ok(permanent) => match spec_text_content(node) {
            Err(e) => Err(e),
            Ok(filter) => Ok(
                ActionTypeView::IgnoreAlarms {
                    filter,
                    permanent: match permanent {
                        Some(p) => p,
                        None => false,
                    },
                },
            ),
        },
    }
}

/// Reads an `ignore_alarms` element.
pub fn parse_ignore_alarms(node: &XmlNode) -> (r: Result<ActionType, Stop>)
    ensures
        match r {
            Ok(a) => spec_ignore_alarms(node) == Ok::<ActionTypeView, StopView>(a@),
            Err(e) => spec_ignore_alarms(node) == Err::<ActionTypeView, StopView>(e@),
        },
{
    let permanent = match bool_attribute(node, "permanent") {
        Err(e) => {
            return Err(e);
        },
        Ok(Some(p)) => p,
        Ok(None) => false,
    };
    match text_content(node) {
        Err(e) => Err(e),
        Ok(filter) => Ok(ActionType::IgnoreAlarms { filter, permanent }),
    }
}

/// The action of a `restore_alarms` element: the alarms of the filter
/// named by its text are no longer ignored.
pub open spec fn spec_restore_alarms(node: &XmlNode) -> Result<ActionTypeView, StopView> {
    match spec_text_content(node) {
        Err(e) => Err(e),
        Ok(filter) => Ok(ActionTypeView::RestoreAlarms { filter }),
    }
}

/// Reads a `restore_alarms` element.
pub fn parse_restore_alarms(node: &XmlNode) -> (r: Result<ActionType, Stop>)
    ensures
        match r {
            Ok(a) => spec_restore_alarms(node) == Ok::<ActionTypeView, StopView>(a@),
            Err(e) => spec_restore_alarms(node) == Err::<ActionTypeView, StopView>(e@),
        },
{
    match text_content(node) {
        Err(e) => Err(e),
        Ok(filter) => Ok(ActionType::RestoreAlarms { filter }),
    }
}

/// The action of a `debug` element: its text goes to the log.
pub open spec fn spec_debug(node: &XmlNode) -> Result<ActionTypeView, StopView> {
    match spec_text_content(node) {
        Err(e) => Err(e),
        Ok(t) => Ok(ActionTypeView::Debug(t)),
    }
}

/// Reads a `debug` element.
pub fn parse_debug(node: &XmlNode) -> (r: Result<ActionType, Stop>)
    ensures
        match r {
            Ok(a) => spec_debug(node) == Ok::<ActionTypeView, StopView>(a@),
            Err(e) => spec_debug(node) == Err::<ActionTypeView, StopView>(e@),
        },
{
    match text_content(node) {
        Err(e) => Err(e),
        Ok(t) => Ok(ActionType::Debug(t)),
    }
}

/// The actions of the first `n` children of an element: one for each child
/// that is an element, in their order.
pub open spec fn spec_children(children: Seq<XmlNode>, n: nat, nums: Seq<ReadingView>) -> Result<
    Seq<ActionTypeView>,
    StopView,
>
    decreases children, n,
{
    if n == 0 || n > children.len() {
        Ok(Seq::empty())
    } else {
        match spec_children(children, (n - 1) as nat, nums) {
            Err(e) => Err(e),
            Ok(before) => match spec_check(&children[n - 1]) {
                Err(e) => Err(e),
                Ok(false) => Ok(before),
                Ok(true) => match spec_action(&children[n - 1], nums) {
                    Err(e) => Err(e),
                    Ok(a) => Ok(before.push(a)),
                },
            },
        }
    }
}

/// The action that a list of actions stands for where one action is
/// wanted: the action itself if there is one only, else all of them, one
/// after the other. An empty list is an error.
pub open spec fn spec_sequence(node: &XmlNode, nums: Seq<ReadingView>) -> Result<
    ActionTypeView,
    StopView,
>
    decreases node, 1nat,
{
    match spec_children(node.children@, node.children@.len(), nums) {
        Err(e) => Err(e),
        Ok(actions) => if actions.len() == 0 {
            Err(fail_text("No action in sequence"@))
        } else if actions.len() == 1 {
            Ok(actions[0])
        } else {
            Ok(ActionTypeView::Sequence(actions))
        },
    }
}

/// The action of a `parallel` element: the action inside it if there is
/// one only, else all of them side by side. An empty element is an error.
pub open spec fn spec_parallel(node: &XmlNode, nums: Seq<ReadingView>) -> Result<
    ActionTypeView,
    StopView,
>
    decreases node, 1nat,
{
    match spec_children(node.children@, node.children@.len(), nums) {
        Err(e) => Err(e),
        Ok(actions) => if actions.len() == 0 {
            Err(fail_text("No action in parallel"@))
        } else if actions.len() == 1 {
            Ok(actions[0])
        } else {
            Ok(ActionTypeView::Parallel(actions))
        },
    }
}

/// The action of a `repeat` element: the actions inside it, one after the
/// other, as many times as the attribute `count` says, or for ever.
pub open spec fn spec_repeat(node: &XmlNode, nums: Seq<ReadingView>) -> Result<
    ActionTypeView,
    StopView,
>
    decreases node, 2nat,
{
    match spec_count(node) {
        Err(e) => Err(e),
        Ok(count) => match spec_sequence(node, nums) {
            Err(e) => Err(e),
            Ok(action) => Ok(ActionTypeView::Repeat { count, action: Box::new(action) }),
        },
    }
}

/// The action that an element stands for, by its name.
pub open spec fn spec_action(node: &XmlNode, nums: Seq<ReadingView>) -> Result<
    ActionTypeView,
    StopView,
>
    decreases node, 3nat,
{
    if node.name@ == "sequence"@ {
        spec_sequence(node, nums)
    } else if node.name@ == "parallel"@ {
        spec_parallel(node, nums)
    } else if node.name@ == "play"@ {
        spec_play(node, nums)
    } else if node.name@ == "wait"@ {
        spec_wait(node, nums)
    } else if node.name@ == "wait_tag"@ {
        spec_wait_tag(node, nums)
    } else if node.name@ == "wait_alarm"@ {
        spec_wait_alarm(node)
    } else if node.name@ == "goto"@ {
        spec_goto(node)
    } else if node.name@ == "repeat"@ {
        spec_repeat(node, nums)
    } else if node.name@ == "set_tag"@ {
        spec_set_tag(node)
    } else if node.name@ == "ignore_alarms"@ {
        spec_ignore_alarms(node)
    } else if node.name@ == "restore_alarms"@ {
        spec_restore_alarms(node)
    } else if node.name@ == "debug"@ {
        spec_debug(node)
    } else {
        Err(fail_at(node, KindView::UnexpectedElement))
    }
}

/// Once a child has given an error, it stays.
pub proof fn lemma_children_stop(children: Seq<XmlNode>, n: nat, nums: Seq<ReadingView>)
    requires
        n <= children.len(),
        spec_children(children, n, nums) is Err,
    ensures
        spec_children(children, children.len(), nums) == spec_children(children, n, nums),
    decreases children.len() - n,
{
    if n < children.len() {
        assert(spec_children(children, n + 1, nums) == spec_children(children, n, nums));
        lemma_children_stop(children, n + 1, nums);
    }
}

/// Reads the actions inside an element.
pub fn parse_children(children: &Vec<XmlNode>, numbers: &Numbers) -> (r: Result<
    Vec<ActionType>,
    Stop,
>)
    ensures
        match r {
            Ok(actions) => spec_children(children@, children@.len(), numbers@) == Ok::<
                Seq<ActionTypeView>,
                StopView,
            >(action_views(actions@)),
            Err(e) => spec_children(children@, children@.len(), numbers@) == Err::<
                Seq<ActionTypeView>,
                StopView,
            >(e@),
        },
    decreases children, 0nat,
{
    let mut actions: Vec<ActionType> = Vec::new();
    let mut i: usize = 0;
    while i < children.len()
        invariant
            i <= children.len(),
            spec_children(children@, i as nat, numbers@) == Ok::<Seq<ActionTypeView>, StopView>(
                action_views(actions@),
            ),
        decreases children.len() - i,
    {
        let child = &children[i];
        match check_element_ns(child) {
            Err(e) => {
                proof {
                    lemma_children_stop(children@, (i + 1) as nat, numbers@);
                }
                return Err(e);
            },
            Ok(false) => {},
            Ok(true) => match parse_action(child, numbers) {
                Err(e) => {
                    proof {
                        lemma_children_stop(children@, (i + 1) as nat, numbers@);
                    }
                    return Err(e);
                },
                Ok(action) => {
                    proof {
                        lemma_action_views_push(actions@, action);
                    }
                    actions.push(action);
                },
            },
        }
        i += 1;
    }
    Ok(actions)
}

/// Reads the actions inside an element as one action.
pub fn parse_sequence(node: &XmlNode, numbers: &Numbers) -> (r: Result<ActionType, Stop>)
    ensures
        match r {
            Ok(a) => spec_sequence(node, numbers@) == Ok::<ActionTypeView, StopView>(a@),
            Err(e) => spec_sequence(node, numbers@) == Err::<ActionTypeView, StopView>(e@),
        },
    decreases node, 1nat,
{
    let mut actions = match parse_children(&node.children, numbers) {
        Err(e) => {
            return Err(e);
        },
        Ok(a) => a,
    };
    proof {
        lemma_action_views(actions@);
    }
    if actions.len() == 0 {
        Err(Stop::Fail(ReadError::Message("No action in sequence".to_owned())))
    } else if actions.len() == 1 {
        Ok(actions.pop().unwrap())
    } else {
        Ok(ActionType::Sequence(actions))
    }
}

/// Reads a `parallel` element.
pub fn parse_parallel(node: &XmlNode, numbers: &Numbers) -> (r: Result<ActionType, Stop>)
    ensures
        match r {
            Ok(a) => spec_parallel(node, numbers@) == Ok::<ActionTypeView, StopView>(a@),
            Err(e) => spec_parallel(node, numbers@) == Err::<ActionTypeView, StopView>(e@),
        },
    decreases node, 1nat,
{
    let mut actions = match parse_children(&node.children, numbers) {
        Err(e) => {
            return Err(e);
        },
        Ok(a) => a,
    };
    proof {
        lemma_action_views(actions@);
    }
    if actions.len() == 0 {
        Err(Stop::Fail(ReadError::Message("No action in parallel".to_owned())))
    } else if actions.len() == 1 {
        Ok(actions.pop().unwrap())
    } else {
        Ok(ActionType::Parallel(actions))
    }
}

/// Reads the attribute `count` of a `repeat` element.
pub fn parse_count(node: &XmlNode) -> (r: Result<Option<u32>, Stop>)
    ensures
        match r {
            Ok(c) => spec_count(node) == Ok::<Option<u32>, StopView>(c),
            Err(e) => spec_count(node) == Err::<Option<u32>, StopView>(e@),
        },
{
    match int_attribute(node, "count", 0, 0xffff_ffff) {
        Err(e) => Err(e),
        Ok(None) => Ok(None),
        Ok(Some(v)) => {
            if v == 0 {
                Err(
                    crate::read_config::reader::fail(
                        node,
                        ConfigErrorKind::ParseAttribute(
                            "count".to_owned(),
                            IntErrorKind::Zero.to_string(),
                        ),
                    ),
                )
            } else {
                Ok(Some(v as u32))
            }
        },
    }
}

/// Reads a `repeat` element.
pub fn parse_repeat(node: &XmlNode, numbers: &Numbers) -> (r: Result<ActionType, Stop>)
    ensures
        match r {
            Ok(a) => spec_repeat(node, numbers@) == Ok::<ActionTypeView, StopView>(a@),
            Err(e) => spec_repeat(node, numbers@) == Err::<ActionTypeView, StopView>(e@),
        },
    decreases node, 2nat,
{
    let count = match parse_count(node) {
        Err(e) => {
            return Err(e);
        },
        Ok(c) => c,
    };
    match parse_sequence(node, numbers) {
        Err(e) => Err(e),
        Ok(action) => Ok(ActionType::Repeat { count, action: Box::new(action) }),
    }
}

/// Reads the action that an element stands for.
pub fn parse_action(node: &XmlNode, numbers: &Numbers) -> (r: Result<ActionType, Stop>)
    ensures
        match r {
            Ok(a) => spec_action(node, numbers@) == Ok::<ActionTypeView, StopView>(a@),
            Err(e) => spec_action(node, numbers@) == Err::<ActionTypeView, StopView>(e@),
        },
    decreases node, 3nat,
{
    if node.is_named("sequence") {
        parse_sequence(node, numbers)
    } else if node.is_named("parallel") {
        parse_parallel(node, numbers)
    } else if node.is_named("play") {
        parse_play(node, numbers)
    } else if node.is_named("wait") {
        parse_wait(node, numbers)
    } else if node.is_named("wait_tag") {
        parse_wait_tag(node, numbers)
    } else if node.is_named("wait_alarm") {
        parse_wait_alarm(node)
    } else if node.is_named("goto") {
        parse_goto(node)
    } else if node.is_named("repeat") {
        parse_repeat(node, numbers)
    } else if node.is_named("set_tag") {
        parse_set_tag(node)
    } else if node.is_named("ignore_alarms") {
        parse_ignore_alarms(node)
    } else if node.is_named("restore_alarms") {
        parse_restore_alarms(node)
    } else if node.is_named("debug") {
        parse_debug(node)
    } else {
        Err(crate::read_config::reader::fail(node, ConfigErrorKind::UnexpectedElement))
    }
}

} // verus!
