//! What the questions and the answers of a reading are worth.
//!
//! A reading that ends with a question asks for something that the list of
//! answers does not hold, so every answer is asked for once at most. A
//! reading that does not end with a question is final: whatever answers are
//! added to the list, it stays what it is.
use crate::read_config::action_reader::{
    condition_at, conditions_upto, spec_action, spec_children, spec_parallel, spec_play,
    spec_repeat, spec_sequence, spec_timeout, spec_wait, spec_wait_tag,
};
use crate::read_config::document::{
    spec_alarms, spec_clips, spec_document, spec_file_clip, spec_root, spec_sine_clip, spec_state,
    spec_state_machine, spec_states, spec_tags, with_element,
};
use crate::read_config::number::{first_reading, NumberKind, ReadingView};
use crate::read_config::reader::{
    content_of, number_of, spec_bool, spec_check, spec_count, spec_duration, spec_int,
    spec_number, spec_required, spec_required_int, spec_required_number, spec_text_content,
    StopView,
};
use crate::read_config::view::{NamedAlarmFilterView, PlayerConfigView};
use crate::read_config::xml::XmlNode;
use vstd::prelude::*;

verus! {

/// A reading that ends with a question asks for something that the list of
/// answers does not hold.
pub open spec fn asks_anew<T>(r: Result<T, StopView>, nums: Seq<ReadingView>) -> bool {
    r matches Err(StopView::Ask(q)) ==> first_reading(nums, q.kind, q.text) is None
}

/// The reading does not end with a question.
pub open spec fn settled<T>(r: Result<T, StopView>) -> bool {
    !(r matches Err(StopView::Ask(_)))
}

/// The answer that a list holds to a question is the answer that it holds
/// when more answers have been added.
pub proof fn lemma_first_reading_stays(
    nums: Seq<ReadingView>,
    more: Seq<ReadingView>,
    kind: NumberKind,
    text: Seq<char>,
)
    ensures
        first_reading(nums, kind, text) is Some ==> first_reading(nums + more, kind, text)
            == first_reading(nums, kind, text),
    decreases nums.len(),
{
    if nums.len() > 0 {
        assert((nums + more)[0] == nums[0]);
        assert((nums + more).skip(1) =~= nums.skip(1) + more);
        if !(nums[0].kind == kind && nums[0].text == text) {
            lemma_first_reading_stays(nums.skip(1), more, kind, text);
        }
    }
}

/// The text inside an element is read without a question.
proof fn lemma_content(children: Seq<XmlNode>, n: nat)
    ensures
        settled(content_of(children, n)),
    decreases n,
{
    if n > 0 && n <= children.len() {
        lemma_content(children, (n - 1) as nat);
    }
}

/// The tags of a `tags` element are read without a question.
proof fn lemma_tags(children: Seq<XmlNode>, n: nat)
    ensures
        settled(spec_tags(children, n)),
    decreases n,
{
    if n > 0 && n <= children.len() {
        lemma_tags(children, (n - 1) as nat);
        lemma_content(children[n - 1].children@, children[n - 1].children@.len());
    }
}

/// The filters of an `alarms` element are read without a question.
proof fn lemma_alarms(children: Seq<XmlNode>, n: nat, start: Seq<NamedAlarmFilterView>)
    ensures
        settled(spec_alarms(children, n, start)),
    decreases n,
{
    if n > 0 && n <= children.len() {
        lemma_alarms(children, (n - 1) as nat, start);
        lemma_content(children[n - 1].children@, children[n - 1].children@.len());
    }
}

/// What does not depend on the answers is read without a question.
proof fn lemma_plain(node: &XmlNode)
    ensures
        settled(spec_text_content(node)),
        settled(spec_check(node)),
        settled(spec_count(node)),
        forall|name: Seq<char>| settled(#[trigger] spec_required(node, name)),
        forall|name: Seq<char>| settled(#[trigger] spec_bool(node, name)),
        forall|name: Seq<char>, min: int, max: int|
            settled(#[trigger] spec_int(node, name, min, max)),
        forall|name: Seq<char>, min: int, max: int|
            settled(#[trigger] spec_required_int(node, name, min, max)),
{
    lemma_content(node.children@, node.children@.len());
}

proof fn lemma_number_of(
    node: &XmlNode,
    name: Seq<char>,
    kind: NumberKind,
    text: Seq<char>,
    nums: Seq<ReadingView>,
    more: Seq<ReadingView>,
)
    ensures
        asks_anew(number_of(node, name, kind, text, nums), nums),
        settled(number_of(node, name, kind, text, nums)) ==> number_of(
            node,
            name,
            kind,
            text,
            nums + more,
        ) == number_of(node, name, kind, text, nums),
{
    lemma_first_reading_stays(nums, more, kind, text);
}

proof fn lemma_number(
    node: &XmlNode,
    name: Seq<char>,
    kind: NumberKind,
    nums: Seq<ReadingView>,
    more: Seq<ReadingView>,
)
    ensures
        asks_anew(spec_number(node, name, kind, nums), nums),
        settled(spec_number(node, name, kind, nums)) ==> spec_number(node, name, kind, nums + more)
            == spec_number(node, name, kind, nums),
        asks_anew(spec_required_number(node, name, kind, nums), nums),
        settled(spec_required_number(node, name, kind, nums)) ==> spec_required_number(
            node,
            name,
            kind,
            nums + more,
        ) == spec_required_number(node, name, kind, nums),
{
    match node.spec_attribute(name) {
        Some(text) => {
            lemma_number_of(node, name, kind, text, nums, more);
        },
        None => {},
    }
}

proof fn lemma_duration(text: Seq<char>, nums: Seq<ReadingView>, more: Seq<ReadingView>)
    ensures
        asks_anew(spec_duration(text, nums), nums),
        settled(spec_duration(text, nums)) ==> spec_duration(text, nums + more) == spec_duration(
            text,
            nums,
        ),
{
    lemma_first_reading_stays(nums, more, NumberKind::Millis, text);
}

proof fn lemma_timeout(node: &XmlNode, nums: Seq<ReadingView>, more: Seq<ReadingView>)
    ensures
        asks_anew(spec_timeout(node, nums), nums),
        settled(spec_timeout(node, nums)) ==> spec_timeout(node, nums + more) == spec_timeout(
            node,
            nums,
        ),
{
    match node.spec_attribute("timeout"@) {
        Some(text) => {
            lemma_duration(text, nums, more);
        },
        None => {},
    }
}

proof fn lemma_play(node: &XmlNode, nums: Seq<ReadingView>, more: Seq<ReadingView>)
    ensures
        asks_anew(spec_play(node, nums), nums),
        settled(spec_play(node, nums)) ==> spec_play(node, nums + more) == spec_play(node, nums),
{
    lemma_plain(node);
    lemma_timeout(node, nums, more);
}

proof fn lemma_wait(node: &XmlNode, nums: Seq<ReadingView>, more: Seq<ReadingView>)
    ensures
        asks_anew(spec_wait(node, nums), nums),
        settled(spec_wait(node, nums)) ==> spec_wait(node, nums + more) == spec_wait(node, nums),
{
    lemma_plain(node);
    match spec_text_content(node) {
        Ok(text) => {
            lemma_duration(text, nums, more);
        },
        Err(_) => {},
    }
}

proof fn lemma_condition_at(node: &XmlNode, nums: Seq<ReadingView>, more: Seq<ReadingView>, k: int)
    ensures
        asks_anew(condition_at(node, nums, k), nums),
        settled(condition_at(node, nums, k)) ==> condition_at(node, nums + more, k) == condition_at(
            node,
            nums,
            k,
        ),
{
    lemma_number(node, "eq"@, NumberKind::Double, nums, more);
    lemma_number(node, "ne"@, NumberKind::Double, nums, more);
    lemma_number(node, "lt"@, NumberKind::Double, nums, more);
    lemma_number(node, "le"@, NumberKind::Double, nums, more);
    lemma_number(node, "gt"@, NumberKind::Double, nums, more);
    lemma_number(node, "ge"@, NumberKind::Double, nums, more);
}

proof fn lemma_conditions(node: &XmlNode, nums: Seq<ReadingView>, more: Seq<ReadingView>, k: nat)
    ensures
        asks_anew(conditions_upto(node, nums, k), nums),
        settled(conditions_upto(node, nums, k)) ==> conditions_upto(node, nums + more, k)
            == conditions_upto(node, nums, k),
    decreases k,
{
    if k > 0 {
        lemma_conditions(node, nums, more, (k - 1) as nat);
        lemma_condition_at(node, nums, more, k - 1);
    }
}

proof fn lemma_wait_tag(node: &XmlNode, nums: Seq<ReadingView>, more: Seq<ReadingView>)
    ensures
        asks_anew(spec_wait_tag(node, nums), nums),
        settled(spec_wait_tag(node, nums)) ==> spec_wait_tag(node, nums + more) == spec_wait_tag(
            node,
            nums,
        ),
{
    lemma_plain(node);
    lemma_conditions(node, nums, more, 8);
}

proof fn lemma_children(
    children: Seq<XmlNode>,
    n: nat,
    nums: Seq<ReadingView>,
    more: Seq<ReadingView>,
)
    ensures
        asks_anew(spec_children(children, n, nums), nums),
        settled(spec_children(children, n, nums)) ==> spec_children(children, n, nums + more)
            == spec_children(children, n, nums),
    decreases children, n,
{
    if n > 0 && n <= children.len() {
        lemma_children(children, (n - 1) as nat, nums, more);
        lemma_plain(&children[n - 1]);
        lemma_action(&children[n - 1], nums, more);
    }
}

proof fn lemma_sequence(node: &XmlNode, nums: Seq<ReadingView>, more: Seq<ReadingView>)
    ensures
        asks_anew(spec_sequence(node, nums), nums),
        settled(spec_sequence(node, nums)) ==> spec_sequence(node, nums + more) == spec_sequence(
            node,
            nums,
        ),
        asks_anew(spec_parallel(node, nums), nums),
        settled(spec_parallel(node, nums)) ==> spec_parallel(node, nums + more) == spec_parallel(
            node,
            nums,
        ),
    decreases node, 1nat,
{
    lemma_children(node.children@, node.children@.len(), nums, more);
}

proof fn lemma_repeat(node: &XmlNode, nums: Seq<ReadingView>, more: Seq<ReadingView>)
    ensures
        asks_anew(spec_repeat(node, nums), nums),
        settled(spec_repeat(node, nums)) ==> spec_repeat(node, nums + more) == spec_repeat(
            node,
            nums,
        ),
    decreases node, 2nat,
{
    lemma_plain(node);
    lemma_sequence(node, nums, more);
}

proof fn lemma_action(node: &XmlNode, nums: Seq<ReadingView>, more: Seq<ReadingView>)
    ensures
        asks_anew(spec_action(node, nums), nums),
        settled(spec_action(node, nums)) ==> spec_action(node, nums + more) == spec_action(
            node,
            nums,
        ),
    decreases node, 3nat,
{
    lemma_plain(node);
    if node.name@ == "sequence"@ || node.name@ == "parallel"@ {
        lemma_sequence(node, nums, more);
    } else if node.name@ == "play"@ {
        lemma_play(node, nums, more);
    } else if node.name@ == "wait"@ {
        lemma_wait(node, nums, more);
    } else if node.name@ == "wait_tag"@ {
        lemma_wait_tag(node, nums, more);
    } else if node.name@ == "repeat"@ {
        lemma_repeat(node, nums, more);
    }
}

proof fn lemma_file_clip(node: &XmlNode, nums: Seq<ReadingView>, more: Seq<ReadingView>)
    ensures
        asks_anew(spec_file_clip(node, nums), nums),
        settled(spec_file_clip(node, nums)) ==> spec_file_clip(node, nums + more) == spec_file_clip(
            node,
            nums,
        ),
        asks_anew(spec_sine_clip(node, nums), nums),
        settled(spec_sine_clip(node, nums)) ==> spec_sine_clip(node, nums + more) == spec_sine_clip(
            node,
            nums,
        ),
{
    lemma_plain(node);
    lemma_number(node, "amplitude"@, NumberKind::Single, nums, more);
    lemma_number(node, "amplitude"@, NumberKind::Double, nums, more);
    lemma_number(node, "frequency"@, NumberKind::Double, nums, more);
    lemma_number(node, "duration"@, NumberKind::Millis, nums, more);
}

proof fn lemma_clips(
    children: Seq<XmlNode>,
    n: nat,
    nums: Seq<ReadingView>,
    more: Seq<ReadingView>,
)
    ensures
        asks_anew(spec_clips(children, n, nums), nums),
        settled(spec_clips(children, n, nums)) ==> spec_clips(children, n, nums + more)
            == spec_clips(children, n, nums),
    decreases n,
{
    if n > 0 && n <= children.len() {
        lemma_clips(children, (n - 1) as nat, nums, more);
        lemma_plain(&children[n - 1]);
        lemma_file_clip(&children[n - 1], nums, more);
    }
}

proof fn lemma_state(node: &XmlNode, nums: Seq<ReadingView>, more: Seq<ReadingView>)
    ensures
        asks_anew(spec_state(node, nums), nums),
        settled(spec_state(node, nums)) ==> spec_state(node, nums + more) == spec_state(node, nums),
{
    lemma_plain(node);
    lemma_children(node.children@, node.children@.len(), nums, more);
}

proof fn lemma_states(
    children: Seq<XmlNode>,
    n: nat,
    nums: Seq<ReadingView>,
    more: Seq<ReadingView>,
)
    ensures
        asks_anew(spec_states(children, n, nums), nums),
        settled(spec_states(children, n, nums)) ==> spec_states(children, n, nums + more)
            == spec_states(children, n, nums),
    decreases n,
{
    if n > 0 && n <= children.len() {
        lemma_states(children, (n - 1) as nat, nums, more);
        lemma_plain(&children[n - 1]);
        lemma_state(&children[n - 1], nums, more);
    }
}

proof fn lemma_state_machine(node: &XmlNode, nums: Seq<ReadingView>, more: Seq<ReadingView>)
    ensures
        asks_anew(spec_state_machine(node, nums), nums),
        settled(spec_state_machine(node, nums)) ==> spec_state_machine(node, nums + more)
            == spec_state_machine(node, nums),
{
    lemma_plain(node);
    lemma_states(node.children@, node.children@.len(), nums, more);
}

proof fn lemma_element(
    player: PlayerConfigView,
    node: &XmlNode,
    nums: Seq<ReadingView>,
    more: Seq<ReadingView>,
)
    ensures
        asks_anew(with_element(player, node, nums), nums),
        settled(with_element(player, node, nums)) ==> with_element(player, node, nums + more)
            == with_element(player, node, nums),
{
    reveal(with_element);
    lemma_plain(node);
    lemma_tags(node.children@, node.children@.len());
    lemma_alarms(node.children@, node.children@.len(), player.named_alarm_filters);
    lemma_clips(node.children@, node.children@.len(), nums, more);
    lemma_state_machine(node, nums, more);
}

proof fn lemma_root(
    children: Seq<XmlNode>,
    n: nat,
    nums: Seq<ReadingView>,
    more: Seq<ReadingView>,
)
    ensures
        asks_anew(spec_root(children, n, nums), nums),
        settled(spec_root(children, n, nums)) ==> spec_root(children, n, nums + more) == spec_root(
            children,
            n,
            nums,
        ),
    decreases n,
{
    if n > 0 && n <= children.len() {
        lemma_root(children, (n - 1) as nat, nums, more);
        lemma_plain(&children[n - 1]);
        match spec_root(children, (n - 1) as nat, nums) {
            Ok(before) => {
                lemma_element(before, &children[n - 1], nums, more);
            },
            Err(_) => {},
        }
    }
}

/// A reading that ends with a question asks for something that the list of
/// answers does not hold: answering the question is a step forward.
pub proof fn lemma_question_is_open(root: &XmlNode, nums: Seq<ReadingView>)
    ensures
        spec_document(root, nums) matches Err(StopView::Ask(q)) ==> first_reading(
            nums,
            q.kind,
            q.text,
        ) is None,
{
    lemma_root(root.children@, root.children@.len(), nums, Seq::empty());
}

/// A reading that ends with a configuration or with an error is final: with
/// more answers in the list it is the same.
pub proof fn lemma_answers_settle(root: &XmlNode, nums: Seq<ReadingView>, more: Seq<ReadingView>)
    requires
        !(spec_document(root, nums) matches Err(StopView::Ask(_))),
    ensures
        spec_document(root, nums + more) == spec_document(root, nums),
{
    lemma_root(root.children@, root.children@.len(), nums, more);
}

/// An action that has been read is final as well.
pub proof fn lemma_action_settles(node: &XmlNode, nums: Seq<ReadingView>, more: Seq<ReadingView>)
    requires
        !(spec_action(node, nums) matches Err(StopView::Ask(_))),
    ensures
        spec_action(node, nums + more) == spec_action(node, nums),
{
    lemma_action(node, nums, more);
}

} // verus!
