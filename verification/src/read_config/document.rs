//! Reading a whole configuration: the clips, the tags, the alarm filters,
//! the state machines and the playback device.
use crate::alarm_filter::parser::{parse_filter, spec_filter, FilterOutcome};
use crate::clip_player::SampleFormat;
use crate::name_set::texts;
use crate::read_config::{
    ActionType, AlarmFilterConfig, ClipType, NamedAlarmFilter, NamedClip, PlayerConfig, StateConfig,
    StateMachineConfig,
};
use crate::read_config::action_reader::{parse_children, spec_children};
use crate::read_config::error::{ConfigErrorKind, KindView, ReadError};
use crate::read_config::number::{NumberKind, Numbers, ReadingView};
use crate::read_config::reader::{
    check_element_ns, fail, fail_at, fail_text, number_attribute, optional_attribute,
    required_attribute, required_int, required_number, spec_check, spec_number, spec_required,
    spec_required_int, spec_required_number, spec_text_content, text_content, Stop, StopView,
};
use crate::read_config::view::{
    clip_views, filter_views, lemma_action_views, state_machine_views, state_views, ActionTypeView,
    AlarmFilterConfigView, ClipTypeView, NamedAlarmFilterView, NamedClipView, PlayerConfigView,
    StateConfigView, StateMachineConfigView,
};
use crate::read_config::xml::{trim, trimmed, NodeKind, XmlNode};
use crate::text::same_str;
use vstd::prelude::*;

verus! {

/// The bit pattern of the amplitude of a clip that names none: one.
pub open spec fn full_amplitude() -> u32 {
    0x3f80_0000
}

/// The clip of a `file` element: the audio file named by its text, under
/// the name of the attribute `id`, with the amplitude of the attribute
/// `amplitude`, or one.
pub open spec fn spec_file_clip(node: &XmlNode, nums: Seq<ReadingView>) -> Result<
    NamedClipView,
    StopView,
> {
    match spec_required(node, "id"@) {
        Err(e) => Err(e),
        Ok(id) => match spec_number(node, "amplitude"@, NumberKind::Single, nums) {
            Err(e) => Err(e),
            Ok(amplitude) => match spec_text_content(node) {
                Err(e) => Err(e),
                Ok(file_name) => Ok(
                    NamedClipView {
                        id,
                        clip: ClipTypeView::File {
                            file_name,
                            amplitude: match amplitude {
                                Some(v) => v as u32,
                                None => full_amplitude(),
                            },
                        },
                    },
                ),
            },
        },
    }
}

/// Reads a `file` element.
pub fn parse_file_clip(node: &XmlNode, numbers: &Numbers) -> (r: Result<NamedClip, Stop>)
    ensures
        match r {
            Ok(c) => spec_file_clip(node, numbers@) == Ok::<NamedClipView, StopView>(c@),
            Err(e) => spec_file_clip(node, numbers@) == Err::<NamedClipView, StopView>(e@),
        },
{
    let id = match required_attribute(node, "id") {
        Err(e) => {
            return Err(e);
        },
        Ok(id) => id,
    };
    let amplitude: u32 = match number_attribute(node, "amplitude", NumberKind::Single, numbers) {
        Err(e) => {
            return Err(e);
        },
        Ok(Some(v)) => v as u32,
        Ok(None) => 0x3f80_0000,
    };
    match text_content(node) {
        Err(e) => Err(e),
        Ok(file_name) => Ok(NamedClip { id, clip: ClipType::File { file_name, amplitude } }),
    }
}

/// The clip of a `sine` element: a tone with the amplitude, the frequency
/// and the duration of the attributes of these names, under the name of the
/// attribute `id`.
pub open spec fn spec_sine_clip(node: &XmlNode, nums: Seq<ReadingView>) -> Result<
    NamedClipView,
    StopView,
> {
    match spec_required(node, "id"@) {
        Err(e) => Err(e),
        Ok(id) => match spec_required_number(node, "amplitude"@, NumberKind::Double, nums) {
            Err(e) => Err(e),
            Ok(amplitude) => match spec_required_number(
                node,
                "frequency"@,
                NumberKind::Double,
                nums,
            ) {
                Err(e) => Err(e),
                Ok(frequency) => match spec_required_number(
                    node,
                    "duration"@,
                    NumberKind::Millis,
                    nums,
                ) {
                    Err(e) => Err(e),
                    Ok(duration) => Ok(
                        NamedClipView {
                            id,
                            clip: ClipTypeView::Sine { amplitude, frequency, duration },
                        },
                    ),
                },
            },
        },
    }
}

/// Reads a `sine` element.
pub fn parse_sine_clip(node: &XmlNode, numbers: &Numbers) -> (r: Result<NamedClip, Stop>)
    ensures
        match r {
            Ok(c) => spec_sine_clip(node, numbers@) == Ok::<NamedClipView, StopView>(c@),
            Err(e) => spec_sine_clip(node, numbers@) == Err::<NamedClipView, StopView>(e@),
        },
{
    let id = match required_attribute(node, "id") {
        Err(e) => {
            return Err(e);
        },
        Ok(id) => id,
    };
    let amplitude = match required_number(node, "amplitude", NumberKind::Double, numbers) {
        Err(e) => {
            return Err(e);
        },
        Ok(v) => v,
    };
    let frequency = match required_number(node, "frequency", NumberKind::Double, numbers) {
        Err(e) => {
            return Err(e);
        },
        Ok(v) => v,
    };
    match required_number(node, "duration", NumberKind::Millis, numbers) {
        Err(e) => Err(e),
        Ok(duration) => Ok(
            NamedClip { id, clip: ClipType::Sine { amplitude, frequency, duration } },
        ),
    }
}

/// The place of the first clip of a list that has the given name.
pub open spec fn clip_position(clips: Seq<NamedClipView>, id: Seq<char>) -> Option<int>
    decreases clips.len(),
{
    if clips.len() == 0 {
        None
    } else if clips[0].id == id {
        Some(0)
    } else {
        match clip_position(clips.skip(1), id) {
            Some(i) => Some(i + 1),
            None => None,
        }
    }
}

/// A list of clips with one more clip: it takes the place of the clip of
/// the same name, or comes last.
pub open spec fn with_clip(clips: Seq<NamedClipView>, clip: NamedClipView) -> Seq<NamedClipView> {
    match clip_position(clips, clip.id) {
        Some(i) => clips.update(i, clip),
        None => clips.push(clip),
    }
}

/// The place that `clip_position` gives lies in the list.
pub proof fn lemma_clip_position(clips: Seq<NamedClipView>, id: Seq<char>)
    ensures
        clip_position(clips, id) matches Some(i) ==> 0 <= i < clips.len(),
    decreases clips.len(),
{
    if clips.len() > 0 && clips[0].id != id {
        lemma_clip_position(clips.skip(1), id);
    }
}

fn insert_clip(clips: &mut Vec<NamedClip>, clip: NamedClip)
    ensures
        clip_views(final(clips)@) == with_clip(clip_views(old(clips)@), clip@),
{
    let ghost before = clip_views(clips@);
    let mut i: usize = 0;
    proof {
        assert(before.skip(0) =~= before);
    }
    while i < clips.len()
        invariant
            i <= clips.len(),
            *clips == *old(clips),
            before == clip_views(clips@),
            match clip_position(before.skip(i as int), clip@.id) {
                Some(k) => clip_position(before, clip@.id) == Some(k + i),
                None => clip_position(before, clip@.id) is None,
            },
        decreases clips.len() - i,
    {
        proof {
            assert(before.skip(i as int)[0] == clips@[i as int]@);
            assert(before.skip(i as int).skip(1) =~= before.skip(i + 1));
        }
        if same_str(clips[i].id.as_str(), clip.id.as_str()) {
            clips.set(i, clip);
            proof {
                assert(clip_views(clips@) =~= before.update(i as int, clip@));
            }
            return ;
        }
        i += 1;
    }
    clips.push(clip);
    proof {
        assert(clip_views(clips@) =~= before.push(clip@));
    }
}

/// The clips of the first `n` children of a `clips` element: one for each
/// `file` and each `sine` element. A later clip takes the place of an
/// earlier one of the same name.
pub open spec fn spec_clips(children: Seq<XmlNode>, n: nat, nums: Seq<ReadingView>) -> Result<
    Seq<NamedClipView>,
    StopView,
>
    decreases n,
{
    if n == 0 || n > children.len() {
        Ok(Seq::empty())
    } else {
        match spec_clips(children, (n - 1) as nat, nums) {
            Err(e) => Err(e),
            Ok(before) => {
                let child = &children[n - 1];
                match spec_check(child) {
                    Err(e) => Err(e),
                    Ok(false) => Ok(before),
                    Ok(true) => if child.name@ == "file"@ {
                        match spec_file_clip(child, nums) {
                            Err(e) => Err(e),
                            Ok(c) => Ok(with_clip(before, c)),
                        }
                    } else if child.name@ == "sine"@ {
                        match spec_sine_clip(child, nums) {
                            Err(e) => Err(e),
                            Ok(c) => Ok(with_clip(before, c)),
                        }
                    } else {
                        Err(fail_at(child, KindView::UnexpectedElement))
                    },
                }
            },
        }
    }
}

proof fn lemma_clips_stop(children: Seq<XmlNode>, n: nat, nums: Seq<ReadingView>)
    requires
        n <= children.len(),
        spec_clips(children, n, nums) is Err,
    ensures
        spec_clips(children, children.len(), nums) == spec_clips(children, n, nums),
    decreases children.len() - n,
{
    if n < children.len() {
        assert(spec_clips(children, n + 1, nums) == spec_clips(children, n, nums));
        lemma_clips_stop(children, n + 1, nums);
    }
}

/// Reads the clips inside a `clips` element.
pub fn parse_clips(parent: &XmlNode, numbers: &Numbers) -> (r: Result<Vec<NamedClip>, Stop>)
    ensures
        match r {
            Ok(c) => spec_clips(parent.children@, parent.children@.len(), numbers@) == Ok::<
                Seq<NamedClipView>,
                StopView,
            >(clip_views(c@)),
            Err(e) => spec_clips(parent.children@, parent.children@.len(), numbers@) == Err::<
                Seq<NamedClipView>,
                StopView,
            >(e@),
        },
{
    let mut clips: Vec<NamedClip> = Vec::new();
    let mut i: usize = 0;
    proof {
        assert(clip_views(clips@) =~= Seq::empty());
    }
    while i < parent.children.len()
        invariant
            i <= parent.children.len(),
            spec_clips(parent.children@, i as nat, numbers@) == Ok::<
                Seq<NamedClipView>,
                StopView,
            >(clip_views(clips@)),
        decreases parent.children.len() - i,
    {
        let node = &parent.children[i];
        let found = match check_element_ns(node) {
            Err(e) => Err(e),
            Ok(false) => Ok(None),
            Ok(true) => {
                if node.is_named("file") {
                    match parse_file_clip(node, numbers) {
                        Err(e) => Err(e),
                        Ok(c) => Ok(Some(c)),
                    }
                } else if node.is_named("sine") {
                    match parse_sine_clip(node, numbers) {
                        Err(e) => Err(e),
                        Ok(c) => Ok(Some(c)),
                    }
                } else {
                    Err(fail(node, ConfigErrorKind::UnexpectedElement))
                }
            },
        };
        match found {
            Err(e) => {
                proof {
                    lemma_clips_stop(parent.children@, (i + 1) as nat, numbers@);
                }
                return Err(e);
            },
            Ok(None) => {},
            Ok(Some(c)) => {
                insert_clip(&mut clips, c);
            },
        }
        i += 1;
    }
    Ok(clips)
}

/// The tags of the first `n` children of a `tags` element: the text of
/// each `tag` element.
pub open spec fn spec_tags(children: Seq<XmlNode>, n: nat) -> Result<Seq<Seq<char>>, StopView>
    decreases n,
{
    if n == 0 || n > children.len() {
        Ok(Seq::empty())
    } else {
        match spec_tags(children, (n - 1) as nat) {
            Err(e) => Err(e),
            Ok(before) => {
                let child = &children[n - 1];
                match spec_check(child) {
                    Err(e) => Err(e),
                    Ok(false) => Ok(before),
                    Ok(true) => if child.name@ == "tag"@ {
                        match spec_text_content(child) {
                            Err(e) => Err(e),
                            Ok(t) => Ok(before.push(t)),
                        }
                    } else {
                        Err(fail_at(child, KindView::UnexpectedElement))
                    },
                }
            },
        }
    }
}

proof fn lemma_tags_stop(children: Seq<XmlNode>, n: nat)
    requires
        n <= children.len(),
        spec_tags(children, n) is Err,
    ensures
        spec_tags(children, children.len()) == spec_tags(children, n),
    decreases children.len() - n,
{
    if n < children.len() {
        assert(spec_tags(children, n + 1) == spec_tags(children, n));
        lemma_tags_stop(children, n + 1);
    }
}

/// Reads the tags inside a `tags` element.
pub fn parse_tags(parent: &XmlNode) -> (r: Result<Vec<String>, Stop>)
    ensures
        match r {
            Ok(t) => spec_tags(parent.children@, parent.children@.len()) == Ok::<
                Seq<Seq<char>>,
                StopView,
            >(texts(t@)),
            Err(e) => spec_tags(parent.children@, parent.children@.len()) == Err::<
                Seq<Seq<char>>,
                StopView,
            >(e@),
        },
{
    let mut tags: Vec<String> = Vec::new();
    let mut i: usize = 0;
    proof {
        assert(texts(tags@) =~= Seq::empty());
    }
    while i < parent.children.len()
        invariant
            i <= parent.children.len(),
            spec_tags(parent.children@, i as nat) == Ok::<Seq<Seq<char>>, StopView>(texts(tags@)),
        decreases parent.children.len() - i,
    {
        let child = &parent.children[i];
        let found = match check_element_ns(child) {
            Err(e) => Err(e),
            Ok(false) => Ok(None),
            Ok(true) => {
                if child.is_named("tag") {
                    match text_content(child) {
                        Err(e) => Err(e),
                        Ok(t) => Ok(Some(t)),
                    }
                } else {
                    Err(fail(child, ConfigErrorKind::UnexpectedElement))
                }
            },
        };
        match found {
            Err(e) => {
                proof {
                    lemma_tags_stop(parent.children@, (i + 1) as nat);
                }
                return Err(e);
            },
            Ok(None) => {},
            Ok(Some(t)) => {
                let ghost before = texts(tags@);
                tags.push(t);
                proof {
                    assert(texts(tags@) =~= before.push(t@));
                }
            },
        }
        i += 1;
    }
    Ok(tags)
}

/// The node at which a filter that cannot be read is reported: the first
/// node inside the element, or the element if it is empty.
pub open spec fn filter_place(node: &XmlNode) -> &XmlNode {
    if node.children@.len() > 0 {
        &node.children@[0]
    } else {
        node
    }
}

/// The filter of a `filter` element: the filter that its text stands for,
/// without the white space around it, under the name of the attribute `id`,
/// with the tags of the attributes `tag_matching` and `tag_ignored`.
pub open spec fn spec_alarm_filter(node: &XmlNode) -> Result<NamedAlarmFilterView, StopView> {
    match spec_required(node, "id"@) {
        Err(e) => Err(e),
        Ok(id) => match spec_text_content(node) {
            Err(e) => Err(e),
            Ok(content) => match spec_filter(trimmed(content)) {
                FilterOutcome::Accepted { value } => Ok(
                    NamedAlarmFilterView {
                        id,
                        filter: AlarmFilterConfigView {
                            filter_predicate: value,
                            tag_matching: node.spec_attribute("tag_matching"@),
                            tag_ignored: node.spec_attribute("tag_ignored"@),
                        },
                    },
                ),
                FilterOutcome::Rejected { reason, .. } => Err(
                    fail_at(filter_place(node), KindView::ParseFilter(reason.message())),
                ),
            },
        },
    }
}

/// Reads a `filter` element.
pub fn parse_alarm_filter(node: &XmlNode) -> (r: Result<NamedAlarmFilter, Stop>)
    ensures
        match r {
            Ok(f) => spec_alarm_filter(node) == Ok::<NamedAlarmFilterView, StopView>(f@),
            Err(e) => spec_alarm_filter(node) == Err::<NamedAlarmFilterView, StopView>(e@),
        },
{
    let id = match required_attribute(node, "id") {
        Err(e) => {
            return Err(e);
        },
        Ok(id) => id,
    };
    let tag_matching = optional_attribute(node, "tag_matching");
    let tag_ignored = optional_attribute(node, "tag_ignored");
    let content = match text_content(node) {
        Err(e) => {
            return Err(e);
        },
        Ok(t) => t,
    };
    let filter_def = trim(content.as_str());
    match parse_filter(filter_def.as_str()) {
        Ok(op) => Ok(
            NamedAlarmFilter {
                id,
                filter: AlarmFilterConfig { filter_predicate: op, tag_matching, tag_ignored },
            },
        ),
        Err(e) => {
            let place = if node.children.len() > 0 {
                &node.children[0]
            } else {
                node
            };
            Err(fail(place, ConfigErrorKind::ParseFilter(e.to_string())))
        },
    }
}

/// The place of the first filter of a list that has the given name.
pub open spec fn filter_position(filters: Seq<NamedAlarmFilterView>, id: Seq<char>) -> Option<int>
    decreases filters.len(),
{
    if filters.len() == 0 {
        None
    } else if filters[0].id == id {
        Some(0)
    } else {
        match filter_position(filters.skip(1), id) {
            Some(i) => Some(i + 1),
            None => None,
        }
    }
}

/// A list of filters with one more filter: it takes the place of the
/// filter of the same name, or comes last.
pub open spec fn with_filter(filters: Seq<NamedAlarmFilterView>, filter: NamedAlarmFilterView) -> Seq<
    NamedAlarmFilterView,
> {
    match filter_position(filters, filter.id) {
        Some(i) => filters.update(i, filter),
        None => filters.push(filter),
    }
}

fn insert_filter(filters: &mut Vec<NamedAlarmFilter>, filter: NamedAlarmFilter)
    ensures
        filter_views(final(filters)@) == with_filter(filter_views(old(filters)@), filter@),
{
    let ghost before = filter_views(filters@);
    let mut i: usize = 0;
    proof {
        assert(before.skip(0) =~= before);
    }
    while i < filters.len()
        invariant
            i <= filters.len(),
            *filters == *old(filters),
            before == filter_views(filters@),
            match filter_position(before.skip(i as int), filter@.id) {
                Some(k) => filter_position(before, filter@.id) == Some(k + i),
                None => filter_position(before, filter@.id) is None,
            },
        decreases filters.len() - i,
    {
        proof {
            assert(before.skip(i as int)[0] == filters@[i as int]@);
            assert(before.skip(i as int).skip(1) =~= before.skip(i + 1));
        }
        if same_str(filters[i].id.as_str(), filter.id.as_str()) {
            filters.set(i, filter);
            proof {
                assert(filter_views(filters@) =~= before.update(i as int, filter@));
            }
            return ;
        }
        i += 1;
    }
    filters.push(filter);
    proof {
        assert(filter_views(filters@) =~= before.push(filter@));
    }
}

/// The filters after the first `n` children of an `alarms` element, where
/// `start` are the filters before it: one more for each `filter` element.
pub open spec fn spec_alarms(children: Seq<XmlNode>, n: nat, start: Seq<NamedAlarmFilterView>) -> Result<
    Seq<NamedAlarmFilterView>,
    StopView,
>
    decreases n,
{
    if n == 0 || n > children.len() {
        Ok(start)
    } else {
        match spec_alarms(children, (n - 1) as nat, start) {
            Err(e) => Err(e),
            Ok(before) => {
                let child = &children[n - 1];
                match spec_check(child) {
                    Err(e) => Err(e),
                    Ok(false) => Ok(before),
                    Ok(true) => if child.name@ == "filter"@ {
                        match spec_alarm_filter(child) {
                            Err(e) => Err(e),
                            Ok(f) => Ok(with_filter(before, f)),
                        }
                    } else {
                        Err(fail_at(child, KindView::UnexpectedElement))
                    },
                }
            },
        }
    }
}

proof fn lemma_alarms_stop(children: Seq<XmlNode>, n: nat, start: Seq<NamedAlarmFilterView>)
    requires
        n <= children.len(),
        spec_alarms(children, n, start) is Err,
    ensures
        spec_alarms(children, children.len(), start) == spec_alarms(children, n, start),
    decreases children.len() - n,
{
    if n < children.len() {
        assert(spec_alarms(children, n + 1, start) == spec_alarms(children, n, start));
        lemma_alarms_stop(children, n + 1, start);
    }
}

/// Reads the filters inside an `alarms` element and adds them to the
/// filters read before.
pub fn parse_alarms(parent: &XmlNode, named_filters: &mut Vec<NamedAlarmFilter>) -> (r: Result<
    (),
    Stop,
>)
    ensures
        match r {
            Ok(()) => spec_alarms(
                parent.children@,
                parent.children@.len(),
                filter_views(old(named_filters)@),
            ) == Ok::<Seq<NamedAlarmFilterView>, StopView>(filter_views(final(named_filters)@)),
            Err(e) => spec_alarms(
                parent.children@,
                parent.children@.len(),
                filter_views(old(named_filters)@),
            ) == Err::<Seq<NamedAlarmFilterView>, StopView>(e@),
        },
{
    let ghost start = filter_views(named_filters@);
    let mut i: usize = 0;
    while i < parent.children.len()
        invariant
            i <= parent.children.len(),
            start == filter_views(old(named_filters)@),
            spec_alarms(parent.children@, i as nat, start) == Ok::<
                Seq<NamedAlarmFilterView>,
                StopView,
            >(filter_views(named_filters@)),
        decreases parent.children.len() - i,
    {
        let child = &parent.children[i];
        let found = match check_element_ns(child) {
            Err(e) => Err(e),
            Ok(false) => Ok(None),
            Ok(true) => {
                if child.is_named("filter") {
                    match parse_alarm_filter(child) {
                        Err(e) => Err(e),
                        Ok(f) => Ok(Some(f)),
                    }
                } else {
                    Err(fail(child, ConfigErrorKind::UnexpectedElement))
                }
            },
        };
        match found {
            Err(e) => {
                proof {
                    lemma_alarms_stop(parent.children@, (i + 1) as nat, start);
                }
                return Err(e);
            },
            Ok(None) => {},
            Ok(Some(f)) => {
                insert_filter(named_filters, f);
            },
        }
        i += 1;
    }
    Ok(())
}

/// The state of a `state` element: the name of the attribute `id`, and the
/// action inside the element if there is one only, else all actions inside
/// it side by side.
pub open spec fn spec_state(node: &XmlNode, nums: Seq<ReadingView>) -> Result<
    StateConfigView,
    StopView,
> {
    match spec_required(node, "id"@) {
        Err(e) => Err(e),
        Ok(id) => match spec_children(node.children@, node.children@.len(), nums) {
            Err(e) => Err(e),
            Ok(actions) => Ok(
                StateConfigView {
                    id,
                    action: if actions.len() == 1 {
                        actions[0]
                    } else {
                        ActionTypeView::Parallel(actions)
                    },
                },
            ),
        },
    }
}

/// Reads a `state` element.
pub fn parse_state(parent: &XmlNode, numbers: &Numbers) -> (r: Result<StateConfig, Stop>)
    ensures
        match r {
            Ok(s) => spec_state(parent, numbers@) == Ok::<StateConfigView, StopView>(s@),
            Err(e) => spec_state(parent, numbers@) == Err::<StateConfigView, StopView>(e@),
        },
{
    let id = match required_attribute(parent, "id") {
        Err(e) => {
            return Err(e);
        },
        Ok(id) => id,
    };
    let mut actions = match parse_children(&parent.children, numbers) {
        Err(e) => {
            return Err(e);
        },
        Ok(a) => a,
    };
    proof {
        lemma_action_views(actions@);
    }
    let action = if actions.len() == 1 {
        actions.pop().unwrap()
    } else {
        ActionType::Parallel(actions)
    };
    Ok(StateConfig { id, action })
}

/// The states of the first `n` children of a `state_machine` element: one
/// for each `state` element.
pub open spec fn spec_states(children: Seq<XmlNode>, n: nat, nums: Seq<ReadingView>) -> Result<
    Seq<StateConfigView>,
    StopView,
>
    decreases n,
{
    if n == 0 || n > children.len() {
        Ok(Seq::empty())
    } else {
        match spec_states(children, (n - 1) as nat, nums) {
            Err(e) => Err(e),
            Ok(before) => {
                let child = &children[n - 1];
                match spec_check(child) {
                    Err(e) => Err(e),
                    Ok(false) => Ok(before),
                    Ok(true) => if child.name@ == "state"@ {
                        match spec_state(child, nums) {
                            Err(e) => Err(e),
                            Ok(s) => Ok(before.push(s)),
                        }
                    } else {
                        Err(fail_at(child, KindView::UnexpectedElement))
                    },
                }
            },
        }
    }
}

proof fn lemma_states_stop(children: Seq<XmlNode>, n: nat, nums: Seq<ReadingView>)
    requires
        n <= children.len(),
        spec_states(children, n, nums) is Err,
    ensures
        spec_states(children, children.len(), nums) == spec_states(children, n, nums),
    decreases children.len() - n,
{
    if n < children.len() {
        assert(spec_states(children, n + 1, nums) == spec_states(children, n, nums));
        lemma_states_stop(children, n + 1, nums);
    }
}

/// The state machine of a `state_machine` element: the name of the
/// attribute `id` and the states inside the element.
pub open spec fn spec_state_machine(node: &XmlNode, nums: Seq<ReadingView>) -> Result<
    StateMachineConfigView,
    StopView,
> {
    match spec_required(node, "id"@) {
        Err(e) => Err(e),
        Ok(id) => match spec_states(node.children@, node.children@.len(), nums) {
            Err(e) => Err(e),
            Ok(states) => Ok(StateMachineConfigView { id, states }),
        },
    }
}

/// Reads a `state_machine` element.
pub fn parse_state_machine(parent: &XmlNode, numbers: &Numbers) -> (r: Result<
    StateMachineConfig,
    Stop,
>)
    ensures
        match r {
            Ok(m) => spec_state_machine(parent, numbers@) == Ok::<
                StateMachineConfigView,
                StopView,
            >(m@),
            Err(e) => spec_state_machine(parent, numbers@) == Err::<
                StateMachineConfigView,
                StopView,
            >(e@),
        },
{
    let id = match required_attribute(parent, "id") {
        Err(e) => {
            return Err(e);
        },
        Ok(id) => id,
    };
    let mut states: Vec<StateConfig> = Vec::new();
    let mut i: usize = 0;
    proof {
        assert(state_views(states@) =~= Seq::empty());
    }
    while i < parent.children.len()
        invariant
            i <= parent.children.len(),
            spec_required(parent, "id"@) == Ok::<Seq<char>, StopView>(id@),
            spec_states(parent.children@, i as nat, numbers@) == Ok::<
                Seq<StateConfigView>,
                StopView,
            >(state_views(states@)),
        decreases parent.children.len() - i,
    {
        let child = &parent.children[i];
        let found = match check_element_ns(child) {
            Err(e) => Err(e),
            Ok(false) => Ok(None),
            Ok(true) => {
                if child.is_named("state") {
                    match parse_state(child, numbers) {
                        Err(e) => Err(e),
                        Ok(s) => Ok(Some(s)),
                    }
                } else {
                    Err(fail(child, ConfigErrorKind::UnexpectedElement))
                }
            },
        };
        match found {
            Err(e) => {
                proof {
                    lemma_states_stop(parent.children@, (i + 1) as nat, numbers@);
                }
                return Err(e);
            },
            Ok(None) => {},
            Ok(Some(s)) => {
                let ghost before = state_views(states@);
                states.push(s);
                proof {
                    assert(state_views(states@) =~= before.push(s@));
                }
            },
        }
        i += 1;
    }
    Ok(StateMachineConfig { id, states })
}

/// The sample format that a word stands for.
pub open spec fn spec_format(word: Seq<char>) -> Option<SampleFormat> {
    if word == "i16"@ {
        Some(SampleFormat::I16)
    } else if word == "u16"@ {
        Some(SampleFormat::U16)
    } else if word == "f32"@ {
        Some(SampleFormat::F32)
    } else {
        None
    }
}

/// The configuration after a `playback_device` element: the device named
/// by its text, with the sample rate and the number of channels of the
/// attributes `rate` and `channels`, and the sample format of the attribute
/// `format` if there is one.
pub open spec fn spec_playback_device(node: &XmlNode, player: PlayerConfigView) -> Result<
    PlayerConfigView,
    StopView,
> {
    match spec_required_int(node, "rate"@, 0, 0xffff_ffff) {
        Err(e) => Err(e),
        Ok(rate) => match spec_required_int(node, "channels"@, 0, 255) {
            Err(e) => Err(e),
            Ok(channels) => {
                let format = match node.spec_attribute("format"@) {
                    None => Ok(player.sample_format),
                    Some(word) => match spec_format(word) {
                        Some(f) => Ok(f),
                        None => Err(fail_text("Invalid sample format"@)),
                    },
                };
                match format {
                    Err(e) => Err(e),
                    Ok(sample_format) => match spec_text_content(node) {
                        Err(e) => Err(e),
                        Ok(device) => Ok(
                            PlayerConfigView {
                                rate: rate as u32,
                                channels: channels as u8,
                                sample_format,
                                playback_device: device,
                                ..player
                            },
                        ),
                    },
                }
            },
        },
    }
}

/// Reads a `playback_device` element into the configuration. After an
/// error the configuration is of no use.
pub fn parse_playback_device(node: &XmlNode, player: &mut PlayerConfig) -> (r: Result<(), Stop>)
    ensures
        match r {
            Ok(()) => spec_playback_device(node, old(player)@) == Ok::<
                PlayerConfigView,
                StopView,
            >(final(player)@),
            Err(e) => spec_playback_device(node, old(player)@) == Err::<
                PlayerConfigView,
                StopView,
            >(e@),
        },
{
    let rate = match required_int(node, "rate", 0, 0xffff_ffff) {
        Err(e) => {
            return Err(e);
        },
        Ok(v) => v as u32,
    };
    let channels = match required_int(node, "channels", 0, 255) {
        Err(e) => {
            return Err(e);
        },
        Ok(v) => v as u8,
    };
    let format = match node.attribute("format") {
        None => player.sample_format,
        Some(word) => {
            if same_str(word.as_str(), "i16") {
                SampleFormat::I16
            } else if same_str(word.as_str(), "u16") {
                SampleFormat::U16
            } else if same_str(word.as_str(), "f32") {
                SampleFormat::F32
            } else {
                return Err(Stop::Fail(ReadError::Message("Invalid sample format".to_owned())));
            }
        },
    };
    match text_content(node) {
        Err(e) => Err(e),
        Ok(device) => {
            player.rate = rate;
            player.channels = channels;
            player.sample_format = format;
            player.playback_device = device;
            Ok(())
        },
    }
}

/// The configuration before anything has been read.
pub open spec fn first_config() -> PlayerConfigView {
    PlayerConfigView {
        bind: "/tmp/siemens/automation/HmiRunTime"@,
        playback_device: Seq::empty(),
        rate: 44100,
        channels: 2,
        sample_format: SampleFormat::I16,
        clip_root: Seq::empty(),
        clips: Seq::empty(),
        tags: Seq::empty(),
        named_alarm_filters: Seq::empty(),
        state_machines: Seq::empty(),
        volume_config: Seq::empty(),
    }
}

/// The configuration after one more element of the root has been read.
#[verifier::opaque]
pub open spec fn with_element(player: PlayerConfigView, node: &XmlNode, nums: Seq<ReadingView>) -> Result<
    PlayerConfigView,
    StopView,
> {
    if node.name@ == "bind"@ {
        match spec_text_content(node) {
            Err(e) => Err(e),
            Ok(bind) => Ok(PlayerConfigView { bind, ..player }),
        }
    } else if node.name@ == "playback_device"@ {
        spec_playback_device(node, player)
    } else if node.name@ == "clips"@ {
        match spec_required(node, "path"@) {
            Err(e) => Err(e),
            Ok(clip_root) => match spec_clips(node.children@, node.children@.len(), nums) {
                Err(e) => Err(e),
                Ok(clips) => Ok(PlayerConfigView { clip_root, clips, ..player }),
            },
        }
    } else if node.name@ == "tags"@ {
        match spec_tags(node.children@, node.children@.len()) {
            Err(e) => Err(e),
            Ok(tags) => Ok(PlayerConfigView { tags, ..player }),
        }
    } else if node.name@ == "alarms"@ {
        match spec_alarms(node.children@, node.children@.len(), player.named_alarm_filters) {
            Err(e) => Err(e),
            Ok(named_alarm_filters) => Ok(PlayerConfigView { named_alarm_filters, ..player }),
        }
    } else if node.name@ == "state_machine"@ {
        match spec_state_machine(node, nums) {
            Err(e) => Err(e),
            Ok(m) => Ok(
                PlayerConfigView { state_machines: player.state_machines.push(m), ..player },
            ),
        }
    } else {
        Err(fail_at(node, KindView::UnexpectedElement))
    }
}

/// The configuration after the first `n` children of the root.
pub open spec fn spec_root(children: Seq<XmlNode>, n: nat, nums: Seq<ReadingView>) -> Result<
    PlayerConfigView,
    StopView,
>
    decreases n,
{
    if n == 0 || n > children.len() {
        Ok(first_config())
    } else {
        match spec_root(children, (n - 1) as nat, nums) {
            Err(e) => Err(e),
            Ok(before) => {
                let child = &children[n - 1];
                match spec_check(child) {
                    Err(e) => Err(e),
                    Ok(false) => Ok(before),
                    Ok(true) => with_element(before, child, nums),
                }
            },
        }
    }
}

proof fn lemma_root_stop(children: Seq<XmlNode>, n: nat, nums: Seq<ReadingView>)
    requires
        n <= children.len(),
        spec_root(children, n, nums) is Err,
    ensures
        spec_root(children, children.len(), nums) == spec_root(children, n, nums),
    decreases children.len() - n,
{
    if n < children.len() {
        assert(spec_root(children, n + 1, nums) == spec_root(children, n, nums));
        lemma_root_stop(children, n + 1, nums);
    }
}

/// The message for a root that is not the element `audioplayer`.
pub open spec fn root_message() -> Seq<char> {
    "The root node must be 'audioplayer'"@
}

/// The configuration that a tree stands for, where `nums` tells how the
/// numbers with a fraction and the durations in it are read: what its
/// elements give, one after the other, or the first error, or the first
/// question that `nums` does not answer.
pub open spec fn spec_document(root: &XmlNode, nums: Seq<ReadingView>) -> Result<
    PlayerConfigView,
    StopView,
> {
    if root.kind == NodeKind::Element && root.in_namespace() && root.name@ == "audioplayer"@ {
        spec_root(root.children@, root.children@.len(), nums)
    } else {
        Err(fail_text(root_message()))
    }
}

/// Reads one element of the root into the configuration. After an error
/// the configuration is of no use.
fn read_element(player: &mut PlayerConfig, node: &XmlNode, numbers: &Numbers) -> (r: Result<
    (),
    Stop,
>)
    ensures
        match r {
            Ok(()) => with_element(old(player)@, node, numbers@) == Ok::<
                PlayerConfigView,
                StopView,
            >(final(player)@),
            Err(e) => with_element(old(player)@, node, numbers@) == Err::<
                PlayerConfigView,
                StopView,
            >(e@),
        },
{
    reveal(with_element);
    if node.is_named("bind") {
        match text_content(node) {
            Err(e) => Err(e),
            Ok(bind) => {
                player.bind = bind;
                Ok(())
            },
        }
    } else if node.is_named("playback_device") {
        parse_playback_device(node, player)
    } else if node.is_named("clips") {
        let clip_root = match required_attribute(node, "path") {
            Err(e) => {
                return Err(e);
            },
            Ok(p) => p,
        };
        match parse_clips(node, numbers) {
            Err(e) => Err(e),
            Ok(clips) => {
                player.clip_root = clip_root;
                player.clips = clips;
                Ok(())
            },
        }
    } else if node.is_named("tags") {
        match parse_tags(node) {
            Err(e) => Err(e),
            Ok(tags) => {
                player.tags = tags;
                Ok(())
            },
        }
    } else if node.is_named("alarms") {
        parse_alarms(node, &mut player.named_alarm_filters)
    } else if node.is_named("state_machine") {
        match parse_state_machine(node, numbers) {
            Err(e) => Err(e),
            Ok(m) => {
                let ghost before = state_machine_views(player.state_machines@);
                player.state_machines.push(m);
                proof {
                    assert(state_machine_views(player.state_machines@) =~= before.push(m@));
                }
                Ok(())
            },
        }
    } else {
        Err(fail(node, ConfigErrorKind::UnexpectedElement))
    }
}

/// Reads a configuration from its tree. `numbers` tells how the numbers
/// with a fraction and the durations are read; where it has no answer, the
/// reading ends with the question.
pub fn read_document(root: &XmlNode, numbers: &Numbers) -> (r: Result<PlayerConfig, Stop>)
    ensures
        match r {
            Ok(c) => spec_document(root, numbers@) == Ok::<PlayerConfigView, StopView>(c@),
            Err(e) => spec_document(root, numbers@) == Err::<PlayerConfigView, StopView>(e@),
        },
{
    let is_root = match root.kind {
        NodeKind::Element => root.is_in_namespace() && root.is_named("audioplayer"),
        _ => false,
    };
    if !is_root {
        return Err(
            Stop::Fail(ReadError::Message("The root node must be 'audioplayer'".to_owned())),
        );
    }
    let mut player = PlayerConfig {
        bind: "/tmp/siemens/automation/HmiRunTime".to_owned(),
        playback_device: String::new(),
        rate: 44100,
        channels: 2,
        sample_format: SampleFormat::I16,
        clip_root: String::new(),
        clips: Vec::new(),
        tags: Vec::new(),
        named_alarm_filters: Vec::new(),
        state_machines: Vec::new(),
        volume_config: Vec::new(),
    };
    proof {
        assert(player@.clips =~= Seq::empty());
        assert(player@.tags =~= Seq::empty());
        assert(player@.named_alarm_filters =~= Seq::empty());
        assert(player@.state_machines =~= Seq::empty());
        assert(player@.volume_config =~= Seq::empty());
        assert(player@.playback_device =~= Seq::empty());
        assert(player@.clip_root =~= Seq::empty());
    }
    let mut i: usize = 0;
    while i < root.children.len()
        invariant
            i <= root.children.len(),
            root.kind == NodeKind::Element && root.in_namespace() && root.name@ == "audioplayer"@,
            spec_root(root.children@, i as nat, numbers@) == Ok::<PlayerConfigView, StopView>(
                player@,
            ),
        decreases root.children.len() - i,
    {
        let node = &root.children[i];
        match check_element_ns(node) {
            Err(e) => {
                proof {
                    lemma_root_stop(root.children@, (i + 1) as nat, numbers@);
                }
                return Err(e);
            },
            Ok(false) => {},
            Ok(true) => match read_element(&mut player, node, numbers) {
                Err(e) => {
                    proof {
                        lemma_root_stop(root.children@, (i + 1) as nat, numbers@);
                    }
                    return Err(e);
                },
                Ok(()) => {},
            },
        }
        i += 1;
    }
    Ok(player)
}

} // verus!
