//! The alarm dispatcher: for every configured filter the alarms that match
//! it, those among them that are ignored, and the count that waiters see.
//!
//! The count of a filter is the number of matching alarms that are not
//! ignored. Every time the dispatcher reports a count, the version of the
//! filter moves on; a waiter remembers the version that it saw when it was
//! armed and is ready when the filter has another one.
use crate::actions::alarm_dispatcher::Error;
use crate::alarm_filter::{BoolExpr, BoolOp};
use crate::app_config::tag_context::{next_version, TagContext, TagContextView};
use crate::id_set::IdSet;
use crate::open_pipe::alarm_data::AlarmData;
use crate::text::{decimal_text, same_str, u64_to_string};
use vstd::prelude::*;

verus! {

/// The state in which the runtime reports an alarm that is to be passed
/// over.
pub const STATE_PASSED_OVER: i32 = 128;

/// A filter with its alarms, as a mathematical value.
pub struct FilterView {
    pub name: Seq<char>,
    pub filter: BoolExpr,
    /// The alarms, by id, whose last report satisfied the filter.
    pub matching: Set<i32>,
    /// The alarms, by id, that are left out of the count.
    pub ignore: Set<i32>,
    /// Whether an alarm stays ignored when it no longer matches.
    pub ignore_permanent: bool,
    /// The tag that is told the count.
    pub tag_matching: Option<Seq<char>>,
    /// The tag that is told the number of ignored alarms.
    pub tag_ignored: Option<Seq<char>>,
    /// Moves on with every report of the count.
    pub version: u64,
    /// The count that was reported last.
    pub reported: u32,
}

/// A number as a count of 32 bits: itself, or the largest count if it is
/// larger.
pub open spec fn as_count(n: nat) -> u32 {
    if n > u32::MAX {
        u32::MAX
    } else {
        n as u32
    }
}

impl FilterView {
    /// The number of matching alarms that are not ignored.
    pub open spec fn visible(self) -> nat {
        self.matching.difference(self.ignore).len()
    }

    /// The count of the filter.
    pub open spec fn count(self) -> u32 {
        as_count(self.visible())
    }

    /// The filter after its count is reported to the waiters.
    pub open spec fn announced(self) -> FilterView {
        FilterView { version: next_version(self.version), reported: self.count(), ..self }
    }

    /// The filter after the report of an alarm. A report in the passed-over
    /// state changes nothing. An alarm that satisfies the filter is matching
    /// from now on. One that does not is no longer matching and, unless the
    /// alarms are ignored for good, no longer ignored. The count is reported
    /// when the set of matching alarms has changed.
    pub open spec fn notified(self, alarm: &AlarmData) -> FilterView {
        if alarm.state == STATE_PASSED_OVER {
            self
        } else if self.filter.matches(alarm) {
            if self.matching.contains(alarm.id) {
                self
            } else {
                (FilterView { matching: self.matching.insert(alarm.id), ..self }).announced()
            }
        } else {
            let ignore = if self.ignore_permanent {
                self.ignore
            } else {
                self.ignore.remove(alarm.id)
            };
            if self.matching.contains(alarm.id) {
                (FilterView { matching: self.matching.remove(alarm.id), ignore, ..self }).announced()
            } else {
                FilterView { ignore, ..self }
            }
        }
    }

    /// Whether the report of an alarm makes the filter report its count.
    pub open spec fn announces(self, alarm: &AlarmData) -> bool {
        alarm.state != STATE_PASSED_OVER && (self.filter.matches(alarm) != self.matching.contains(
            alarm.id,
        ))
    }

    /// The filter after the alarms that match now are set to be ignored.
    pub open spec fn ignoring(self, permanent: bool) -> FilterView {
        (FilterView { ignore: self.matching, ignore_permanent: permanent, ..self }).announced()
    }

    /// The filter after no alarm is ignored any more.
    pub open spec fn restored(self) -> FilterView {
        (FilterView { ignore: Set::empty(), ..self }).announced()
    }

    /// The tags after the filter has told them its numbers: the tag of the
    /// count, if there is one, gets the number of matching alarms that are
    /// not ignored, and the tag of the ignored alarms their number.
    pub open spec fn told(self, tags: TagContextView) -> TagContextView {
        let first = match self.tag_matching {
            Some(n) => tags.set(n, decimal_text(self.visible() as int)),
            None => tags,
        };
        match self.tag_ignored {
            Some(n) => first.set(n, decimal_text(self.ignore.len() as int)),
            None => first,
        }
    }

    /// The filter after a list of reports, one after the other.
    pub open spec fn notified_all(self, alarms: Seq<AlarmData>) -> FilterView
        decreases alarms.len(),
    {
        if alarms.len() == 0 {
            self
        } else {
            self.notified_all(alarms.drop_last()).notified(&alarms.last())
        }
    }
}

/// The last report of the alarm `id` that counts satisfies the filter: there
/// is a report of the alarm outside the passed-over state that satisfies the
/// filter, and no report of the alarm outside that state follows it.
pub open spec fn latest_matches(filter: BoolExpr, alarms: Seq<AlarmData>, id: i32) -> bool {
    exists|i: int|
        0 <= i < alarms.len() && (#[trigger] alarms[i]).id == id && alarms[i].state
            != STATE_PASSED_OVER && filter.matches(&alarms[i]) && forall|j: int|
            i < j < alarms.len() ==> !((#[trigger] alarms[j]).id == id && alarms[j].state
                != STATE_PASSED_OVER)
}

/// After any list of reports, a filter that started without alarms holds as
/// matching exactly the alarms whose last report that counts satisfies it;
/// no report changes the filter expression.
pub proof fn lemma_matching_is_latest(start: FilterView, alarms: Seq<AlarmData>, id: i32)
    requires
        start.matching == Set::<i32>::empty(),
    ensures
        start.notified_all(alarms).filter == start.filter,
        start.notified_all(alarms).matching.contains(id) <==> latest_matches(
            start.filter,
            alarms,
            id,
        ),
    decreases alarms.len(),
{
    if alarms.len() > 0 {
        let before = alarms.drop_last();
        let last = alarms.last();
        lemma_matching_is_latest(start, before, id);
        let mid = start.notified_all(before);
        let end = mid.notified(&last);
        assert(end == start.notified_all(alarms));
        let counts = last.id == id && last.state != STATE_PASSED_OVER;
        if counts {
            if start.filter.matches(&last) {
                assert(alarms[alarms.len() - 1] == last);
                assert(latest_matches(start.filter, alarms, id));
                assert(end.matching.contains(id));
            } else {
                assert(!end.matching.contains(id));
                if latest_matches(start.filter, alarms, id) {
                    let i = choose|i: int|
                        0 <= i < alarms.len() && (#[trigger] alarms[i]).id == id && alarms[i].state
                            != STATE_PASSED_OVER && start.filter.matches(&alarms[i]) && forall|
                            j: int,
                        |
                            i < j < alarms.len() ==> !((#[trigger] alarms[j]).id == id
                                && alarms[j].state != STATE_PASSED_OVER);
                    if i < alarms.len() - 1 {
                        assert(alarms[alarms.len() - 1].id == id);
                    }
                }
            }
        } else {
            assert(end.matching.contains(id) == mid.matching.contains(id));
            if latest_matches(start.filter, before, id) {
                let i = choose|i: int|
                    0 <= i < before.len() && (#[trigger] before[i]).id == id && before[i].state
                        != STATE_PASSED_OVER && start.filter.matches(&before[i]) && forall|j: int|
                        i < j < before.len() ==> !((#[trigger] before[j]).id == id
                            && before[j].state != STATE_PASSED_OVER);
                assert(alarms[i] == before[i]);
                assert forall|j: int| i < j < alarms.len() implies !((#[trigger] alarms[j]).id
                    == id && alarms[j].state != STATE_PASSED_OVER) by {
                    if j < before.len() {
                        assert(alarms[j] == before[j]);
                    }
                }
                assert(latest_matches(start.filter, alarms, id));
            }
            if latest_matches(start.filter, alarms, id) {
                let i = choose|i: int|
                    0 <= i < alarms.len() && (#[trigger] alarms[i]).id == id && alarms[i].state
                        != STATE_PASSED_OVER && start.filter.matches(&alarms[i]) && forall|j: int|
                        i < j < alarms.len() ==> !((#[trigger] alarms[j]).id == id
                            && alarms[j].state != STATE_PASSED_OVER);
                assert(i < before.len());
                assert(before[i] == alarms[i]);
                assert forall|j: int| i < j < before.len() implies !((#[trigger] before[j]).id
                    == id && before[j].state != STATE_PASSED_OVER) by {
                    assert(before[j] == alarms[j]);
                }
                assert(latest_matches(start.filter, before, id));
            }
        }
    }
}

/// While the ignored alarms are among the matching ones, the count is the
/// number of matching alarms less the number of ignored ones. This is so as
/// long as alarms are not ignored for good.
pub proof fn lemma_count_is_difference(f: FilterView)
    requires
        f.matching.finite(),
        f.ignore.subset_of(f.matching),
    ensures
        f.visible() == f.matching.len() - f.ignore.len(),
{
    vstd::set_lib::lemma_len_subset(f.ignore, f.matching);
    vstd::set_lib::lemma_len_difference(f.matching, f.ignore);
    lemma_difference_of_subset(f.matching, f.ignore);
}

/// The number of elements of a finite set outside a part of it.
pub proof fn lemma_difference_of_subset(a: Set<i32>, b: Set<i32>)
    requires
        a.finite(),
        b.subset_of(a),
    ensures
        a.difference(b).len() == a.len() - b.len(),
    decreases a.len(),
{
    if a.len() == 0 {
        assert(a =~= Set::<i32>::empty());
        assert(b =~= Set::<i32>::empty());
        assert(a.difference(b) =~= Set::<i32>::empty());
    } else {
        let x = a.choose();
        let a1 = a.remove(x);
        let b1 = b.remove(x);
        assert(b1.subset_of(a1));
        lemma_difference_of_subset(a1, b1);
        vstd::set_lib::lemma_len_subset(b, a);
        if b.contains(x) {
            assert(a.difference(b) =~= a1.difference(b1));
        } else {
            assert(b1 =~= b);
            assert(a.difference(b) =~= a1.difference(b1).insert(x));
        }
    }
}

/// Unless alarms are ignored for good, the ignored alarms stay among the
/// matching ones through every report, ignoring and restoring.
pub proof fn lemma_ignored_stay_matching(f: FilterView, alarm: &AlarmData)
    requires
        f.ignore.subset_of(f.matching),
        !f.ignore_permanent,
    ensures
        f.notified(alarm).ignore.subset_of(f.notified(alarm).matching),
        !f.notified(alarm).ignore_permanent,
        f.ignoring(false).ignore.subset_of(f.ignoring(false).matching),
        f.restored().ignore.subset_of(f.restored().matching),
{
}

/// What is done to a filter: an alarm is reported to it, its matching
/// alarms are set to be ignored, or the ignoring is ended.
pub enum FilterOp {
    Report(AlarmData),
    Ignore { permanent: bool },
    Restore,
}

impl FilterView {
    /// The filter after something is done to it.
    pub open spec fn after(self, op: FilterOp) -> FilterView {
        match op {
            FilterOp::Report(alarm) => self.notified(&alarm),
            FilterOp::Ignore { permanent } => self.ignoring(permanent),
            FilterOp::Restore => self.restored(),
        }
    }

    /// The filter after a list of things is done to it, one after the
    /// other.
    pub open spec fn after_all(self, ops: Seq<FilterOp>) -> FilterView
        decreases ops.len(),
    {
        if ops.len() == 0 {
            self
        } else {
            self.after_all(ops.drop_last()).after(ops.last())
        }
    }
}

/// The alarms that were reported among a list of things done, in their
/// order.
pub open spec fn reports(ops: Seq<FilterOp>) -> Seq<AlarmData>
    decreases ops.len(),
{
    if ops.len() == 0 {
        Seq::empty()
    } else {
        match ops.last() {
            FilterOp::Report(alarm) => reports(ops.drop_last()).push(alarm),
            _ => reports(ops.drop_last()),
        }
    }
}

/// No alarm was set to be ignored for good.
pub open spec fn never_for_good(ops: Seq<FilterOp>) -> bool {
    forall|i: int|
        0 <= i < ops.len() ==> !(#[trigger] ops[i] matches FilterOp::Ignore { permanent } && permanent)
}

/// Ignoring and restoring leave the matching alarms as they are: after
/// whatever was done to a filter, its matching alarms are those that the
/// reports alone would have given.
pub proof fn lemma_matching_by_reports(start: FilterView, ops: Seq<FilterOp>)
    ensures
        start.after_all(ops).matching == start.notified_all(reports(ops)).matching,
        start.after_all(ops).filter == start.filter,
        start.notified_all(reports(ops)).filter == start.filter,
    decreases ops.len(),
{
    if ops.len() > 0 {
        lemma_matching_by_reports(start, ops.drop_last());
        match ops.last() {
            FilterOp::Report(alarm) => {
                let r = reports(ops.drop_last());
                assert(reports(ops).drop_last() =~= r);
                assert(reports(ops).last() == alarm);
            },
            _ => {},
        }
    }
}

/// The count of a filter after any history. For a filter that started
/// without alarms, after any list of reports, ignorings and restorings
/// among which nothing was ignored for good: the matching alarms are those
/// whose last report that counts satisfies the filter, the ignored alarms
/// are among them, and the count is the number of matching alarms less the
/// number of ignored ones.
pub proof fn lemma_count_after_history(start: FilterView, ops: Seq<FilterOp>)
    requires
        start.matching == Set::<i32>::empty(),
        start.ignore == Set::<i32>::empty(),
        !start.ignore_permanent,
        never_for_good(ops),
    ensures
        forall|id: i32|
            #[trigger] start.after_all(ops).matching.contains(id) <==> latest_matches(
                start.filter,
                reports(ops),
                id,
            ),
        start.after_all(ops).matching.finite(),
        start.after_all(ops).ignore.subset_of(start.after_all(ops).matching),
        start.after_all(ops).visible() == start.after_all(ops).matching.len() - start.after_all(
            ops,
        ).ignore.len(),
        start.after_all(ops).count() == as_count(
            (start.after_all(ops).matching.len() - start.after_all(ops).ignore.len()) as nat,
        ),
{
    lemma_history_keeps(start, ops);
    lemma_matching_by_reports(start, ops);
    assert forall|id: i32| #[trigger]
        start.after_all(ops).matching.contains(id) <==> latest_matches(
            start.filter,
            reports(ops),
            id,
        ) by {
        lemma_matching_is_latest(start, reports(ops), id);
    }
    lemma_count_is_difference(start.after_all(ops));
}

/// Through a history in which nothing is ignored for good, the matching
/// alarms stay finite and the ignored alarms stay among them.
proof fn lemma_history_keeps(start: FilterView, ops: Seq<FilterOp>)
    requires
        start.matching == Set::<i32>::empty(),
        start.ignore == Set::<i32>::empty(),
        !start.ignore_permanent,
        never_for_good(ops),
    ensures
        start.after_all(ops).matching.finite(),
        start.after_all(ops).ignore.subset_of(start.after_all(ops).matching),
        !start.after_all(ops).ignore_permanent,
    decreases ops.len(),
{
    if ops.len() > 0 {
        let front = ops.drop_last();
        assert(never_for_good(front)) by {
            assert forall|i: int| 0 <= i < front.len() implies !(#[trigger] front[i] matches FilterOp::Ignore {
                permanent,
            } && permanent) by {
                assert(front[i] == ops[i]);
            }
        }
        lemma_history_keeps(start, front);
        let before = start.after_all(front);
        assert(ops[ops.len() - 1] == ops.last());
        match ops.last() {
            FilterOp::Report(alarm) => {
                lemma_ignored_stay_matching(before, &alarm);
            },
            FilterOp::Ignore { permanent } => {
                assert(!permanent);
            },
            FilterOp::Restore => {},
        }
    }
}

/// The state of one filter.
pub struct AlarmFilterState {
    name: String,
    filter: BoolOp,
    matching: IdSet,
    ignore: IdSet,
    ignore_permanent: bool,
    tag_matching: Option<String>,
    tag_ignored: Option<String>,
    version: u64,
    reported: u32,
}

/// The text of an optional string.
pub open spec fn name_text(s: Option<String>) -> Option<Seq<char>> {
    match s {
        Some(s) => Some(s@),
        None => None,
    }
}

impl View for AlarmFilterState {
    type V = FilterView;

    closed spec fn view(&self) -> FilterView {
        FilterView {
            name: self.name@,
            filter: self.filter@,
            matching: self.matching@,
            ignore: self.ignore@,
            ignore_permanent: self.ignore_permanent,
            tag_matching: name_text(self.tag_matching),
            tag_ignored: name_text(self.tag_ignored),
            version: self.version,
            reported: self.reported,
        }
    }
}

impl AlarmFilterState {
    /// What holds of the state of every filter: its sets are well formed.
    pub closed spec fn wf(&self) -> bool {
        self.matching.wf() && self.ignore.wf()
    }

    /// The sets of a well formed filter are finite.
    pub proof fn lemma_finite(&self)
        requires
            self.wf(),
        ensures
            self@.matching.finite(),
            self@.ignore.finite(),
    {
        self.matching.lemma_finite();
        self.ignore.lemma_finite();
    }

    /// The state of a filter that no alarm has been reported to.
    pub fn new(
        name: String,
        filter: BoolOp,
        tag_matching: Option<String>,
        tag_ignored: Option<String>,
    ) -> (r: AlarmFilterState)
        ensures
            r.wf(),
            r@ == (FilterView {
                name: name@,
                filter: filter@,
                matching: Set::empty(),
                ignore: Set::empty(),
                ignore_permanent: false,
                tag_matching: name_text(tag_matching),
                tag_ignored: name_text(tag_ignored),
                version: 0,
                reported: 0,
            }),
    {
        AlarmFilterState {
            name,
            filter,
            matching: IdSet::new(),
            ignore: IdSet::new(),
            ignore_permanent: false,
            tag_matching,
            tag_ignored,
            version: 0,
            reported: 0,
        }
    }

    /// The number of matching alarms that are not ignored.
    pub fn matching_count(&self) -> (n: usize)
        requires
            self.wf(),
        ensures
            n == self@.visible(),
    {
        self.matching.difference_len(&self.ignore)
    }

    /// The count of the filter.
    pub fn count(&self) -> (n: u32)
        requires
            self.wf(),
        ensures
            n == self@.count(),
    {
        let n = self.matching_count();
        if n > u32::MAX as usize {
            u32::MAX
        } else {
            n as u32
        }
    }

    /// Tells the tags of the filter its numbers.
    fn update_tags(&self, tags: &mut TagContext)
        requires
            self.wf(),
            old(tags)@.wf(),
        ensures
            final(tags)@.wf(),
            final(tags)@ == self@.told(old(tags)@),
    {
        if let Some(tag_matching) = &self.tag_matching {
            let text = u64_to_string(self.matching_count() as u64);
            tags.set_tag(tag_matching.as_str(), text.as_str());
        }
        if let Some(tag_ignored) = &self.tag_ignored {
            let text = u64_to_string(self.ignore.len() as u64);
            tags.set_tag(tag_ignored.as_str(), text.as_str());
        }
    }

    /// Reports the count to the waiters and to the tags.
    fn update_alarm_counts(&mut self, tags: &mut TagContext)
        requires
            old(self).wf(),
            old(tags)@.wf(),
        ensures
            final(self).wf(),
            final(tags)@.wf(),
            final(self)@ == old(self)@.announced(),
            final(tags)@ == final(self)@.told(old(tags)@),
    {
        self.reported = self.count();
        self.version = self.version.wrapping_add(1);
        self.update_tags(tags);
    }

    /// Takes in the report of an alarm and tells whether the count was
    /// reported.
    pub fn handle_notification(&mut self, new_alarm: &AlarmData, tags: &mut TagContext) -> (announced:
        bool)
        requires
            old(self).wf(),
            old(tags)@.wf(),
        ensures
            final(self).wf(),
            final(tags)@.wf(),
            final(self)@ == old(self)@.notified(new_alarm),
            announced == old(self)@.announces(new_alarm),
            final(tags)@ == if announced {
                final(self)@.told(old(tags)@)
            } else {
                old(tags)@
            },
    {
        if new_alarm.state == STATE_PASSED_OVER {
            return false;
        }
        if self.filter.evaluate(new_alarm) {
            if self.matching.insert(new_alarm.id) {
                self.update_alarm_counts(tags);
                true
            } else {
                proof {
                    assert(self@.matching =~= old(self)@.matching);
                }
                false
            }
        } else {
            if !self.ignore_permanent {
                self.ignore.remove(new_alarm.id);
            }
            if self.matching.remove(new_alarm.id) {
                self.update_alarm_counts(tags);
                true
            } else {
                proof {
                    assert(self@.matching =~= old(self)@.matching);
                }
                false
            }
        }
    }

    /// Sets the alarms that match now to be ignored, and reports the count.
    pub fn ignore_matching(&mut self, permanent: bool, tags: &mut TagContext)
        requires
            old(self).wf(),
            old(tags)@.wf(),
        ensures
            final(self).wf(),
            final(tags)@.wf(),
            final(self)@ == old(self)@.ignoring(permanent),
            final(tags)@ == final(self)@.told(old(tags)@),
    {
        self.ignore = self.matching.duplicate();
        self.ignore_permanent = permanent;
        self.update_alarm_counts(tags);
    }

    /// Ends the ignoring of alarms, and reports the count.
    pub fn restore(&mut self, tags: &mut TagContext)
        requires
            old(self).wf(),
            old(tags)@.wf(),
        ensures
            final(self).wf(),
            final(tags)@.wf(),
            final(self)@ == old(self)@.restored(),
            final(tags)@ == final(self)@.told(old(tags)@),
    {
        self.ignore = IdSet::new();
        self.update_alarm_counts(tags);
    }
}

/// A waiter for the next report of the count of a filter.
#[derive(Debug)]
pub struct AlarmWait {
    pub filter: String,
    pub version: u64,
}

/// A filter that no alarm has been reported to.
pub open spec fn fresh_filter(
    name: Seq<char>,
    filter: BoolExpr,
    tag_matching: Option<Seq<char>>,
    tag_ignored: Option<Seq<char>>,
) -> FilterView {
    FilterView {
        name,
        filter,
        matching: Set::empty(),
        ignore: Set::empty(),
        ignore_permanent: false,
        tag_matching,
        tag_ignored,
        version: 0,
        reported: 0,
    }
}

/// The filters after one is added: it takes the place of the filter of the
/// same name, or comes last.
pub open spec fn with_added(filters: Seq<FilterView>, filter: FilterView) -> Seq<FilterView> {
    match filter_index(filters, filter.name) {
        Some(i) => filters.update(i, filter),
        None => filters.push(filter),
    }
}

/// No two filters have the same name.
pub open spec fn distinct_names(filters: Seq<FilterView>) -> bool {
    forall|i: int, j: int| 0 <= i < j < filters.len() ==> filters[i].name != filters[j].name
}

/// Adding a filter leaves one filter for a name at most.
pub proof fn lemma_added_names_distinct(filters: Seq<FilterView>, filter: FilterView)
    requires
        distinct_names(filters),
    ensures
        distinct_names(with_added(filters, filter)),
        filter_index(with_added(filters, filter), filter.name) is Some,
{
    lemma_filter_index(filters, filter.name);
    let after = with_added(filters, filter);
    match filter_index(filters, filter.name) {
        Some(i) => {
            assert forall|a: int, b: int| 0 <= a < b < after.len() implies after[a].name
                != after[b].name by {
                assert(after[a].name == filters[a].name);
                assert(after[b].name == filters[b].name);
            }
            assert(after[i].name == filter.name);
        },
        None => {
            assert forall|a: int, b: int| 0 <= a < b < after.len() implies after[a].name
                != after[b].name by {
                if b < filters.len() {
                    assert(after[a] == filters[a]);
                    assert(after[b] == filters[b]);
                } else {
                    assert(after[a] == filters[a]);
                }
            }
            assert(after[filters.len() as int].name == filter.name);
        },
    }
    lemma_filter_index(after, filter.name);
}

/// The position of the filter with the given name, if there is one.
pub open spec fn filter_index(filters: Seq<FilterView>, name: Seq<char>) -> Option<int>
    decreases filters.len(),
{
    if filters.len() == 0 {
        None
    } else if filters.last().name == name {
        Some(filters.len() - 1)
    } else {
        filter_index(filters.drop_last(), name)
    }
}

/// The position that `filter_index` gives lies in the list and holds the
/// name.
pub proof fn lemma_filter_index(filters: Seq<FilterView>, name: Seq<char>)
    ensures
        match filter_index(filters, name) {
            Some(i) => 0 <= i < filters.len() && filters[i].name == name,
            None => forall|j: int| 0 <= j < filters.len() ==> (#[trigger] filters[j]).name != name,
        },
    decreases filters.len(),
{
    if filters.len() > 0 && filters.last().name != name {
        lemma_filter_index(filters.drop_last(), name);
        match filter_index(filters.drop_last(), name) {
            Some(i) => {
                assert(filters.drop_last()[i] == filters[i]);
            },
            None => {
                assert forall|j: int| 0 <= j < filters.len() implies (#[trigger] filters[j]).name
                    != name by {
                    if j < filters.len() - 1 {
                        assert(filters.drop_last()[j] == filters[j]);
                    }
                }
            },
        }
    }
}

/// The filters after the report of an alarm to each of them.
pub open spec fn all_notified(filters: Seq<FilterView>, alarm: &AlarmData) -> Seq<FilterView> {
    Seq::new(filters.len(), |i: int| filters[i].notified(alarm))
}

/// The tags after the filters that report their count on an alarm have told
/// them their numbers, in the order of the filters.
pub open spec fn tags_after(filters: Seq<FilterView>, alarm: &AlarmData, tags: TagContextView) -> TagContextView
    decreases filters.len(),
{
    if filters.len() == 0 {
        tags
    } else {
        let before = tags_after(filters.drop_last(), alarm, tags);
        if filters.last().announces(alarm) {
            filters.last().notified(alarm).told(before)
        } else {
            before
        }
    }
}

/// What a waiter for a filter gets: nothing while the filter has the
/// version that the waiter holds, else the count that was reported last.
pub open spec fn spec_polled(filters: Seq<FilterView>, name: Seq<char>, version: u64) -> Result<
    Option<u32>,
    Error,
> {
    match filter_index(filters, name) {
        Some(i) => Ok(
            if filters[i].version == version {
                None
            } else {
                Some(filters[i].reported)
            },
        ),
        None => Err(Error::AlarmFilterNotFound),
    }
}

/// What arming a waiter for a filter gives: the count of the filter and its
/// version.
pub open spec fn spec_armed(filters: Seq<FilterView>, name: Seq<char>) -> Result<(u32, u64), Error> {
    match filter_index(filters, name) {
        Some(i) => Ok((filters[i].count(), filters[i].version)),
        None => Err(Error::AlarmFilterNotFound),
    }
}

/// The alarm dispatcher.
pub struct AlarmContext {
    alarm_filters: Vec<AlarmFilterState>,
}

impl AlarmContext {
    /// The filters in the order in which they were added.
    pub closed spec fn filters(&self) -> Seq<FilterView> {
        Seq::new(self.alarm_filters@.len(), |i: int| self.alarm_filters@[i]@)
    }

    /// What holds of every dispatcher: its filters are well formed.
    pub closed spec fn wf(&self) -> bool {
        forall|i: int| 0 <= i < self.alarm_filters@.len() ==> (#[trigger] self.alarm_filters@[i]).wf()
    }

    /// A dispatcher without filters.
    pub fn new() -> (r: AlarmContext)
        ensures
            r.wf(),
            r.filters().len() == 0,
    {
        AlarmContext { alarm_filters: Vec::new() }
    }

    fn find(&self, name: &str) -> (r: Option<usize>)
        ensures
            match r {
                Some(i) => filter_index(self.filters(), name@) == Some(i as int)
                    && i < self.alarm_filters.len(),
                None => filter_index(self.filters(), name@) is None,
            },
    {
        let ghost views = self.filters();
        let mut i: usize = self.alarm_filters.len();
        proof {
            assert(views.take(views.len() as int) =~= views);
        }
        while i > 0
            invariant
                i <= self.alarm_filters.len(),
                views == self.filters(),
                filter_index(views, name@) == filter_index(views.take(i as int), name@),
            decreases i,
        {
            i -= 1;
            proof {
                assert(views.take(i + 1).last() == self.alarm_filters@[i as int]@);
                assert(views.take(i + 1).drop_last() =~= views.take(i as int));
            }
            if same_str(self.alarm_filters[i].name.as_str(), name) {
                return Some(i);
            }
        }
        None
    }

    /// Whether a filter of the given name is configured.
    pub fn has_filter(&self, name: &str) -> (r: bool)
        ensures
            r == filter_index(self.filters(), name@) is Some,
    {
        self.find(name).is_some()
    }

    /// Adds a filter that no alarm has been reported to. It takes the place
    /// of the filter of the same name, if there is one, and comes last if
    /// there is none: there is one filter for a name at most.
    pub fn add_filter(
        &mut self,
        name: &str,
        filter: BoolOp,
        tag_matching: Option<String>,
        tag_ignored: Option<String>,
    )
        requires
            old(self).wf(),
        ensures
            final(self).wf(),
            final(self).filters() == with_added(
                old(self).filters(),
                fresh_filter(name@, filter@, name_text(tag_matching), name_text(tag_ignored)),
            ),
    {
        let ghost before = self.filters();
        let ghost old_states = self.alarm_filters@;
        let state = AlarmFilterState::new(name.to_owned(), filter, tag_matching, tag_ignored);
        match self.find(name) {
            Some(i) => {
                self.put_state(i, state);
                proof {
                    assert(self.filters() =~= before.update(i as int, state@));
                }
            },
            None => {
                self.alarm_filters.push(state);
                proof {
                    assert(self.filters() =~= before.push(state@));
                    assert forall|i: int| 0 <= i < self.alarm_filters@.len() implies (
                    #[trigger] self.alarm_filters@[i]).wf() by {
                        if i < old_states.len() {
                            assert(self.alarm_filters@[i] == old_states[i]);
                        }
                    }
                }
            },
        }
    }

    /// Takes in the report of an alarm: every filter takes it in, and those
    /// whose count is reported tell their tags.
    pub fn handle_notification(&mut self, new_alarm: &AlarmData, tags: &mut TagContext)
        requires
            old(self).wf(),
            old(tags)@.wf(),
        ensures
            final(self).wf(),
            final(tags)@.wf(),
            final(self).filters() == all_notified(old(self).filters(), new_alarm),
            final(tags)@ == tags_after(old(self).filters(), new_alarm, old(tags)@),
    {
        let ghost start = self.filters();
        let ghost start_tags = tags@;
        let n = self.alarm_filters.len();
        let mut i: usize = 0;
        proof {
            assert(start.take(0).len() == 0);
        }
        while i < n
            invariant
                i <= n,
                n == self.alarm_filters.len(),
                n == start.len(),
                self.wf(),
                tags@.wf(),
                forall|k: int| 0 <= k < i ==> self.filters()[k] == start[k].notified(new_alarm),
                forall|k: int| i <= k < n ==> self.filters()[k] == start[k],
                tags@ == tags_after(start.take(i as int), new_alarm, start_tags),
            decreases n - i,
        {
            let ghost before = self.filters();
            let ghost old_states = self.alarm_filters@;
            proof {
                assert(start.take(i + 1).drop_last() =~= start.take(i as int));
                assert(start.take(i + 1).last() == start[i as int]);
                assert(before[i as int] == self.alarm_filters@[i as int]@);
            }
            let mut state = self.take_state(i);
            state.handle_notification(new_alarm, tags);
            self.put_state(i, state);
            proof {
                assert forall|k: int| 0 <= k < i + 1 implies self.filters()[k]
                    == start[k].notified(new_alarm) by {
                    if k < i {
                        assert(self.filters()[k] == before[k]);
                    }
                }
                assert forall|k: int| i + 1 <= k < n implies self.filters()[k] == start[k] by {
                    assert(self.filters()[k] == before[k]);
                }
            }
            i += 1;
        }
        proof {
            assert(start.take(start.len() as int) =~= start);
            assert(self.filters() =~= all_notified(start, new_alarm));
        }
    }

    /// Takes the state of a filter out of the list, leaving an empty state
    /// in its place.
    fn take_state(&mut self, i: usize) -> (r: AlarmFilterState)
        requires
            old(self).wf(),
            i < old(self).alarm_filters@.len(),
        ensures
            r == old(self).alarm_filters@[i as int],
            r.wf(),
            final(self).alarm_filters@.len() == old(self).alarm_filters@.len(),
            forall|k: int|
                0 <= k < final(self).alarm_filters@.len() && k != i ==> final(self).alarm_filters@[k]
                    == old(self).alarm_filters@[k],
    {
        let slot = AlarmFilterState::new(
            String::new(),
            BoolOp::IntEqual(crate::alarm_filter::IntCriterion::Id, 0),
            None,
            None,
        );
        let ghost before = self.alarm_filters@;
        let mut rest = self.alarm_filters.split_off(i);
        let taken = rest.remove(0);
        rest.insert(0, slot);
        self.alarm_filters.append(&mut rest);
        proof {
            assert(self.alarm_filters@.len() == before.len());
            assert forall|k: int| 0 <= k < self.alarm_filters@.len() && k != i implies self.alarm_filters@[k]
                == before[k] by {}
        }
        taken
    }

    /// Puts the state of a filter at its place in the list.
    fn put_state(&mut self, i: usize, state: AlarmFilterState)
        requires
            i < old(self).alarm_filters@.len(),
            state.wf(),
            forall|k: int|
                0 <= k < old(self).alarm_filters@.len() && k != i ==> (
                #[trigger] old(self).alarm_filters@[k]).wf(),
        ensures
            final(self).wf(),
            final(self).alarm_filters@ == old(self).alarm_filters@.update(i as int, state),
    {
        self.alarm_filters.set(i, state);
    }

    /// The count of a filter and a waiter for its next report.
    pub fn wait_alarm_filter(&self, filter_name: &str) -> (r: Result<(u32, AlarmWait), Error>)
        requires
            self.wf(),
        ensures
            match r {
                Ok((count, wait)) => filter_index(self.filters(), filter_name@) matches Some(i)
                    && count == self.filters()[i].count() && wait.version
                    == self.filters()[i].version && wait.filter@ == filter_name@,
                Err(e) => filter_index(self.filters(), filter_name@) is None && e
                    == Error::AlarmFilterNotFound,
            },
    {
        match self.find(filter_name) {
            Some(i) => {
                let filter = &self.alarm_filters[i];
                Ok(
                    (
                        filter.count(),
                        AlarmWait { filter: filter_name.to_owned(), version: filter.version },
                    ),
                )
            },
            None => Err(Error::AlarmFilterNotFound),
        }
    }

    /// What a waiter gets now: nothing while the count has not been reported
    /// since the waiter was armed, else the count that was reported last.
    pub fn poll_wait(&self, wait: &AlarmWait) -> (r: Result<Option<u32>, Error>)
        ensures
            match filter_index(self.filters(), wait.filter@) {
                Some(i) => r == Ok::<Option<u32>, Error>(
                    if self.filters()[i].version == wait.version {
                        None
                    } else {
                        Some(self.filters()[i].reported)
                    },
                ),
                None => r == Err::<Option<u32>, Error>(Error::AlarmFilterNotFound),
            },
    {
        match self.find(wait.filter.as_str()) {
            Some(i) => {
                let filter = &self.alarm_filters[i];
                if filter.version == wait.version {
                    Ok(None)
                } else {
                    Ok(Some(filter.reported))
                }
            },
            None => Err(Error::AlarmFilterNotFound),
        }
    }

    /// What a waiter for the filter `name` that holds the version `version`
    /// gets now.
    pub fn poll_version(&self, name: &str, version: u64) -> (r: Result<Option<u32>, Error>)
        ensures
            r == spec_polled(self.filters(), name@, version),
    {
        match self.find(name) {
            Some(i) => {
                let filter = &self.alarm_filters[i];
                if filter.version == version {
                    Ok(None)
                } else {
                    Ok(Some(filter.reported))
                }
            },
            None => Err(Error::AlarmFilterNotFound),
        }
    }

    /// The count of a filter: the number of alarms that match it and are not
    /// ignored.
    pub fn get_filter_count(&self, filter_name: &str) -> (r: Result<u32, Error>)
        requires
            self.wf(),
        ensures
            match filter_index(self.filters(), filter_name@) {
                Some(i) => r == Ok::<u32, Error>(self.filters()[i].count()),
                None => r == Err::<u32, Error>(Error::AlarmFilterNotFound),
            },
    {
        match self.find(filter_name) {
            Some(i) => Ok(self.alarm_filters[i].count()),
            None => Err(Error::AlarmFilterNotFound),
        }
    }

    /// Sets the alarms that match a filter now to be ignored. With
    /// `permanent` an alarm stays ignored when it no longer matches. A name
    /// that is no filter's is passed over.
    pub fn ignore_matched_alarms(&mut self, filter: &str, permanent: bool, tags: &mut TagContext)
        requires
            old(self).wf(),
            old(tags)@.wf(),
        ensures
            final(self).wf(),
            final(tags)@.wf(),
            match filter_index(old(self).filters(), filter@) {
                Some(i) => final(self).filters() == old(self).filters().update(
                    i,
                    old(self).filters()[i].ignoring(permanent),
                ) && final(tags)@ == final(self).filters()[i].told(old(tags)@),
                None => final(self).filters() == old(self).filters() && final(tags)@ == old(tags)@,
            },
    {
        let ghost before = self.filters();
        proof {
            lemma_filter_index(before, filter@);
        }
        if let Some(i) = self.find(filter) {
            proof {
                assert(before[i as int] == self.alarm_filters@[i as int]@);
            }
            let mut state = self.take_state(i);
            state.ignore_matching(permanent, tags);
            self.put_state(i, state);
            proof {
                assert(self.filters() =~= before.update(i as int, before[i as int].ignoring(permanent)));
            }
        }
    }

    /// Ends the ignoring of alarms for a filter. A name that is no filter's
    /// is passed over.
    pub fn restore_ignored_alarms(&mut self, filter: &str, tags: &mut TagContext)
        requires
            old(self).wf(),
            old(tags)@.wf(),
        ensures
            final(self).wf(),
            final(tags)@.wf(),
            match filter_index(old(self).filters(), filter@) {
                Some(i) => final(self).filters() == old(self).filters().update(
                    i,
                    old(self).filters()[i].restored(),
                ) && final(tags)@ == final(self).filters()[i].told(old(tags)@),
                None => final(self).filters() == old(self).filters() && final(tags)@ == old(tags)@,
            },
    {
        let ghost before = self.filters();
        proof {
            lemma_filter_index(before, filter@);
        }
        if let Some(i) = self.find(filter) {
            proof {
                assert(before[i as int] == self.alarm_filters@[i as int]@);
            }
            let mut state = self.take_state(i);
            state.restore(tags);
            self.put_state(i, state);
            proof {
                assert(self.filters() =~= before.update(i as int, before[i as int].restored()));
            }
        }
    }
}

} // verus!
