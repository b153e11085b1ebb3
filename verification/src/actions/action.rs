//! The action tree and its evaluation.
//!
//! An `Action` says what to do; it is built once and never changes. A `Task`
//! is one run of an action: it keeps how far the run has come. `poll` takes
//! a run one step further. It never waits: where the run has to wait, for a
//! time, a tag, an alarm count, the audio output or an acknowledgement,
//! `poll` returns `Pending`, and the caller polls again when something has
//! changed. A run that is given up before it has ended is handed to
//! `cancel`, which gives back what the run holds.
//!
//! Everything that a run works on is kept in the `World`. What the library
//! cannot do itself is left there for the caller: lines for the log, changes
//! of volume, changes of state, and questions about numbers. After a call the
//! flag `repoll` tells that the run has more to do at once.
use crate::actions::alarm_dispatcher::Error as AlarmError;
use crate::actions::alarm_function::AlarmFunctionAction;
use crate::actions::debug::DebugAction;
use crate::actions::goto::{GotoAction, GotoRequest};
use crate::actions::parallel::ParallelAction;
use crate::actions::play::PlayAction;
use crate::actions::repeat::RepeatAction;
use crate::actions::sequence::SequenceAction;
use crate::actions::set_tag::SetTagAction;
use crate::actions::set_volume::{SetVolumeAction, VolumeRequest, VolumeRequestView};
use crate::actions::tag_dispatcher::Error as TagError;
use crate::actions::wait::WaitAction;
use crate::actions::wait_alarm::WaitAlarmAction;
use crate::actions::wait_tag::{NumberOrder, WaitTagAction};
use crate::app_config::alarm_context::{AlarmContext, FilterView};
use crate::app_config::tag_context::{option_text, SetTagWait, TagContext, TagContextView};
use crate::clip_player::Error as PlayerError;
use crate::clip_queue::{ClipQueue, ClipQueueView, PlayRun};
use crate::event_limit::{EventLimit, EventLimitView};
use crate::text::same_str;
use vstd::prelude::*;

verus! {

/// Why the run of an action failed.
#[derive(Debug)]
pub enum ActionError {
    /// Rounds or changes of state followed each other too fast.
    Runaway(String),
    /// A tag could not be waited for.
    Tag(TagError),
    /// An alarm filter could not be waited for.
    Alarm(AlarmError),
    /// A clip could not be played.
    Playback(PlayerError),
}

/// The model of `ActionError`.
pub enum ActionErrorView {
    Runaway(Seq<char>),
    Tag(TagError),
    Alarm(AlarmError),
    Playback(PlayerError),
}

impl View for ActionError {
    type V = ActionErrorView;

    open spec fn view(&self) -> ActionErrorView {
        match self {
            ActionError::Runaway(m) => ActionErrorView::Runaway(m@),
            ActionError::Tag(e) => ActionErrorView::Tag(*e),
            ActionError::Alarm(e) => ActionErrorView::Alarm(*e),
            ActionError::Playback(e) => ActionErrorView::Playback(*e),
        }
    }
}

impl ActionErrorView {
    /// The message of the error.
    pub open spec fn text(self) -> Seq<char> {
        match self {
            ActionErrorView::Runaway(m) => m,
            ActionErrorView::Tag(e) => e.text(),
            ActionErrorView::Alarm(e) => e.text(),
            ActionErrorView::Playback(e) => e.text(),
        }
    }
}

impl ActionError {
    /// The message of the error.
    pub fn to_string(&self) -> (s: String)
        ensures
            s@ == self@.text(),
    {
        match self {
            ActionError::Runaway(m) => m.clone(),
            ActionError::Tag(e) => e.to_string(),
            ActionError::Alarm(e) => e.to_string(),
            ActionError::Playback(e) => e.to_string(),
        }
    }
}

/// What `poll` tells of a run.
#[derive(Debug)]
pub enum ActionPoll {
    /// The run goes on.
    Pending,
    /// The run has ended.
    Ready(Result<(), ActionError>),
}

/// The model of `ActionPoll`: `None` while the run goes on.
pub open spec fn poll_view(p: ActionPoll) -> Option<Result<(), ActionErrorView>> {
    match p {
        ActionPoll::Pending => None,
        ActionPoll::Ready(Ok(())) => Some(Ok(())),
        ActionPoll::Ready(Err(e)) => Some(Err(e@)),
    }
}

/// How a value read as a number compares with a limit, as found out by the
/// caller. `order` is `None` if the value is no number.
#[derive(Debug)]
pub struct Answer {
    pub value: String,
    pub limit: u64,
    pub order: Option<NumberOrder>,
}

/// A question to the caller: how does the value, read as a number, compare
/// with the limit?
#[derive(Debug)]
pub struct Question {
    pub value: String,
    pub limit: u64,
}

/// The model of `Answer`.
pub struct AnswerView {
    pub value: Seq<char>,
    pub limit: u64,
    pub order: Option<NumberOrder>,
}

/// The model of `Question`.
pub struct QuestionView {
    pub value: Seq<char>,
    pub limit: u64,
}

impl View for Answer {
    type V = AnswerView;

    open spec fn view(&self) -> AnswerView {
        AnswerView { value: self.value@, limit: self.limit, order: self.order }
    }
}

impl View for Question {
    type V = QuestionView;

    open spec fn view(&self) -> QuestionView {
        QuestionView { value: self.value@, limit: self.limit }
    }
}

/// The questions about numbers that await an answer, and the answers given.
pub struct NumberDesk {
    pub questions: Vec<Question>,
    pub answers: Vec<Answer>,
}

/// The model of `NumberDesk`.
pub struct NumberDeskView {
    pub questions: Seq<QuestionView>,
    pub answers: Seq<AnswerView>,
}

/// The views of a list of questions.
pub open spec fn question_views(q: Seq<Question>) -> Seq<QuestionView> {
    Seq::new(q.len(), |i: int| q[i]@)
}

/// The views of a list of answers.
pub open spec fn answer_views(a: Seq<Answer>) -> Seq<AnswerView> {
    Seq::new(a.len(), |i: int| a[i]@)
}

impl View for NumberDesk {
    type V = NumberDeskView;

    open spec fn view(&self) -> NumberDeskView {
        NumberDeskView {
            questions: question_views(self.questions@),
            answers: answer_views(self.answers@),
        }
    }
}

/// The answer given last to a question, if one was given.
pub open spec fn answer_to(answers: Seq<AnswerView>, value: Seq<char>, limit: u64) -> Option<
    Option<NumberOrder>,
>
    decreases answers.len(),
{
    if answers.len() == 0 {
        None
    } else if answers.last().value == value && answers.last().limit == limit {
        Some(answers.last().order)
    } else {
        answer_to(answers.drop_last(), value, limit)
    }
}

/// Whether a question is among those that await an answer.
pub open spec fn is_asked(questions: Seq<QuestionView>, value: Seq<char>, limit: u64) -> bool {
    exists|i: int|
        0 <= i < questions.len() && (#[trigger] questions[i]).value == value && questions[i].limit
            == limit
}

impl NumberDeskView {
    /// The desk after a question is asked: a question that awaits an answer
    /// already is not asked again.
    pub open spec fn asked(self, value: Seq<char>, limit: u64) -> NumberDeskView {
        if is_asked(self.questions, value, limit) {
            self
        } else {
            NumberDeskView { questions: self.questions.push(QuestionView { value, limit }), ..self }
        }
    }
}

impl NumberDesk {
    /// A desk without questions and answers.
    pub fn new() -> (r: NumberDesk)
        ensures
            r@.questions.len() == 0,
            r@.answers.len() == 0,
    {
        NumberDesk { questions: Vec::new(), answers: Vec::new() }
    }

    /// The answer given last to a question, if one was given.
    pub fn lookup(&self, value: &str, limit: u64) -> (r: Option<Option<NumberOrder>>)
        ensures
            r == answer_to(self@.answers, value@, limit),
    {
        let ghost views = self@.answers;
        let mut i: usize = self.answers.len();
        proof {
            assert(views.take(views.len() as int) =~= views);
        }
        while i > 0
            invariant
                i <= self.answers.len(),
                views == self@.answers,
                answer_to(views, value@, limit) == answer_to(views.take(i as int), value@, limit),
            decreases i,
        {
            i -= 1;
            proof {
                assert(views.take(i + 1).last() == self.answers@[i as int]@);
                assert(views.take(i + 1).drop_last() =~= views.take(i as int));
            }
            let a = &self.answers[i];
            if a.limit == limit && same_str(a.value.as_str(), value) {
                return Some(a.order);
            }
        }
        None
    }

    /// Asks a question, unless it awaits an answer already.
    pub fn ask(&mut self, value: &str, limit: u64)
        ensures
            final(self)@ == old(self)@.asked(value@, limit),
    {
        let mut i: usize = 0;
        while i < self.questions.len()
            invariant
                i <= self.questions.len(),
                *self == *old(self),
                forall|k: int|
                    0 <= k < i ==> !((#[trigger] self@.questions[k]).value == value@
                        && self@.questions[k].limit == limit),
            decreases self.questions.len() - i,
        {
            let q = &self.questions[i];
            if q.limit == limit && same_str(q.value.as_str(), value) {
                proof {
                    assert(self@.questions[i as int].value == value@);
                }
                return ;
            }
            proof {
                assert(self@.questions[i as int] == self.questions@[i as int]@);
            }
            i += 1;
        }
        let ghost before = self@;
        self.questions.push(Question { value: value.to_owned(), limit });
        proof {
            assert(self@.questions =~= before.questions.push(
                QuestionView { value: value@, limit },
            ));
            assert(self@.answers =~= before.answers);
        }
    }

    /// Records the answer to a question.
    pub fn answer(&mut self, value: &str, limit: u64, order: Option<NumberOrder>)
        ensures
            final(self)@.questions == old(self)@.questions,
            final(self)@.answers == old(self)@.answers.push(
                AnswerView { value: value@, limit, order },
            ),
            answer_to(final(self)@.answers, value@, limit) == Some(order),
    {
        let ghost before = self@;
        self.answers.push(Answer { value: value.to_owned(), limit, order });
        proof {
            assert(self@.answers =~= before.answers.push(
                AnswerView { value: value@, limit, order },
            ));
            assert(self@.questions =~= before.questions);
        }
    }

    /// Takes the questions that await an answer.
    pub fn take_questions(&mut self) -> (r: Vec<Question>)
        ensures
            question_views(r@) == old(self)@.questions,
            final(self)@.questions.len() == 0,
            final(self)@.answers == old(self)@.answers,
    {
        let ghost before = self@;
        let ghost moved = self.questions@;
        let mut taken: Vec<Question> = Vec::new();
        taken.append(&mut self.questions);
        proof {
            assert(taken@ =~= moved);
            assert(self@.answers =~= before.answers);
        }
        taken
    }

    /// Forgets every answer.
    pub fn forget_answers(&mut self)
        ensures
            final(self)@.questions == old(self)@.questions,
            final(self)@.answers.len() == 0,
    {
        let ghost before = self@;
        self.answers = Vec::new();
        proof {
            assert(self@.questions =~= before.questions);
        }
    }
}

/// What the runs of actions work on.
pub struct World {
    pub tags: TagContext,
    pub alarms: AlarmContext,
    pub clip_queue: ClipQueue,
    pub numbers: NumberDesk,
    /// Lines that are to be written to the log.
    pub log: Vec<String>,
    /// Changes of volume that are to be carried out.
    pub volume: Vec<VolumeRequest>,
    /// Changes of state that are to be handed to the state machines.
    pub gotos: Vec<GotoRequest>,
    /// Whether a run has more to do at once.
    pub repoll: bool,
}

/// The model of `World`.
pub struct WorldView {
    pub tags: TagContextView,
    pub alarms: Seq<FilterView>,
    pub queue: ClipQueueView,
    pub numbers: NumberDeskView,
    pub log: Seq<Seq<char>>,
    pub volume: Seq<VolumeRequestView>,
    pub gotos: Seq<GotoRequest>,
    pub repoll: bool,
}

/// The views of a list of volume requests.
pub open spec fn volume_views(v: Seq<VolumeRequest>) -> Seq<VolumeRequestView> {
    Seq::new(v.len(), |i: int| v[i]@)
}

impl View for World {
    type V = WorldView;

    open spec fn view(&self) -> WorldView {
        WorldView {
            tags: self.tags@,
            alarms: self.alarms.filters(),
            queue: self.clip_queue@,
            numbers: self.numbers@,
            log: crate::name_set::texts(self.log@),
            volume: volume_views(self.volume@),
            gotos: self.gotos@,
            repoll: self.repoll,
        }
    }
}

impl World {
    /// What holds of every world: its parts are well formed.
    pub open spec fn wf(&self) -> bool {
        self.tags@.wf() && self.alarms.wf() && self.clip_queue@.wf()
    }

    /// A world with the given dispatchers and clip queue, and nothing left
    /// for the caller yet.
    pub fn new(tags: TagContext, alarms: AlarmContext, clip_queue: ClipQueue) -> (r: World)
        requires
            tags@.wf(),
            alarms.wf(),
            clip_queue@.wf(),
        ensures
            r.wf(),
            r.tags == tags,
            r.alarms == alarms,
            r.clip_queue == clip_queue,
            r@.log.len() == 0,
            r@.volume.len() == 0,
            r@.gotos.len() == 0,
            !r.repoll,
            r@.numbers.questions.len() == 0,
            r@.numbers.answers.len() == 0,
    {
        World {
            tags,
            alarms,
            clip_queue,
            numbers: NumberDesk::new(),
            log: Vec::new(),
            volume: Vec::new(),
            gotos: Vec::new(),
            repoll: false,
        }
    }
}

/// What a state can run.
pub enum Action {
    Sequence(SequenceAction),
    Parallel(ParallelAction),
    Repeat(RepeatAction),
    Play(PlayAction),
    Wait(WaitAction),
    WaitTag(WaitTagAction),
    WaitAlarm(WaitAlarmAction),
    SetTag(SetTagAction),
    AlarmFunction(AlarmFunctionAction),
    SetVolume(SetVolumeAction),
    Goto(GotoAction),
    Debug(DebugAction),
}

/// One run of an action.
#[allow(inconsistent_fields)]
pub enum Task {
    /// Nothing has been done yet.
    New,
    /// The run of a sequence that has come to the action at `index`.
    Sequence { index: usize, current: Box<Task> },
    /// The run of a group; `cursor` is the action that takes the next step.
    Parallel { cursor: usize, children: Vec<Task> },
    /// The run of a repetition with `remaining` rounds to start; `running`
    /// tells whether a round is under way.
    Repeat { remaining: Option<u32>, limit: EventLimit, running: bool, body: Box<Task> },
    Play { run: PlayRun },
    Wait { deadline: u64 },
    /// `prev` is the value seen last, `armed` the version of the tag that
    /// the run waits to change.
    WaitTag { prev: Option<String>, armed: Option<u64> },
    /// `prev` is the count seen last, `armed` the version of the filter that
    /// the run waits to change.
    WaitAlarm { prev: Option<u32>, armed: Option<u64> },
    SetTag { wait: SetTagWait },
    /// The run has ended.
    Done,
}

/// The model of `Task`.
#[allow(inconsistent_fields)]
pub enum TaskView {
    New,
    Sequence { index: usize, current: Box<TaskView> },
    Parallel { cursor: usize, children: Seq<TaskView> },
    Repeat { remaining: Option<u32>, limit: EventLimitView, running: bool, body: Box<TaskView> },
    Play { run: PlayRun },
    Wait { deadline: u64 },
    WaitTag { prev: Option<Seq<char>>, armed: Option<u64> },
    WaitAlarm { prev: Option<u32>, armed: Option<u64> },
    SetTag { wait: SetTagWait },
    Done,
}

/// The views of a list of runs.
pub open spec fn task_views(children: Seq<Task>) -> Seq<TaskView>
    decreases children,
{
    if children.len() == 0 {
        Seq::empty()
    } else {
        task_views(children.drop_last()).push(children.last().view())
    }
}

/// The views of a list of runs are the views of its runs, one for one.
pub proof fn lemma_task_views(c: Seq<Task>)
    ensures
        task_views(c).len() == c.len(),
        forall|i: int|
            #![trigger task_views(c)[i]]
            #![trigger c[i]]
            0 <= i < c.len() ==> task_views(c)[i] == c[i]@,
    decreases c.len(),
{
    if c.len() > 0 {
        lemma_task_views(c.drop_last());
        let before = task_views(c.drop_last());
        assert(task_views(c) == before.push(c.last().view()));
        assert(before.len() == c.len() - 1);
        assert forall|i: int|
            #![trigger task_views(c)[i]]
            #![trigger c[i]]
            0 <= i < c.len() implies task_views(c)[i] == c[i]@ by {
            if i < c.len() - 1 {
                assert(c.drop_last()[i] == c[i]);
                assert(task_views(c)[i] == before[i]);
            } else {
                assert(c[i] == c.last());
            }
        }
    }
}

impl View for Task {
    type V = TaskView;

    open spec fn view(&self) -> TaskView
        decreases self,
    {
        match self {
            Task::New => TaskView::New,
            Task::Sequence { index, current } => TaskView::Sequence {
                index: *index,
                current: Box::new((**current).view()),
            },
            Task::Parallel { cursor, children } => TaskView::Parallel {
                cursor: *cursor,
                children: task_views(children@),
            },
            Task::Repeat { remaining, limit, running, body } => TaskView::Repeat {
                remaining: *remaining,
                limit: limit@,
                running: *running,
                body: Box::new((**body).view()),
            },
            Task::Play { run } => TaskView::Play { run: *run },
            Task::Wait { deadline } => TaskView::Wait { deadline: *deadline },
            Task::WaitTag { prev, armed } => TaskView::WaitTag {
                prev: option_text(*prev),
                armed: *armed,
            },
            Task::WaitAlarm { prev, armed } => TaskView::WaitAlarm { prev: *prev, armed: *armed },
            Task::SetTag { wait } => TaskView::SetTag { wait: *wait },
            Task::Done => TaskView::Done,
        }
    }
}

} // verus!
