//! Alarm filters: boolean predicates over alarm records, written in a small
//! query language.
//!
//! A filter is a `BoolOp` tree. `parse_filter` reads one from text,
//! `BoolOp::to_string` writes it in a canonical form with every operand in
//! parentheses, and `BoolOp::evaluate` decides whether an alarm record
//! matches.
use crate::open_pipe::alarm_data::AlarmData;
use crate::text::{
    decimal_text, i64_to_string, lowercase, parse_u32, same_str, spec_parse_u32, str_to_chars,
    to_lowercase, u64_to_string,
};
use vstd::prelude::*;
use vstd::string::*;

pub mod parser;
pub mod round_trip;

pub use parser::{parse_filter, ErrorKind, FilterError, FilterErrorKind};

verus! {

/// Life cycle state of an alarm.
#[derive(PartialEq, Eq, Debug, Clone, Copy, Structural)]
pub enum AlarmState {
    Normal,
    Raised,
    RaisedCleared,
    RaisedAcknowledged,
    RaisedAcknowledgedCleared,
    RaisedClearedAcknowledged,
    Removed,
}

/// Why a text does not name an alarm state.
#[derive(Debug, PartialEq)]
pub struct AlarmStateError(pub String);

impl AlarmStateError {
    /// The message of the error.
    pub fn to_string(&self) -> (s: String)
        ensures
            s@ == self.0@,
    {
        self.0.clone()
    }
}

/// True for the characters that separate the words of a state description.
pub open spec fn is_separator(c: char) -> bool {
    c == ' ' || c == ',' || c == '/'
}

/// The pieces of a text between separator characters. A text without a
/// separator is one piece, and two separators in a row enclose an empty piece.
pub open spec fn split_words(s: Seq<char>) -> Seq<Seq<char>>
    decreases s.len(),
{
    if s.len() == 0 {
        seq![Seq::<char>::empty()]
    } else {
        let before = split_words(s.drop_last());
        if is_separator(s.last()) {
            before.push(Seq::<char>::empty())
        } else {
            before.drop_last().push(before.last().push(s.last()))
        }
    }
}

/// The list holds exactly the word `a`.
pub open spec fn words1(w: Seq<Seq<char>>, a: Seq<char>) -> bool {
    w.len() == 1 && w[0] == a
}

/// The list holds exactly the words `a` and `b`.
pub open spec fn words2(w: Seq<Seq<char>>, a: Seq<char>, b: Seq<char>) -> bool {
    w.len() == 2 && w[0] == a && w[1] == b
}

/// The list holds exactly the words `a`, `b` and `c`.
pub open spec fn words3(w: Seq<Seq<char>>, a: Seq<char>, b: Seq<char>, c: Seq<char>) -> bool {
    w.len() == 3 && w[0] == a && w[1] == b && w[2] == c
}

/// The state that a list of lower case words describes.
pub open spec fn state_of_words(w: Seq<Seq<char>>) -> Option<AlarmState> {
    if words1(w, "normal"@) {
        Some(AlarmState::Normal)
    } else if words1(w, "incoming"@) || words1(w, "in"@) || words1(w, "raised"@) {
        Some(AlarmState::Raised)
    } else if words2(w, "incoming"@, "outgoing"@) || words2(w, "in"@, "out"@) || words1(
        w,
        "raisedcleared"@,
    ) {
        Some(AlarmState::RaisedCleared)
    } else if words2(w, "incoming"@, "acknowledged"@) || words2(w, "in"@, "ack"@) || words1(
        w,
        "raisedacknowledged"@,
    ) {
        Some(AlarmState::RaisedAcknowledged)
    } else if words3(w, "incoming"@, "acknowledged"@, "outgoing"@) || words3(
        w,
        "in"@,
        "ack"@,
        "out"@,
    ) || words1(w, "raisedacknowledgedcleared"@) {
        Some(AlarmState::RaisedAcknowledgedCleared)
    } else if words3(w, "incoming"@, "outgoing"@, "acknowledged"@) || words3(
        w,
        "in"@,
        "out"@,
        "ack"@,
    ) || words1(w, "raisedclearedacknowledged"@) {
        Some(AlarmState::RaisedClearedAcknowledged)
    } else if words1(w, "removed"@) {
        Some(AlarmState::Removed)
    } else {
        None
    }
}

/// The state with a given number on the wire.
pub open spec fn state_of_code(n: u32) -> Option<AlarmState> {
    if n == 0 {
        Some(AlarmState::Normal)
    } else if n == 1 {
        Some(AlarmState::Raised)
    } else if n == 2 {
        Some(AlarmState::RaisedCleared)
    } else if n == 5 {
        Some(AlarmState::RaisedAcknowledged)
    } else if n == 6 {
        Some(AlarmState::RaisedAcknowledgedCleared)
    } else if n == 7 {
        Some(AlarmState::RaisedClearedAcknowledged)
    } else if n == 8 {
        Some(AlarmState::Removed)
    } else {
        None
    }
}

/// The state that a text names: by its number where the text is a number,
/// else by its words, in any letter case.
pub open spec fn state_of_text(s: Seq<char>) -> Option<AlarmState> {
    match spec_parse_u32(s) {
        Some(n) => state_of_code(n),
        None => state_of_words(split_words(lowercase(s))),
    }
}

/// The message for a text that names no state.
pub open spec fn state_error_text(s: Seq<char>) -> Seq<char> {
    match spec_parse_u32(s) {
        Some(n) => "Integer "@ + decimal_text(n as int) + " is not a valid alarm state"@,
        None => "String \""@ + s + "\" is not a valid alarm state"@,
    }
}

/// The views of a list of character vectors.
pub open spec fn views_of(pieces: Seq<Vec<char>>) -> Seq<Seq<char>> {
    Seq::new(pieces.len(), |i: int| pieces[i]@)
}

/// Splits a text at its separator characters.
fn split_at_separators(v: &Vec<char>) -> (pieces: Vec<Vec<char>>)
    ensures
        views_of(pieces@) == split_words(v@),
{
    let mut done: Vec<Vec<char>> = Vec::new();
    let mut current: Vec<char> = Vec::new();
    let mut i: usize = 0;
    proof {
        assert(v@.take(0) =~= Seq::<char>::empty());
        assert(views_of(done@).push(current@) =~= split_words(v@.take(0)));
    }
    while i < v.len()
        invariant
            i <= v.len(),
            views_of(done@).push(current@) == split_words(v@.take(i as int)),
        decreases v.len() - i,
    {
        let c = v[i];
        let ghost before = v@.take(i as int);
        let ghost after = v@.take(i + 1);
        proof {
            assert(after.drop_last() =~= before);
            assert(after.last() == c);
        }
        if c == ' ' || c == ',' || c == '/' {
            let ghost old_done = done@;
            let ghost old_current = current@;
            done.push(current);
            current = Vec::new();
            proof {
                assert(views_of(done@) =~= views_of(old_done).push(old_current));
                assert(views_of(done@).push(current@) =~= split_words(after));
            }
        } else {
            let ghost old_current = current@;
            current.push(c);
            proof {
                let w = views_of(done@).push(old_current);
                assert(w.drop_last() =~= views_of(done@));
                assert(w.last() == old_current);
                assert(views_of(done@).push(current@) =~= split_words(after));
            }
        }
        i += 1;
    }
    let ghost old_done = done@;
    done.push(current);
    proof {
        assert(v@.take(v@.len() as int) =~= v@);
        assert(views_of(done@) =~= views_of(old_done).push(current@));
    }
    done
}

/// Whether a piece holds exactly the characters of `word`.
fn piece_is(pieces: &Vec<Vec<char>>, index: usize, word: &str) -> (r: bool)
    ensures
        r == (index < pieces.len() && views_of(pieces@)[index as int] == word@),
{
    if index >= pieces.len() {
        return false;
    }
    let w = str_to_chars(word);
    let p = &pieces[index];
    if p.len() != w.len() {
        return false;
    }
    let mut i: usize = 0;
    while i < p.len()
        invariant
            i <= p.len(),
            p.len() == w.len(),
            p@.take(i as int) == w@.take(i as int),
            index < pieces.len(),
            p@ == views_of(pieces@)[index as int],
            w@ == word@,
        decreases p.len() - i,
    {
        if p[i] != w[i] {
            assert(p@[i as int] != w@[i as int]);
            return false;
        }
        proof {
            assert(p@.take(i + 1) =~= p@.take(i as int).push(p@[i as int]));
            assert(w@.take(i + 1) =~= w@.take(i as int).push(w@[i as int]));
        }
        i += 1;
    }
    proof {
        assert(p@.take(p@.len() as int) =~= p@);
        assert(w@.take(w@.len() as int) =~= w@);
    }
    true
}

fn is_words1(pieces: &Vec<Vec<char>>, a: &str) -> (r: bool)
    ensures
        r == words1(views_of(pieces@), a@),
{
    pieces.len() == 1 && piece_is(pieces, 0, a)
}

fn is_words2(pieces: &Vec<Vec<char>>, a: &str, b: &str) -> (r: bool)
    ensures
        r == words2(views_of(pieces@), a@, b@),
{
    pieces.len() == 2 && piece_is(pieces, 0, a) && piece_is(pieces, 1, b)
}

fn is_words3(pieces: &Vec<Vec<char>>, a: &str, b: &str, c: &str) -> (r: bool)
    ensures
        r == words3(views_of(pieces@), a@, b@, c@),
{
    pieces.len() == 3 && piece_is(pieces, 0, a) && piece_is(pieces, 1, b) && piece_is(
        pieces,
        2,
        c,
    )
}

impl AlarmState {
    /// The canonical name of the state.
    pub open spec fn name(self) -> Seq<char> {
        match self {
            AlarmState::Normal => "Normal"@,
            AlarmState::Raised => "Raised"@,
            AlarmState::RaisedCleared => "RaisedCleared"@,
            AlarmState::RaisedAcknowledged => "RaisedAcknowledged"@,
            AlarmState::RaisedAcknowledgedCleared => "RaisedAcknowledgedCleared"@,
            AlarmState::RaisedClearedAcknowledged => "RaisedClearedAcknowledged"@,
            AlarmState::Removed => "Removed"@,
        }
    }

    /// The number of the state on the wire.
    pub open spec fn spec_code(self) -> u32 {
        match self {
            AlarmState::Normal => 0,
            AlarmState::Raised => 1,
            AlarmState::RaisedCleared => 2,
            AlarmState::RaisedAcknowledged => 5,
            AlarmState::RaisedAcknowledgedCleared => 6,
            AlarmState::RaisedClearedAcknowledged => 7,
            AlarmState::Removed => 8,
        }
    }

    /// The number of the state on the wire.
    pub fn code(&self) -> (n: u32)
        ensures
            n == self.spec_code(),
    {
        match self {
            AlarmState::Normal => 0,
            AlarmState::Raised => 1,
            AlarmState::RaisedCleared => 2,
            AlarmState::RaisedAcknowledged => 5,
            AlarmState::RaisedAcknowledgedCleared => 6,
            AlarmState::RaisedClearedAcknowledged => 7,
            AlarmState::Removed => 8,
        }
    }

    /// The state with the given number, if there is one.
    pub fn from_code(n: u32) -> (r: Option<AlarmState>)
        ensures
            r == state_of_code(n),
    {
        if n == 0 {
            Some(AlarmState::Normal)
        } else if n == 1 {
            Some(AlarmState::Raised)
        } else if n == 2 {
            Some(AlarmState::RaisedCleared)
        } else if n == 5 {
            Some(AlarmState::RaisedAcknowledged)
        } else if n == 6 {
            Some(AlarmState::RaisedAcknowledgedCleared)
        } else if n == 7 {
            Some(AlarmState::RaisedClearedAcknowledged)
        } else if n == 8 {
            Some(AlarmState::Removed)
        } else {
            None
        }
    }

    /// The canonical name of the state.
    pub fn as_str(&self) -> (s: &'static str)
        ensures
            s@ == self.name(),
    {
        match self {
            AlarmState::Normal => "Normal",
            AlarmState::Raised => "Raised",
            AlarmState::RaisedCleared => "RaisedCleared",
            AlarmState::RaisedAcknowledged => "RaisedAcknowledged",
            AlarmState::RaisedAcknowledgedCleared => "RaisedAcknowledgedCleared",
            AlarmState::RaisedClearedAcknowledged => "RaisedClearedAcknowledged",
            AlarmState::Removed => "Removed",
        }
    }

    /// Reads a state from its number, its canonical name or its description
    /// in words (`in`, `ack`, `out` or `incoming`, `acknowledged`,
    /// `outgoing`, separated by a space, a comma or a slash). Letter case is
    /// ignored.
    pub fn from_str(s: &str) -> (r: Result<AlarmState, AlarmStateError>)
        ensures
            match r {
                Ok(state) => state_of_text(s@) == Some(state),
                Err(e) => state_of_text(s@) is None && e.0@ == state_error_text(s@),
            },
    {
        match parse_u32(s) {
            Some(n) => {
                match AlarmState::from_code(n) {
                    Some(state) => Ok(state),
                    None => {
                        let mut msg = "Integer ".to_owned();
                        let digits = u64_to_string(n as u64);
                        msg.append(digits.as_str());
                        msg.append(" is not a valid alarm state");
                        Err(AlarmStateError(msg))
                    },
                }
            },
            None => {
                let lower = to_lowercase(s);
                let chars = str_to_chars(lower.as_str());
                let w = split_at_separators(&chars);
                if is_words1(&w, "normal") {
                    Ok(AlarmState::Normal)
                } else if is_words1(&w, "incoming") || is_words1(&w, "in") || is_words1(
                    &w,
                    "raised",
                ) {
                    Ok(AlarmState::Raised)
                } else if is_words2(&w, "incoming", "outgoing") || is_words2(&w, "in", "out")
                    || is_words1(&w, "raisedcleared") {
                    Ok(AlarmState::RaisedCleared)
                } else if is_words2(&w, "incoming", "acknowledged") || is_words2(&w, "in", "ack")
                    || is_words1(&w, "raisedacknowledged") {
                    Ok(AlarmState::RaisedAcknowledged)
                } else if is_words3(&w, "incoming", "acknowledged", "outgoing") || is_words3(
                    &w,
                    "in",
                    "ack",
                    "out",
                ) || is_words1(&w, "raisedacknowledgedcleared") {
                    Ok(AlarmState::RaisedAcknowledgedCleared)
                } else if is_words3(&w, "incoming", "outgoing", "acknowledged") || is_words3(
                    &w,
                    "in",
                    "out",
                    "ack",
                ) || is_words1(&w, "raisedclearedacknowledged") {
                    Ok(AlarmState::RaisedClearedAcknowledged)
                } else if is_words1(&w, "removed") {
                    Ok(AlarmState::Removed)
                } else {
                    let mut msg = "String \"".to_owned();
                    msg.append(s);
                    msg.append("\" is not a valid alarm state");
                    Err(AlarmStateError(msg))
                }
            },
        }
    }
}

impl std::str::FromStr for AlarmState {
    type Err = AlarmStateError;

    fn from_str(s: &str) -> (r: Result<AlarmState, AlarmStateError>)
        ensures
            match r {
                Ok(state) => state_of_text(s@) == Some(state),
                Err(e) => state_of_text(s@) is None && e.0@ == state_error_text(s@),
            },
    {
        AlarmState::from_str(s)
    }
}

/// A text field of an alarm record that a filter can test.
#[derive(Debug, Clone, Copy, PartialEq, Eq, Structural)]
pub enum StringCriterion {
    AlarmClassName,
    AlarmName,
}

impl StringCriterion {
    /// The value of the field in an alarm record.
    pub open spec fn value(self, alarm: &AlarmData) -> Seq<char> {
        match self {
            StringCriterion::AlarmClassName => alarm.alarm_class_name@,
            StringCriterion::AlarmName => alarm.name@,
        }
    }

    /// The name of the field in the filter language.
    pub open spec fn name(self) -> Seq<char> {
        match self {
            StringCriterion::AlarmClassName => "AlarmClassName"@,
            StringCriterion::AlarmName => "Name"@,
        }
    }

    /// The value of the field in an alarm record.
    pub fn evaluate<'a>(&self, alarm: &'a AlarmData) -> (r: &'a str)
        ensures
            r@ == self.value(alarm),
    {
        match self {
            StringCriterion::AlarmClassName => alarm.alarm_class_name.as_str(),
            StringCriterion::AlarmName => alarm.name.as_str(),
        }
    }

    /// The name of the field in the filter language.
    pub fn as_str(&self) -> (r: &'static str)
        ensures
            r@ == self.name(),
    {
        match self {
            StringCriterion::AlarmClassName => "AlarmClassName",
            StringCriterion::AlarmName => "Name",
        }
    }
}

/// A numeric field of an alarm record that a filter can test.
#[derive(Debug, Clone, Copy, PartialEq, Eq, Structural)]
pub enum IntCriterion {
    Id,
    InstanceId,
    Priority,
    AlarmState,
}

impl IntCriterion {
    /// The value of the field in an alarm record.
    pub open spec fn value(self, alarm: &AlarmData) -> i32 {
        match self {
            IntCriterion::Id => alarm.id,
            IntCriterion::InstanceId => alarm.instance_id,
            IntCriterion::Priority => alarm.priority,
            IntCriterion::AlarmState => alarm.state,
        }
    }

    /// The name of the field in the filter language.
    pub open spec fn name(self) -> Seq<char> {
        match self {
            IntCriterion::Id => "ID"@,
            IntCriterion::InstanceId => "InstanceID"@,
            IntCriterion::Priority => "Priority"@,
            IntCriterion::AlarmState => "State"@,
        }
    }

    /// The value of the field in an alarm record.
    pub fn evaluate(&self, alarm: &AlarmData) -> (r: i32)
        ensures
            r == self.value(alarm),
    {
        match self {
            IntCriterion::Id => alarm.id,
            IntCriterion::InstanceId => alarm.instance_id,
            IntCriterion::Priority => alarm.priority,
            IntCriterion::AlarmState => alarm.state,
        }
    }

    /// The name of the field in the filter language.
    pub fn as_str(&self) -> (r: &'static str)
        ensures
            r@ == self.name(),
    {
        match self {
            IntCriterion::Id => "ID",
            IntCriterion::InstanceId => "InstanceID",
            IntCriterion::Priority => "Priority",
            IntCriterion::AlarmState => "State",
        }
    }
}

/// A filter expression.
#[derive(Debug)]
pub enum BoolOp {
    Not(Box<BoolOp>),
    And(Box<BoolOp>, Box<BoolOp>),
    Or(Box<BoolOp>, Box<BoolOp>),
    StringEqual(StringCriterion, String),
    StateEqual(IntCriterion, AlarmState),
    IntEqual(IntCriterion, i32),
    IntLess(IntCriterion, i32),
    IntLessEqual(IntCriterion, i32),
}

/// A filter expression as a mathematical value: the model of `BoolOp`.
pub enum BoolExpr {
    Not(Box<BoolExpr>),
    And(Box<BoolExpr>, Box<BoolExpr>),
    Or(Box<BoolExpr>, Box<BoolExpr>),
    StringEqual(StringCriterion, Seq<char>),
    StateEqual(IntCriterion, AlarmState),
    IntEqual(IntCriterion, i32),
    IntLess(IntCriterion, i32),
    IntLessEqual(IntCriterion, i32),
}

impl BoolExpr {
    /// Whether an alarm record satisfies the expression.
    pub open spec fn matches(self, alarm: &AlarmData) -> bool
        decreases self,
    {
        match self {
            BoolExpr::Not(a) => !a.matches(alarm),
            BoolExpr::And(a, b) => a.matches(alarm) && b.matches(alarm),
            BoolExpr::Or(a, b) => a.matches(alarm) || b.matches(alarm),
            BoolExpr::StringEqual(c, v) => c.value(alarm) == v,
            BoolExpr::StateEqual(c, state) => c.value(alarm) == state.spec_code(),
            BoolExpr::IntEqual(c, v) => c.value(alarm) == v,
            BoolExpr::IntLess(c, v) => c.value(alarm) < v,
            BoolExpr::IntLessEqual(c, v) => c.value(alarm) <= v,
        }
    }

    /// The canonical text of the expression: every operand of `NOT`, `AND`
    /// and `OR` stands in parentheses, a comparison has one space on each
    /// side of its operator, and a single quote in a text that is compared
    /// with is written twice.
    pub open spec fn render(self) -> Seq<char>
        decreases self,
    {
        match self {
            BoolExpr::Not(a) => "NOT ("@ + a.render() + ")"@,
            BoolExpr::And(a, b) => "("@ + a.render() + ") AND ("@ + b.render() + ")"@,
            BoolExpr::Or(a, b) => "("@ + a.render() + ") OR ("@ + b.render() + ")"@,
            BoolExpr::StringEqual(c, v) => c.name() + " = '"@ + doubled(v) + "'"@,
            BoolExpr::StateEqual(c, state) => c.name() + " = '"@ + state.name() + "'"@,
            BoolExpr::IntEqual(c, v) => c.name() + " = "@ + decimal_text(v as int),
            BoolExpr::IntLess(c, v) => c.name() + " < "@ + decimal_text(v as int),
            BoolExpr::IntLessEqual(c, v) => c.name() + " <= "@ + decimal_text(v as int),
        }
    }
}

/// A text with every single quote in it written twice: the form in which
/// the text stands between the quotes of a filter.
pub open spec fn doubled(v: Seq<char>) -> Seq<char>
    decreases v.len(),
{
    if v.len() == 0 {
        Seq::empty()
    } else if v.last() == '\'' {
        doubled(v.drop_last()) + seq!['\'', '\'']
    } else {
        doubled(v.drop_last()).push(v.last())
    }
}

/// What stands for one character between the quotes of a filter.
pub open spec fn doubled_char(c: char) -> Seq<char> {
    if c == '\'' {
        seq!['\'', '\'']
    } else {
        seq![c]
    }
}

/// The doubled text begins with what stands for the first character.
pub proof fn lemma_doubled_front(v: Seq<char>)
    requires
        v.len() > 0,
    ensures
        doubled(v) == doubled_char(v[0]) + doubled(v.skip(1)),
    decreases v.len(),
{
    if v.len() == 1 {
        assert(v.drop_last() =~= Seq::empty());
        assert(v.skip(1) =~= Seq::empty());
        assert(doubled(v) =~= doubled_char(v[0]) + doubled(v.skip(1)));
    } else {
        let front = v.drop_last();
        lemma_doubled_front(front);
        assert(front[0] == v[0]);
        assert(v.skip(1).drop_last() =~= front.skip(1));
        assert(v.skip(1).last() == v.last());
        assert(doubled(v) =~= doubled_char(v[0]) + doubled(v.skip(1)));
    }
}

/// A text without a single quote stands between the quotes as it is.
pub proof fn lemma_doubled_plain(v: Seq<char>)
    requires
        !v.contains('\''),
    ensures
        doubled(v) == v,
    decreases v.len(),
{
    if v.len() > 0 {
        assert(v.last() != '\'') by {
            if v.last() == '\'' {
                assert(v[v.len() - 1] == '\'');
            }
        }
        assert(!v.drop_last().contains('\'')) by {
            if v.drop_last().contains('\'') {
                let i = choose|i: int| 0 <= i < v.drop_last().len() && v.drop_last()[i] == '\'';
                assert(v[i] == '\'');
            }
        }
        lemma_doubled_plain(v.drop_last());
        assert(v.drop_last().push(v.last()) =~= v);
    } else {
        assert(v =~= Seq::empty());
    }
}

/// Appends a text to a string, with every single quote in it written
/// twice.
fn push_doubled(s: &mut String, v: &str)
    ensures
        final(s)@ == old(s)@ + doubled(v@),
{
    let chars = str_to_chars(v);
    let mut i: usize = 0;
    proof {
        assert(chars@.take(0) =~= Seq::empty());
        assert(s@ =~= old(s)@ + doubled(chars@.take(0)));
    }
    while i < chars.len()
        invariant
            i <= chars.len(),
            chars@ == v@,
            s@ == old(s)@ + doubled(chars@.take(i as int)),
        decreases chars.len() - i,
    {
        let c = chars[i];
        proof {
            assert(chars@.take(i + 1).drop_last() =~= chars@.take(i as int));
            assert(chars@.take(i + 1).last() == c);
        }
        let ghost before = s@;
        if c == '\'' {
            s.push('\'');
            s.push('\'');
            proof {
                assert(s@ =~= before + seq!['\'', '\'']);
                assert(s@ =~= old(s)@ + doubled(chars@.take(i + 1)));
            }
        } else {
            s.push(c);
            proof {
                assert(s@ =~= old(s)@ + doubled(chars@.take(i + 1)));
            }
        }
        i += 1;
    }
    proof {
        assert(chars@.take(chars@.len() as int) =~= chars@);
    }
}

impl View for BoolOp {
    type V = BoolExpr;

    open spec fn view(&self) -> BoolExpr
        decreases self,
    {
        match self {
            BoolOp::Not(a) => BoolExpr::Not(Box::new((**a).view())),
            BoolOp::And(a, b) => BoolExpr::And(Box::new((**a).view()), Box::new((**b).view())),
            BoolOp::Or(a, b) => BoolExpr::Or(Box::new((**a).view()), Box::new((**b).view())),
            BoolOp::StringEqual(c, v) => BoolExpr::StringEqual(*c, v@),
            BoolOp::StateEqual(c, state) => BoolExpr::StateEqual(*c, *state),
            BoolOp::IntEqual(c, v) => BoolExpr::IntEqual(*c, *v),
            BoolOp::IntLess(c, v) => BoolExpr::IntLess(*c, *v),
            BoolOp::IntLessEqual(c, v) => BoolExpr::IntLessEqual(*c, *v),
        }
    }
}

impl BoolOp {
    /// Whether an alarm record satisfies the filter.
    pub fn evaluate(&self, alarm: &AlarmData) -> (r: bool)
        ensures
            r == self@.matches(alarm),
        decreases self,
    {
        match self {
            BoolOp::Not(a) => !a.evaluate(alarm),
            BoolOp::And(a, b) => a.evaluate(alarm) && b.evaluate(alarm),
            BoolOp::Or(a, b) => a.evaluate(alarm) || b.evaluate(alarm),
            BoolOp::StringEqual(c, v) => same_str(c.evaluate(alarm), v.as_str()),
            BoolOp::StateEqual(c, state) => {
                let code = state.code();
                c.evaluate(alarm) == code as i32
            },
            BoolOp::IntEqual(c, v) => c.evaluate(alarm) == *v,
            BoolOp::IntLess(c, v) => c.evaluate(alarm) < *v,
            BoolOp::IntLessEqual(c, v) => c.evaluate(alarm) <= *v,
        }
    }

    /// The canonical text of the filter.
    pub fn to_string(&self) -> (s: String)
        ensures
            s@ == self@.render(),
        decreases self,
    {
        match self {
            BoolOp::Not(a) => {
                let mut s = "NOT (".to_owned();
                let inner = a.to_string();
                s.append(inner.as_str());
                s.append(")");
                s
            },
            BoolOp::And(a, b) => {
                let mut s = "(".to_owned();
                let left = a.to_string();
                let right = b.to_string();
                s.append(left.as_str());
                s.append(") AND (");
                s.append(right.as_str());
                s.append(")");
                s
            },
            BoolOp::Or(a, b) => {
                let mut s = "(".to_owned();
                let left = a.to_string();
                let right = b.to_string();
                s.append(left.as_str());
                s.append(") OR (");
                s.append(right.as_str());
                s.append(")");
                s
            },
            BoolOp::StringEqual(c, v) => {
                let mut s = c.as_str().to_owned();
                s.append(" = '");
                push_doubled(&mut s, v.as_str());
                s.append("'");
                s
            },
            BoolOp::StateEqual(c, state) => {
                let mut s = c.as_str().to_owned();
                s.append(" = '");
                s.append(state.as_str());
                s.append("'");
                s
            },
            BoolOp::IntEqual(c, v) => {
                let mut s = c.as_str().to_owned();
                s.append(" = ");
                let digits = i64_to_string(*v as i64);
                s.append(digits.as_str());
                s
            },
            BoolOp::IntLess(c, v) => {
                let mut s = c.as_str().to_owned();
                s.append(" < ");
                let digits = i64_to_string(*v as i64);
                s.append(digits.as_str());
                s
            },
            BoolOp::IntLessEqual(c, v) => {
                let mut s = c.as_str().to_owned();
                s.append(" <= ");
                let digits = i64_to_string(*v as i64);
                s.append(digits.as_str());
                s
            },
        }
    }

    /// A copy of the filter.
    pub fn duplicate(&self) -> (r: BoolOp)
        ensures
            r@ == self@,
        decreases self,
    {
        match self {
            BoolOp::Not(a) => BoolOp::Not(Box::new(a.duplicate())),
            BoolOp::And(a, b) => BoolOp::And(Box::new(a.duplicate()), Box::new(b.duplicate())),
            BoolOp::Or(a, b) => BoolOp::Or(Box::new(a.duplicate()), Box::new(b.duplicate())),
            BoolOp::StringEqual(c, v) => BoolOp::StringEqual(*c, v.clone()),
            BoolOp::StateEqual(c, state) => BoolOp::StateEqual(*c, *state),
            BoolOp::IntEqual(c, v) => BoolOp::IntEqual(*c, *v),
            BoolOp::IntLess(c, v) => BoolOp::IntLess(*c, *v),
            BoolOp::IntLessEqual(c, v) => BoolOp::IntLessEqual(*c, *v),
        }
    }
}

impl Clone for BoolOp {
    fn clone(&self) -> (r: BoolOp)
        ensures
            r@ == self@,
    {
        self.duplicate()
    }
}


/// A text without separator characters is a single piece.
pub proof fn lemma_split_single(s: Seq<char>)
    requires
        forall|i: int| 0 <= i < s.len() ==> !is_separator(#[trigger] s[i]),
    ensures
        split_words(s) == seq![s],
    decreases s.len(),
{
    if s.len() == 0 {
        assert(s =~= Seq::<char>::empty());
        assert(split_words(s) =~= seq![s]);
    } else {
        let t = s.drop_last();
        assert forall|i: int| 0 <= i < t.len() implies !is_separator(#[trigger] t[i]) by {
            assert(t[i] == s[i]);
        }
        lemma_split_single(t);
        assert(!is_separator(s.last()));
        let before = split_words(t);
        assert(before.last() == t);
        assert(t.push(s.last()) =~= s);
        assert(before.drop_last().push(before.last().push(s.last())) =~= seq![s]);
    }
}

/// Reading the canonical name of a state gives the state back.
pub proof fn lemma_state_name_round_trip(state: AlarmState)
    ensures
        state_of_text(state.name()) == Some(state),
{
    reveal_strlit("Normal");
    reveal_strlit("Raised");
    reveal_strlit("RaisedCleared");
    reveal_strlit("RaisedAcknowledged");
    reveal_strlit("RaisedAcknowledgedCleared");
    reveal_strlit("RaisedClearedAcknowledged");
    reveal_strlit("Removed");
    reveal_strlit("normal");
    reveal_strlit("raised");
    reveal_strlit("raisedcleared");
    reveal_strlit("raisedacknowledged");
    reveal_strlit("raisedacknowledgedcleared");
    reveal_strlit("raisedclearedacknowledged");
    reveal_strlit("removed");
    reveal_strlit("incoming");
    reveal_strlit("in");
    let name = state.name();
    assert(name.len() > 0);
    assert(spec_parse_u32(name) is None) by {
        assert(name[0] != '+' && name[0] != '-');
        assert(!crate::text::is_digit(name[0]));
    }
    assert(crate::text::all_ascii(name)) by {
        assert forall|i: int| 0 <= i < name.len() implies (#[trigger] name[i] as u32) < 128 by {
            lemma_name_letters(state, i);
        }
    }
    let lower = lowercase(name);
    assert(lower == crate::text::ascii_lower(name));
    assert(lower.len() == name.len());
    assert forall|i: int| 0 <= i < lower.len() implies !is_separator(#[trigger] lower[i]) by {
        lemma_name_letters(state, i);
    }
    lemma_split_single(lower);
    let w = split_words(lower);
    assert(w.len() == 1 && w[0] == lower);
    match state {
        AlarmState::Normal => {
            assert(lower =~= "normal"@);
        },
        AlarmState::Raised => {
            assert(lower =~= "raised"@);
            assert(lower[0] != "normal"@[0]);
        },
        AlarmState::RaisedCleared => {
            assert(lower =~= "raisedcleared"@);
        },
        AlarmState::RaisedAcknowledged => {
            assert(lower =~= "raisedacknowledged"@);
        },
        AlarmState::RaisedAcknowledgedCleared => {
            assert(lower =~= "raisedacknowledgedcleared"@);
        },
        AlarmState::RaisedClearedAcknowledged => {
            assert(lower =~= "raisedclearedacknowledged"@);
            assert(lower[6] != "raisedacknowledgedcleared"@[6]);
        },
        AlarmState::Removed => {
            assert(lower =~= "removed"@);
        },
    }
    assert(state_of_words(w) == Some(state));
}

/// Every character of a canonical state name is an ASCII letter.
pub proof fn lemma_name_letters(state: AlarmState, i: int)
    requires
        0 <= i < state.name().len(),
    ensures
        ('a' <= state.name()[i] <= 'z') || ('A' <= state.name()[i] <= 'Z'),
{
    reveal_strlit("Normal");
    reveal_strlit("Raised");
    reveal_strlit("RaisedCleared");
    reveal_strlit("RaisedAcknowledged");
    reveal_strlit("RaisedAcknowledgedCleared");
    reveal_strlit("RaisedClearedAcknowledged");
    reveal_strlit("Removed");
}

} // verus!
