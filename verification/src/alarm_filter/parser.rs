//! The grammar of alarm filters, and the parser that follows it.
//!
//! ```text
//! or        := and ("OR" and)*
//! and       := not ("AND" not)*
//! not       := "NOT" arg | arg
//! arg       := "(" or ")" | criterion
//! criterion := state | int | string
//! state     := "State" ("=" | "!=") ("'" words "'" | digits)
//! int       := name ("=" | "!=" | "<" | "<=" | ">" | ">=") integer
//! string    := name ("=" | "!=") "'" text "'"
//! ```
//!
//! The grammar is stated by the `spec_*` functions over the characters of the
//! input and a position in it. Each parsing function returns what the
//! function of the same name states.
use crate::alarm_filter::{
    state_error_text, state_of_text, AlarmState, AlarmStateError, BoolExpr, BoolOp, IntCriterion,
    StringCriterion,
};
use crate::text::{chars_to_string, digits_value, is_digit, read_digits, same_str, str_to_chars};
use vstd::prelude::*;
use vstd::string::*;

verus! {

/// The elementary mismatches that end an attempt to read part of a filter.
#[derive(Debug, Clone, Copy, PartialEq, Eq, Structural)]
pub enum ErrorKind {
    /// A fixed word or sign was expected.
    Tag,
    /// The filter should have ended.
    Eof,
    /// A letter was expected.
    Alpha,
    /// A number was expected, or the number is out of range.
    Digit,
    /// A quote was expected.
    Char,
}

/// Why a filter text was rejected.
#[derive(Debug)]
pub enum FilterErrorKind {
    InvalidCriterionName(String),
    IllegalCheckOperation(String),
    InvalidState(String),
    Nom(ErrorKind),
    Error(AlarmStateError),
}

/// The model of `FilterErrorKind`.
pub enum Reason {
    InvalidCriterionName(Seq<char>),
    IllegalCheckOperation(Seq<char>),
    InvalidState(Seq<char>),
    Nom(ErrorKind),
    Error(Seq<char>),
}

impl View for FilterErrorKind {
    type V = Reason;

    open spec fn view(&self) -> Reason {
        match self {
            FilterErrorKind::InvalidCriterionName(n) => Reason::InvalidCriterionName(n@),
            FilterErrorKind::IllegalCheckOperation(n) => Reason::IllegalCheckOperation(n@),
            FilterErrorKind::InvalidState(n) => Reason::InvalidState(n@),
            FilterErrorKind::Nom(k) => Reason::Nom(*k),
            FilterErrorKind::Error(e) => Reason::Error(e.0@),
        }
    }
}

/// A rejected filter: the rest of the input at the point of the error, and
/// what was wrong there.
#[derive(Debug)]
pub struct FilterError {
    pub input: String,
    pub kind: FilterErrorKind,
}

/// What the grammar says of an attempt to read something at a position:
/// a value and the number of characters it took, an error that lets an
/// alternative be tried, or a failure that ends the whole parse.
pub enum Outcome<T> {
    Done { value: T, len: nat },
    Error { at: int, reason: Reason },
    Failure { at: int, reason: Reason },
}

/// What the grammar says of a repetition: it never gives up with an error,
/// it ends before the first item that cannot be read.
pub enum TailOutcome {
    Done { value: Option<BoolExpr>, next: int },
    Failure { at: int, reason: Reason },
}

/// What a parsing function returns: a value and the position after it, or a
/// position and the kind of the error or failure.
pub enum Parsed<T> {
    Done { value: T, next: usize },
    Error { at: usize, kind: FilterErrorKind },
    Failure { at: usize, kind: FilterErrorKind },
}

impl<T: View> Parsed<T> {
    /// The result of a parsing function started at `pos` is what the grammar
    /// states.
    pub open spec fn agrees(self, o: Outcome<T::V>, pos: int) -> bool {
        match self {
            Parsed::Done { value, next } => o == (Outcome::Done {
                value: value@,
                len: (next - pos) as nat,
            }) && next >= pos,
            Parsed::Error { at, kind } => o == (Outcome::<T::V>::Error {
                at: at as int,
                reason: kind@,
            }),
            Parsed::Failure { at, kind } => o == (Outcome::<T::V>::Failure {
                at: at as int,
                reason: kind@,
            }),
        }
    }
}

/// The characters left of a text from a position on; at most the length
/// of the text.
pub open spec fn remaining(s: Seq<char>, pos: int) -> nat {
    if pos <= s.len() {
        (s.len() - pos) as nat
    } else {
        0
    }
}

pub open spec fn is_space(c: char) -> bool {
    c == ' ' || c == '\t' || c == '\r' || c == '\n'
}

pub open spec fn is_alpha(c: char) -> bool {
    ('a' <= c <= 'z') || ('A' <= c <= 'Z')
}

/// The number of white space characters from `pos` on.
pub open spec fn ws_len(s: Seq<char>, pos: int) -> nat
    decreases remaining(s, pos),
{
    if 0 <= pos < s.len() && is_space(s[pos]) {
        1 + ws_len(s, pos + 1)
    } else {
        0
    }
}

/// The number of ASCII letters from `pos` on.
pub open spec fn alpha_len(s: Seq<char>, pos: int) -> nat
    decreases remaining(s, pos),
{
    if 0 <= pos < s.len() && is_alpha(s[pos]) {
        1 + alpha_len(s, pos + 1)
    } else {
        0
    }
}

/// The number of decimal digits from `pos` on.
pub open spec fn digit_len(s: Seq<char>, pos: int) -> nat
    decreases remaining(s, pos),
{
    if 0 <= pos < s.len() && is_digit(s[pos]) {
        1 + digit_len(s, pos + 1)
    } else {
        0
    }
}

/// The text `t` stands in `s` at `pos`.
pub open spec fn has_at(s: Seq<char>, pos: int, t: Seq<char>) -> bool {
    0 <= pos && pos + t.len() <= s.len() && s.subrange(pos, pos + t.len()) == t
}

/// An error of an elementary kind.
pub open spec fn mismatch<T>(at: int, kind: ErrorKind) -> Outcome<T> {
    Outcome::Error { at, reason: Reason::Nom(kind) }
}

/// The inside of a quoted text from `pos` on, appended to `acc`, and the
/// position where it ends: before a quote that is not doubled, or at the
/// end of the input. Two quotes in a row stand for one.
pub open spec fn literal_body(s: Seq<char>, pos: int, acc: Seq<char>) -> (Seq<char>, int)
    decreases remaining(s, pos),
{
    if 0 <= pos < s.len() && s[pos] != '\'' {
        literal_body(s, pos + 1, acc.push(s[pos]))
    } else if 0 <= pos && pos + 1 < s.len() && s[pos] == '\'' && s[pos + 1] == '\'' {
        literal_body(s, pos + 2, acc.push('\''))
    } else {
        (acc, pos)
    }
}

/// A text in single quotes.
#[verifier::opaque]
pub open spec fn spec_string_literal(s: Seq<char>, pos: int) -> Outcome<Seq<char>> {
    if !(0 <= pos < s.len() && s[pos] == '\'') {
        mismatch(pos, ErrorKind::Char)
    } else {
        let (text, end) = literal_body(s, pos + 1, Seq::empty());
        if 0 <= end < s.len() && s[end] == '\'' {
            Outcome::Done { value: text, len: (end + 1 - pos) as nat }
        } else {
            mismatch(end, ErrorKind::Char)
        }
    }
}

/// A decimal integer with an optional sign that fits 32 bits.
#[verifier::opaque]
pub open spec fn spec_number(s: Seq<char>, pos: int) -> Outcome<i32> {
    let negative = has_at(s, pos, seq!['-']);
    let sign_len: int = if negative || has_at(s, pos, seq!['+']) {
        1
    } else {
        0
    };
    let d = digit_len(s, pos + sign_len);
    let magnitude = digits_value(s.subrange(pos + sign_len, pos + sign_len + d));
    let value = if negative {
        -magnitude
    } else {
        magnitude
    };
    if d == 0 || value < i32::MIN || value > i32::MAX {
        mismatch(pos, ErrorKind::Digit)
    } else {
        Outcome::Done { value: value as i32, len: (sign_len + d) as nat }
    }
}

/// The comparisons of the filter language.
#[derive(Debug, Clone, Copy, PartialEq, Eq, Structural)]
pub enum Comparison {
    Equal,
    NotEqual,
    Less,
    LessEqual,
    GreaterEqual,
    Greater,
}

/// The comparison sign of a number criterion at `pos`, and its length.
pub open spec fn int_operator(s: Seq<char>, pos: int) -> Option<(Comparison, nat)> {
    if has_at(s, pos, "!="@) {
        Some((Comparison::NotEqual, 2nat))
    } else if has_at(s, pos, "="@) {
        Some((Comparison::Equal, 1nat))
    } else if has_at(s, pos, "<="@) {
        Some((Comparison::LessEqual, 2nat))
    } else if has_at(s, pos, ">="@) {
        Some((Comparison::GreaterEqual, 2nat))
    } else if has_at(s, pos, "<"@) {
        Some((Comparison::Less, 1nat))
    } else if has_at(s, pos, ">"@) {
        Some((Comparison::Greater, 1nat))
    } else {
        None
    }
}

/// The comparison sign of a text or state criterion at `pos`, and its
/// length.
pub open spec fn equality_operator(s: Seq<char>, pos: int) -> Option<(Comparison, nat)> {
    if has_at(s, pos, "="@) {
        Some((Comparison::Equal, 1nat))
    } else if has_at(s, pos, "!="@) {
        Some((Comparison::NotEqual, 2nat))
    } else {
        None
    }
}

/// The number field with a given name.
pub open spec fn int_field(name: Seq<char>) -> Option<IntCriterion> {
    if name == "ID"@ {
        Some(IntCriterion::Id)
    } else if name == "InstanceID"@ {
        Some(IntCriterion::InstanceId)
    } else if name == "Priority"@ {
        Some(IntCriterion::Priority)
    } else {
        None
    }
}

/// The text field with a given name.
pub open spec fn string_field(name: Seq<char>) -> Option<StringCriterion> {
    if name == "AlarmClassName"@ {
        Some(StringCriterion::AlarmClassName)
    } else if name == "Name"@ {
        Some(StringCriterion::AlarmName)
    } else {
        None
    }
}

/// The expression for a comparison of a number field: `!=`, `>=` and `>`
/// are the negations of `=`, `<` and `<=`.
pub open spec fn int_comparison(op: Comparison, c: IntCriterion, v: i32) -> BoolExpr {
    match op {
        Comparison::Equal => BoolExpr::IntEqual(c, v),
        Comparison::NotEqual => BoolExpr::Not(Box::new(BoolExpr::IntEqual(c, v))),
        Comparison::Less => BoolExpr::IntLess(c, v),
        Comparison::LessEqual => BoolExpr::IntLessEqual(c, v),
        Comparison::GreaterEqual => BoolExpr::Not(Box::new(BoolExpr::IntLess(c, v))),
        Comparison::Greater => BoolExpr::Not(Box::new(BoolExpr::IntLessEqual(c, v))),
    }
}

/// An expression, negated for the comparison `!=`.
pub open spec fn negated_if(op: Comparison, e: BoolExpr) -> BoolExpr {
    if op == Comparison::NotEqual {
        BoolExpr::Not(Box::new(e))
    } else {
        e
    }
}

/// A comparison of a number field with an integer.
#[verifier::opaque]
pub open spec fn spec_int_criterion(s: Seq<char>, pos: int) -> Outcome<BoolExpr> {
    let a = alpha_len(s, pos);
    if a == 0 {
        mismatch(pos, ErrorKind::Alpha)
    } else {
        let at_op = pos + a + ws_len(s, pos + a);
        match int_operator(s, at_op) {
            None => mismatch(at_op, ErrorKind::Tag),
            Some((op, n)) => {
                let at_val = at_op + n + ws_len(s, at_op + n);
                match spec_number(s, at_val) {
                    Outcome::Done { value, len } => {
                        let name = s.subrange(pos, pos + a);
                        match int_field(name) {
                            Some(c) => Outcome::Done {
                                value: int_comparison(op, c, value),
                                len: (at_val + len - pos) as nat,
                            },
                            None => Outcome::Error {
                                at: at_val + len,
                                reason: Reason::InvalidCriterionName(name),
                            },
                        }
                    },
                    _ => mismatch(at_val, ErrorKind::Digit),
                }
            },
        }
    }
}

/// A comparison of a text field with a quoted text.
#[verifier::opaque]
pub open spec fn spec_string_criterion(s: Seq<char>, pos: int) -> Outcome<BoolExpr> {
    let a = alpha_len(s, pos);
    if a == 0 {
        mismatch(pos, ErrorKind::Alpha)
    } else {
        let at_op = pos + a + ws_len(s, pos + a);
        match equality_operator(s, at_op) {
            None => mismatch(at_op, ErrorKind::Tag),
            Some((op, n)) => {
                let at_val = at_op + n + ws_len(s, at_op + n);
                match spec_string_literal(s, at_val) {
                    Outcome::Done { value, len } => {
                        let name = s.subrange(pos, pos + a);
                        match string_field(name) {
                            Some(c) => Outcome::Done {
                                value: negated_if(op, BoolExpr::StringEqual(c, value)),
                                len: (at_val + len - pos) as nat,
                            },
                            None => Outcome::Error {
                                at: at_val + len,
                                reason: Reason::InvalidCriterionName(name),
                            },
                        }
                    },
                    Outcome::Error { at, reason } => Outcome::Error { at, reason },
                    Outcome::Failure { at, reason } => Outcome::Failure { at, reason },
                }
            },
        }
    }
}

/// A comparison of the alarm state with a state given by its name, by words
/// in quotes, or by its number. A text or number that names no state ends
/// the whole parse.
#[verifier::opaque]
pub open spec fn spec_state_criterion(s: Seq<char>, pos: int) -> Outcome<BoolExpr> {
    if !has_at(s, pos, "State"@) {
        mismatch(pos, ErrorKind::Tag)
    } else {
        let at_op = pos + "State"@.len() + ws_len(s, pos + "State"@.len());
        match equality_operator(s, at_op) {
            None => mismatch(at_op, ErrorKind::Tag),
            Some((op, n)) => {
                let at_val = at_op + n + ws_len(s, at_op + n);
                let quoted = spec_string_literal(s, at_val);
                let d = digit_len(s, at_val);
                if !(quoted is Done) && d == 0 {
                    mismatch(at_val, ErrorKind::Digit)
                } else {
                    let text = if quoted is Done {
                        quoted->value
                    } else {
                        s.subrange(at_val, at_val + d)
                    };
                    let len = if quoted is Done {
                        quoted->len
                    } else {
                        d
                    };
                    match state_of_text(text) {
                        Some(state) => Outcome::Done {
                            value: negated_if(
                                op,
                                BoolExpr::StateEqual(IntCriterion::AlarmState, state),
                            ),
                            len: (at_val + len - pos) as nat,
                        },
                        None => Outcome::Failure {
                            at: at_val + len,
                            reason: Reason::Error(state_error_text(text)),
                        },
                    }
                }
            },
        }
    }
}

/// A criterion: a state, number or text comparison, tried in this order.
#[verifier::opaque]
pub open spec fn spec_criterion(s: Seq<char>, pos: int) -> Outcome<BoolExpr> {
    match spec_state_criterion(s, pos) {
        Outcome::Error { .. } => match spec_int_criterion(s, pos) {
            Outcome::Error { .. } => spec_string_criterion(s, pos),
            other => other,
        },
        other => other,
    }
}

/// Joins the operands read so far by a repetition with the next one.
pub open spec fn joined(acc: Option<BoolExpr>, next: BoolExpr, conjunction: bool) -> BoolExpr {
    match acc {
        Some(a) => if conjunction {
            BoolExpr::And(Box::new(a), Box::new(next))
        } else {
            BoolExpr::Or(Box::new(a), Box::new(next))
        },
        None => next,
    }
}

/// The first operand with the operands that followed it, if any.
pub open spec fn with_tail(left: BoolExpr, right: Option<BoolExpr>, conjunction: bool) -> BoolExpr {
    match right {
        Some(r) => if conjunction {
            BoolExpr::And(Box::new(left), Box::new(r))
        } else {
            BoolExpr::Or(Box::new(left), Box::new(r))
        },
        None => left,
    }
}

/// `or := and ("OR" and)*`
pub open spec fn spec_or(s: Seq<char>, pos: int) -> Outcome<BoolExpr>
    decreases remaining(s, pos), 10int,
{
    match spec_and(s, pos) {
        Outcome::Done { value, len } => match spec_or_tail(s, pos + len, None) {
            TailOutcome::Done { value: right, next } => Outcome::Done {
                value: with_tail(value, right, false),
                len: (next - pos) as nat,
            },
            TailOutcome::Failure { at, reason } => Outcome::Failure { at, reason },
        },
        other => other,
    }
}

/// `("OR" and)*` from `pos` on, after the operands joined in `acc`.
pub open spec fn spec_or_tail(s: Seq<char>, pos: int, acc: Option<BoolExpr>) -> TailOutcome
    decreases remaining(s, pos), 9int,
{
    let at_op = pos + ws_len(s, pos);
    if has_at(s, at_op, "OR"@) && "OR"@.len() == 2 {
        let at_val = at_op + 2 + ws_len(s, at_op + 2);
        match spec_and(s, at_val) {
            Outcome::Done { value, len } => spec_or_tail(
                s,
                at_val + len,
                Some(joined(acc, value, false)),
            ),
            Outcome::Error { .. } => TailOutcome::Done { value: acc, next: pos },
            Outcome::Failure { at, reason } => TailOutcome::Failure { at, reason },
        }
    } else {
        TailOutcome::Done { value: acc, next: pos }
    }
}

/// `and := not ("AND" not)*`
pub open spec fn spec_and(s: Seq<char>, pos: int) -> Outcome<BoolExpr>
    decreases remaining(s, pos), 8int,
{
    match spec_not(s, pos) {
        Outcome::Done { value, len } => match spec_and_tail(s, pos + len, None) {
            TailOutcome::Done { value: right, next } => Outcome::Done {
                value: with_tail(value, right, true),
                len: (next - pos) as nat,
            },
            TailOutcome::Failure { at, reason } => Outcome::Failure { at, reason },
        },
        other => other,
    }
}

/// `("AND" not)*` from `pos` on, after the operands joined in `acc`.
pub open spec fn spec_and_tail(s: Seq<char>, pos: int, acc: Option<BoolExpr>) -> TailOutcome
    decreases remaining(s, pos), 7int,
{
    let at_op = pos + ws_len(s, pos);
    if has_at(s, at_op, "AND"@) && "AND"@.len() == 3 {
        let at_val = at_op + 3 + ws_len(s, at_op + 3);
        match spec_not(s, at_val) {
            Outcome::Done { value, len } => spec_and_tail(
                s,
                at_val + len,
                Some(joined(acc, value, true)),
            ),
            Outcome::Error { .. } => TailOutcome::Done { value: acc, next: pos },
            Outcome::Failure { at, reason } => TailOutcome::Failure { at, reason },
        }
    } else {
        TailOutcome::Done { value: acc, next: pos }
    }
}

/// `not := "NOT" arg | arg`
pub open spec fn spec_not(s: Seq<char>, pos: int) -> Outcome<BoolExpr>
    decreases remaining(s, pos), 6int,
{
    if has_at(s, pos, "NOT"@) && "NOT"@.len() == 3 {
        let p = pos + 3 + ws_len(s, pos + 3);
        match spec_arg(s, p) {
            Outcome::Done { value, len } => Outcome::Done {
                value: BoolExpr::Not(Box::new(value)),
                len: (p + len - pos) as nat,
            },
            Outcome::Error { .. } => spec_arg(s, pos),
            other => other,
        }
    } else {
        spec_arg(s, pos)
    }
}

/// `arg := "(" or ")" | criterion`
pub open spec fn spec_arg(s: Seq<char>, pos: int) -> Outcome<BoolExpr>
    decreases remaining(s, pos), 5int,
{
    match spec_parenthesis(s, pos) {
        Outcome::Error { .. } => spec_criterion(s, pos),
        other => other,
    }
}

/// `"(" or ")"`
pub open spec fn spec_parenthesis(s: Seq<char>, pos: int) -> Outcome<BoolExpr>
    decreases remaining(s, pos), 4int,
{
    if has_at(s, pos, "("@) && "("@.len() == 1 {
        match spec_or(s, pos + 1) {
            Outcome::Done { value, len } => if has_at(s, pos + 1 + len, ")"@) {
                Outcome::Done { value, len: len + 2 }
            } else {
                mismatch(pos + 1 + len, ErrorKind::Tag)
            },
            other => other,
        }
    } else {
        mismatch(pos, ErrorKind::Tag)
    }
}

/// What reading a whole text as a filter gives: the expression, or the
/// position and the reason of the rejection.
pub enum FilterOutcome {
    Accepted { value: BoolExpr },
    Rejected { at: int, reason: Reason },
}

/// A filter is an `or` expression that takes the whole text.
pub open spec fn spec_filter(s: Seq<char>) -> FilterOutcome {
    match spec_or(s, 0) {
        Outcome::Done { value, len } => if len == s.len() {
            FilterOutcome::Accepted { value }
        } else {
            FilterOutcome::Rejected { at: len as int, reason: Reason::Nom(ErrorKind::Eof) }
        },
        Outcome::Error { at, reason } => FilterOutcome::Rejected { at, reason },
        Outcome::Failure { at, reason } => FilterOutcome::Rejected { at, reason },
    }
}


impl<T> Parsed<T> {
    /// Every position in the result lies within a text of length `len`.
    pub open spec fn within(self, len: int) -> bool {
        match self {
            Parsed::Done { next, .. } => next <= len,
            Parsed::Error { at, .. } => at <= len,
            Parsed::Failure { at, .. } => at <= len,
        }
    }
}

/// A text of one character stands at a position exactly when the character
/// does.
pub proof fn lemma_has_char(s: Seq<char>, pos: int, c: char)
    ensures
        has_at(s, pos, seq![c]) <==> (0 <= pos < s.len() && s[pos] == c),
{
    if 0 <= pos < s.len() {
        if s[pos] == c {
            assert(s.subrange(pos, pos + 1) =~= seq![c]);
        } else {
            assert(s.subrange(pos, pos + 1)[0] == s[pos]);
        }
    }
}

/// The position after the white space that starts at `pos`.
fn skip_spaces(input: &Vec<char>, pos: usize) -> (next: usize)
    requires
        pos <= input.len(),
    ensures
        next == pos + ws_len(input@, pos as int),
        next <= input.len(),
{
    let mut p = pos;
    while p < input.len() && (input[p] == ' ' || input[p] == '\t' || input[p] == '\r' || input[p]
        == '\n')
        invariant
            pos <= p <= input.len(),
            pos + ws_len(input@, pos as int) == p + ws_len(input@, p as int),
        decreases input.len() - p,
    {
        p += 1;
    }
    p
}

/// The position after the letters that start at `pos`.
fn alpha_end(input: &Vec<char>, pos: usize) -> (next: usize)
    requires
        pos <= input.len(),
    ensures
        next == pos + alpha_len(input@, pos as int),
        next <= input.len(),
{
    let mut p = pos;
    while p < input.len() && ((input[p] >= 'a' && input[p] <= 'z') || (input[p] >= 'A' && input[p]
        <= 'Z'))
        invariant
            pos <= p <= input.len(),
            pos + alpha_len(input@, pos as int) == p + alpha_len(input@, p as int),
        decreases input.len() - p,
    {
        p += 1;
    }
    p
}

/// The position after the digits that start at `pos`.
fn digit_end(input: &Vec<char>, pos: usize) -> (next: usize)
    requires
        pos <= input.len(),
    ensures
        next == pos + digit_len(input@, pos as int),
        next <= input.len(),
        forall|i: int| pos <= i < next ==> is_digit(#[trigger] input@[i]),
{
    let mut p = pos;
    while p < input.len() && input[p] >= '0' && input[p] <= '9'
        invariant
            pos <= p <= input.len(),
            pos + digit_len(input@, pos as int) == p + digit_len(input@, p as int),
            forall|i: int| pos <= i < p ==> is_digit(#[trigger] input@[i]),
        decreases input.len() - p,
    {
        p += 1;
    }
    p
}

/// Whether `word` stands in the input at `pos`; if so, the position after it.
fn tag_at(input: &Vec<char>, pos: usize, word: &str) -> (r: Option<usize>)
    requires
        pos <= input.len(),
    ensures
        r is Some <==> has_at(input@, pos as int, word@),
        r is Some ==> r->0 == pos + word@.len() && r->0 <= input.len(),
{
    let w = str_to_chars(word);
    if w.len() > input.len() - pos {
        return None;
    }
    let mut i: usize = 0;
    while i < w.len()
        invariant
            i <= w.len(),
            pos + w.len() <= input.len(),
            w@ == word@,
            input@.subrange(pos as int, pos + i) == w@.take(i as int),
        decreases w.len() - i,
    {
        if input[pos + i] != w[i] {
            assert(input@.subrange(pos as int, pos + w@.len())[i as int] != w@[i as int]);
            return None;
        }
        proof {
            assert(input@.subrange(pos as int, pos + i + 1) =~= input@.subrange(
                pos as int,
                pos + i,
            ).push(input@[pos + i]));
            assert(w@.take(i + 1) =~= w@.take(i as int).push(w@[i as int]));
        }
        i += 1;
    }
    proof {
        assert(w@.take(w@.len() as int) =~= w@);
    }
    Some(pos + w.len())
}

/// Reads a text in single quotes at `pos`.
pub fn string_literal(input: &Vec<char>, pos: usize) -> (r: Parsed<String>)
    requires
        pos <= input.len(),
    ensures
        r.agrees(spec_string_literal(input@, pos as int), pos as int),
        r.within(input.len() as int),
{
    proof {
        reveal(spec_string_literal);
    }
    if pos >= input.len() || input[pos] != '\'' {
        return Parsed::Error { at: pos, kind: FilterErrorKind::Nom(ErrorKind::Char) };
    }
    let mut text = String::new();
    let mut p: usize = pos + 1;
    loop
        invariant
            pos + 1 <= p <= input.len(),
            literal_body(input@, pos + 1, Seq::empty()) == literal_body(input@, p as int, text@),
        ensures
            literal_body(input@, pos + 1, Seq::empty()) == (text@, p as int),
            pos + 1 <= p <= input.len(),
        decreases input.len() - p,
    {
        if p < input.len() && input[p] != '\'' {
            text.push(input[p]);
            p += 1;
        } else if p < input.len() - 1 && input[p] == '\'' && input[p + 1] == '\'' {
            text.push('\'');
            p += 2;
        } else {
            break ;
        }
    }
    if p < input.len() && input[p] == '\'' {
        Parsed::Done { value: text, next: p + 1 }
    } else {
        Parsed::Error { at: p, kind: FilterErrorKind::Nom(ErrorKind::Char) }
    }
}

/// Reads a signed decimal integer at `pos`.
pub fn number(input: &Vec<char>, pos: usize) -> (r: Parsed<i32>)
    requires
        pos <= input.len(),
    ensures
        r.agrees(spec_number(input@, pos as int), pos as int),
        r.within(input.len() as int),
{
    proof {
        reveal(spec_number);
    }
    let negative = pos < input.len() && input[pos] == '-';
    let signed = negative || (pos < input.len() && input[pos] == '+');
    proof {
        lemma_has_char(input@, pos as int, '-');
        lemma_has_char(input@, pos as int, '+');
    }
    let start: usize = if signed {
        pos + 1
    } else {
        pos
    };
    let end = digit_end(input, start);
    if end == start {
        return Parsed::Error { at: pos, kind: FilterErrorKind::Nom(ErrorKind::Digit) };
    }
    let bound: u64 = if negative {
        0x8000_0000
    } else {
        0x7fff_ffff
    };
    let ghost digits = input@.subrange(start as int, end as int);
    proof {
        assert forall|i: int| 0 <= i < digits.len() implies is_digit(#[trigger] digits[i]) by {
            assert(digits[i] == input@[start + i]);
        }
        crate::text::lemma_digits_value_bounds(digits);
    }
    match read_digits(input, start, end, bound) {
        Some(m) => {
            let value: i32 = if negative {
                (-(m as i64)) as i32
            } else {
                m as i32
            };
            Parsed::Done { value, next: end }
        },
        None => Parsed::Error { at: pos, kind: FilterErrorKind::Nom(ErrorKind::Digit) },
    }
}

/// Reads the comparison sign of a number criterion at `pos`.
fn read_int_operator(input: &Vec<char>, pos: usize) -> (r: Option<(Comparison, usize)>)
    requires
        pos <= input.len(),
    ensures
        match r {
            Some((op, next)) => int_operator(input@, pos as int) matches Some((o, n)) && o == op
                && next == pos + n && next <= input.len(),
            None => int_operator(input@, pos as int) is None,
        },
{
    proof {
        reveal_strlit("!=");
        reveal_strlit("=");
        reveal_strlit("<=");
        reveal_strlit(">=");
        reveal_strlit("<");
        reveal_strlit(">");
    }
    if let Some(next) = tag_at(input, pos, "!=") {
        Some((Comparison::NotEqual, next))
    } else if let Some(next) = tag_at(input, pos, "=") {
        Some((Comparison::Equal, next))
    } else if let Some(next) = tag_at(input, pos, "<=") {
        Some((Comparison::LessEqual, next))
    } else if let Some(next) = tag_at(input, pos, ">=") {
        Some((Comparison::GreaterEqual, next))
    } else if let Some(next) = tag_at(input, pos, "<") {
        Some((Comparison::Less, next))
    } else if let Some(next) = tag_at(input, pos, ">") {
        Some((Comparison::Greater, next))
    } else {
        None
    }
}

/// Reads the comparison sign of a text or state criterion at `pos`.
fn read_equality_operator(input: &Vec<char>, pos: usize) -> (r: Option<(Comparison, usize)>)
    requires
        pos <= input.len(),
    ensures
        match r {
            Some((op, next)) => equality_operator(input@, pos as int) matches Some((o, n)) && o
                == op && next == pos + n && next <= input.len(),
            None => equality_operator(input@, pos as int) is None,
        },
{
    proof {
        reveal_strlit("!=");
        reveal_strlit("=");
    }
    if let Some(next) = tag_at(input, pos, "=") {
        Some((Comparison::Equal, next))
    } else if let Some(next) = tag_at(input, pos, "!=") {
        Some((Comparison::NotEqual, next))
    } else {
        None
    }
}

/// Builds the filter for a comparison of a number field.
fn build_int_comparison(op: Comparison, c: IntCriterion, v: i32) -> (r: BoolOp)
    ensures
        r@ == int_comparison(op, c, v),
{
    match op {
        Comparison::Equal => BoolOp::IntEqual(c, v),
        Comparison::NotEqual => negation(BoolOp::IntEqual(c, v)),
        Comparison::Less => BoolOp::IntLess(c, v),
        Comparison::LessEqual => BoolOp::IntLessEqual(c, v),
        Comparison::GreaterEqual => negation(BoolOp::IntLess(c, v)),
        Comparison::Greater => negation(BoolOp::IntLessEqual(c, v)),
    }
}

/// Negates a filter for the comparison `!=`.
fn build_negated_if(op: Comparison, e: BoolOp) -> (r: BoolOp)
    ensures
        r@ == negated_if(op, e@),
{
    match op {
        Comparison::NotEqual => negation(e),
        _ => e,
    }
}

/// The negation of a filter.
fn negation(e: BoolOp) -> (r: BoolOp)
    ensures
        r@ == BoolExpr::Not(Box::new(e@)),
{
    BoolOp::Not(Box::new(e))
}

/// Reads a comparison of a number field at `pos`.
pub fn int_criterion_at(input: &Vec<char>, pos: usize) -> (r: Parsed<BoolOp>)
    requires
        pos <= input.len(),
    ensures
        r.agrees(spec_int_criterion(input@, pos as int), pos as int),
        r.within(input.len() as int),
{
    proof {
        reveal(spec_int_criterion);
    }
    let name_end = alpha_end(input, pos);
    if name_end == pos {
        return Parsed::Error { at: pos, kind: FilterErrorKind::Nom(ErrorKind::Alpha) };
    }
    let at_op = skip_spaces(input, name_end);
    match read_int_operator(input, at_op) {
        None => Parsed::Error { at: at_op, kind: FilterErrorKind::Nom(ErrorKind::Tag) },
        Some((op, after_op)) => {
            let at_val = skip_spaces(input, after_op);
            match number(input, at_val) {
                Parsed::Done { value, next } => {
                    let name = chars_to_string(input, pos, name_end);
                    let criterion = if same_str(name.as_str(), "ID") {
                        IntCriterion::Id
                    } else if same_str(name.as_str(), "InstanceID") {
                        IntCriterion::InstanceId
                    } else if same_str(name.as_str(), "Priority") {
                        IntCriterion::Priority
                    } else {
                        return Parsed::Error {
                            at: next,
                            kind: FilterErrorKind::InvalidCriterionName(name),
                        };
                    };
                    Parsed::Done { value: build_int_comparison(op, criterion, value), next }
                },
                _ => Parsed::Error { at: at_val, kind: FilterErrorKind::Nom(ErrorKind::Digit) },
            }
        },
    }
}

/// Reads a comparison of a text field at `pos`.
pub fn string_criterion_at(input: &Vec<char>, pos: usize) -> (r: Parsed<BoolOp>)
    requires
        pos <= input.len(),
    ensures
        r.agrees(spec_string_criterion(input@, pos as int), pos as int),
        r.within(input.len() as int),
{
    proof {
        reveal(spec_string_criterion);
    }
    let name_end = alpha_end(input, pos);
    if name_end == pos {
        return Parsed::Error { at: pos, kind: FilterErrorKind::Nom(ErrorKind::Alpha) };
    }
    let at_op = skip_spaces(input, name_end);
    match read_equality_operator(input, at_op) {
        None => Parsed::Error { at: at_op, kind: FilterErrorKind::Nom(ErrorKind::Tag) },
        Some((op, after_op)) => {
            let at_val = skip_spaces(input, after_op);
            match string_literal(input, at_val) {
                Parsed::Done { value, next } => {
                    let name = chars_to_string(input, pos, name_end);
                    let criterion = if same_str(name.as_str(), "AlarmClassName") {
                        StringCriterion::AlarmClassName
                    } else if same_str(name.as_str(), "Name") {
                        StringCriterion::AlarmName
                    } else {
                        return Parsed::Error {
                            at: next,
                            kind: FilterErrorKind::InvalidCriterionName(name),
                        };
                    };
                    Parsed::Done {
                        value: build_negated_if(op, BoolOp::StringEqual(criterion, value)),
                        next,
                    }
                },
                Parsed::Error { at, kind } => Parsed::Error { at, kind },
                Parsed::Failure { at, kind } => Parsed::Failure { at, kind },
            }
        },
    }
}

/// Reads a comparison of the alarm state at `pos`.
pub fn state_criterion_at(input: &Vec<char>, pos: usize) -> (r: Parsed<BoolOp>)
    requires
        pos <= input.len(),
    ensures
        r.agrees(spec_state_criterion(input@, pos as int), pos as int),
        r.within(input.len() as int),
{
    proof {
        reveal(spec_state_criterion);
    }
    let after_name = match tag_at(input, pos, "State") {
        Some(n) => n,
        None => {
            return Parsed::Error { at: pos, kind: FilterErrorKind::Nom(ErrorKind::Tag) };
        },
    };
    let at_op = skip_spaces(input, after_name);
    match read_equality_operator(input, at_op) {
        None => Parsed::Error { at: at_op, kind: FilterErrorKind::Nom(ErrorKind::Tag) },
        Some((op, after_op)) => {
            let at_val = skip_spaces(input, after_op);
            let (text, next) = match string_literal(input, at_val) {
                Parsed::Done { value, next } => (value, next),
                _ => {
                    let end = digit_end(input, at_val);
                    if end == at_val {
                        return Parsed::Error {
                            at: at_val,
                            kind: FilterErrorKind::Nom(ErrorKind::Digit),
                        };
                    }
                    (chars_to_string(input, at_val, end), end)
                },
            };
            match AlarmState::from_str(text.as_str()) {
                Ok(state) => Parsed::Done {
                    value: build_negated_if(
                        op,
                        BoolOp::StateEqual(IntCriterion::AlarmState, state),
                    ),
                    next,
                },
                Err(e) => Parsed::Failure { at: next, kind: FilterErrorKind::Error(e) },
            }
        },
    }
}

/// Reads a criterion at `pos`.
pub fn parse_criterion(input: &Vec<char>, pos: usize) -> (r: Parsed<BoolOp>)
    requires
        pos <= input.len(),
    ensures
        r.agrees(spec_criterion(input@, pos as int), pos as int),
        r.within(input.len() as int),
{
    proof {
        reveal(spec_criterion);
    }
    match state_criterion_at(input, pos) {
        Parsed::Error { .. } => match int_criterion_at(input, pos) {
            Parsed::Error { .. } => string_criterion_at(input, pos),
            other => other,
        },
        other => other,
    }
}

/// The views of the operands joined so far.
pub open spec fn option_view(acc: Option<BoolOp>) -> Option<BoolExpr> {
    match acc {
        Some(a) => Some(a@),
        None => None,
    }
}

fn build_joined(acc: Option<BoolOp>, next: BoolOp, conjunction: bool) -> (r: BoolOp)
    ensures
        r@ == joined(option_view(acc), next@, conjunction),
{
    match acc {
        Some(a) => if conjunction {
            BoolOp::And(Box::new(a), Box::new(next))
        } else {
            BoolOp::Or(Box::new(a), Box::new(next))
        },
        None => next,
    }
}

fn build_with_tail(left: BoolOp, right: Option<BoolOp>, conjunction: bool) -> (r: BoolOp)
    ensures
        r@ == with_tail(left@, option_view(right), conjunction),
{
    match right {
        Some(r) => if conjunction {
            BoolOp::And(Box::new(left), Box::new(r))
        } else {
            BoolOp::Or(Box::new(left), Box::new(r))
        },
        None => left,
    }
}

/// Reads `and ("OR" and)*` at `pos`.
pub fn parse_or(input: &Vec<char>, pos: usize) -> (r: Parsed<BoolOp>)
    requires
        pos <= input.len(),
    ensures
        r.agrees(spec_or(input@, pos as int), pos as int),
        r.within(input.len() as int),
    decreases input.len() - pos, 10int,
{
    let (left, after_left) = match parse_and(input, pos) {
        Parsed::Done { value, next } => (value, next),
        other => {
            return other;
        },
    };
    let mut acc: Option<BoolOp> = None;
    let mut p: usize = after_left;
    proof {
        reveal_strlit("OR");
    }
    loop
        invariant
            pos <= after_left <= p <= input.len(),
            spec_or_tail(input@, after_left as int, None) == spec_or_tail(
                input@,
                p as int,
                option_view(acc),
            ),
            "OR"@.len() == 2,
            spec_and(input@, pos as int) == (Outcome::Done {
                value: left@,
                len: (after_left - pos) as nat,
            }),
        ensures
            spec_or_tail(input@, after_left as int, None) == (TailOutcome::Done {
                value: option_view(acc),
                next: p as int,
            }),
            pos <= p <= input.len(),
        decreases input.len() - p,
    {
        proof {
            }
        let at_op = skip_spaces(input, p);
        match tag_at(input, at_op, "OR") {
            None => {
                break ;
            },
            Some(after_word) => {
                let at_val = skip_spaces(input, after_word);
                match parse_and(input, at_val) {
                    Parsed::Done { value, next } => {
                        acc = Some(build_joined(acc, value, false));
                        p = next;
                    },
                    Parsed::Error { .. } => {
                        break ;
                    },
                    Parsed::Failure { at, kind } => {
                        return Parsed::Failure { at, kind };
                    },
                }
            },
        }
    }
    Parsed::Done { value: build_with_tail(left, acc, false), next: p }
}

/// Reads `not ("AND" not)*` at `pos`.
pub fn parse_and(input: &Vec<char>, pos: usize) -> (r: Parsed<BoolOp>)
    requires
        pos <= input.len(),
    ensures
        r.agrees(spec_and(input@, pos as int), pos as int),
        r.within(input.len() as int),
    decreases input.len() - pos, 8int,
{
    let (left, after_left) = match parse_not(input, pos) {
        Parsed::Done { value, next } => (value, next),
        other => {
            return other;
        },
    };
    let mut acc: Option<BoolOp> = None;
    let mut p: usize = after_left;
    proof {
        reveal_strlit("AND");
    }
    loop
        invariant
            pos <= after_left <= p <= input.len(),
            spec_and_tail(input@, after_left as int, None) == spec_and_tail(
                input@,
                p as int,
                option_view(acc),
            ),
            "AND"@.len() == 3,
            spec_not(input@, pos as int) == (Outcome::Done {
                value: left@,
                len: (after_left - pos) as nat,
            }),
        ensures
            spec_and_tail(input@, after_left as int, None) == (TailOutcome::Done {
                value: option_view(acc),
                next: p as int,
            }),
            pos <= p <= input.len(),
        decreases input.len() - p,
    {
        proof {
            }
        let at_op = skip_spaces(input, p);
        match tag_at(input, at_op, "AND") {
            None => {
                break ;
            },
            Some(after_word) => {
                let at_val = skip_spaces(input, after_word);
                match parse_not(input, at_val) {
                    Parsed::Done { value, next } => {
                        acc = Some(build_joined(acc, value, true));
                        p = next;
                    },
                    Parsed::Error { .. } => {
                        break ;
                    },
                    Parsed::Failure { at, kind } => {
                        return Parsed::Failure { at, kind };
                    },
                }
            },
        }
    }
    Parsed::Done { value: build_with_tail(left, acc, true), next: p }
}

/// Reads `"NOT" arg | arg` at `pos`.
pub fn parse_not(input: &Vec<char>, pos: usize) -> (r: Parsed<BoolOp>)
    requires
        pos <= input.len(),
    ensures
        r.agrees(spec_not(input@, pos as int), pos as int),
        r.within(input.len() as int),
    decreases input.len() - pos, 6int,
{
    proof {
        reveal_strlit("NOT");
    }
    match tag_at(input, pos, "NOT") {
        Some(after_word) => {
            let p = skip_spaces(input, after_word);
            match parse_arg(input, p) {
                Parsed::Done { value, next } => Parsed::Done { value: negation(value), next },
                Parsed::Error { .. } => parse_arg(input, pos),
                other => other,
            }
        },
        None => parse_arg(input, pos),
    }
}

/// Reads `"(" or ")" | criterion` at `pos`.
pub fn parse_arg(input: &Vec<char>, pos: usize) -> (r: Parsed<BoolOp>)
    requires
        pos <= input.len(),
    ensures
        r.agrees(spec_arg(input@, pos as int), pos as int),
        r.within(input.len() as int),
    decreases input.len() - pos, 5int,
{
    match parse_parenthesis(input, pos) {
        Parsed::Error { .. } => parse_criterion(input, pos),
        other => other,
    }
}

/// Reads `"(" or ")"` at `pos`.
pub fn parse_parenthesis(input: &Vec<char>, pos: usize) -> (r: Parsed<BoolOp>)
    requires
        pos <= input.len(),
    ensures
        r.agrees(spec_parenthesis(input@, pos as int), pos as int),
        r.within(input.len() as int),
    decreases input.len() - pos, 4int,
{
    proof {
        reveal_strlit("(");
        reveal_strlit(")");
    }
    match tag_at(input, pos, "(") {
        None => Parsed::Error { at: pos, kind: FilterErrorKind::Nom(ErrorKind::Tag) },
        Some(inside) => match parse_or(input, inside) {
            Parsed::Done { value, next } => match tag_at(input, next, ")") {
                Some(after) => Parsed::Done { value, next: after },
                None => Parsed::Error { at: next, kind: FilterErrorKind::Nom(ErrorKind::Tag) },
            },
            other => other,
        },
    }
}

/// Reads a whole text as a filter.
pub fn parse_filter(input: &str) -> (r: Result<BoolOp, FilterError>)
    ensures
        match r {
            Ok(op) => spec_filter(input@) == (FilterOutcome::Accepted { value: op@ }),
            Err(e) => spec_filter(input@) == (FilterOutcome::Rejected {
                at: input@.len() - e.input@.len(),
                reason: e.kind@,
            }) && e.input@.len() <= input@.len() && e.input@ == input@.skip(
                input@.len() - e.input@.len(),
            ),
        },
{
    let chars = str_to_chars(input);
    let (at, kind) = match parse_or(&chars, 0) {
        Parsed::Done { value, next } => {
            if next == chars.len() {
                return Ok(value);
            }
            (next, FilterErrorKind::Nom(ErrorKind::Eof))
        },
        Parsed::Error { at, kind } => (at, kind),
        Parsed::Failure { at, kind } => (at, kind),
    };
    let rest = chars_to_string(&chars, at, chars.len());
    proof {
        assert(chars@.subrange(at as int, chars@.len() as int) =~= chars@.skip(at as int));
    }
    Err(FilterError { input: rest, kind })
}


/// What the functions that read one criterion from the start of a text
/// return, against what the grammar states: the rest of the text and the
/// filter, or the rest of the text at the point of the error and its kind.
pub open spec fn reports(
    r: Result<(String, BoolOp), FilterError>,
    o: Outcome<BoolExpr>,
    s: Seq<char>,
) -> bool {
    match r {
        Ok((rest, op)) => o matches Outcome::Done { value, len } && value == op@ && len <= s.len()
            && rest@ == s.skip(len as int),
        Err(e) => match o {
            Outcome::Done { .. } => false,
            Outcome::Error { at, reason } => 0 <= at <= s.len() && e.kind@ == reason && e.input@
                == s.skip(at),
            Outcome::Failure { at, reason } => 0 <= at <= s.len() && e.kind@ == reason && e.input@
                == s.skip(at),
        },
    }
}

/// Turns the result of a parsing function that started at the beginning of
/// the input into the rest of the text and the filter, or the error.
fn report(input: &Vec<char>, parsed: Parsed<BoolOp>, Ghost(o): Ghost<Outcome<BoolExpr>>) -> (r:
    Result<(String, BoolOp), FilterError>)
    requires
        parsed.agrees(o, 0),
        parsed.within(input.len() as int),
    ensures
        reports(r, o, input@),
{
    match parsed {
        Parsed::Done { value, next } => {
            let rest = chars_to_string(input, next, input.len());
            proof {
                assert(input@.subrange(next as int, input@.len() as int) =~= input@.skip(
                    next as int,
                ));
            }
            Ok((rest, value))
        },
        Parsed::Error { at, kind } => {
            let rest = chars_to_string(input, at, input.len());
            proof {
                assert(input@.subrange(at as int, input@.len() as int) =~= input@.skip(at as int));
            }
            Err(FilterError { input: rest, kind })
        },
        Parsed::Failure { at, kind } => {
            let rest = chars_to_string(input, at, input.len());
            proof {
                assert(input@.subrange(at as int, input@.len() as int) =~= input@.skip(at as int));
            }
            Err(FilterError { input: rest, kind })
        },
    }
}

/// Reads a comparison of a text field from the start of a text.
pub fn string_criterion(input: &str) -> (r: Result<(String, BoolOp), FilterError>)
    ensures
        reports(r, spec_string_criterion(input@, 0), input@),
{
    let chars = str_to_chars(input);
    let parsed = string_criterion_at(&chars, 0);
    report(&chars, parsed, Ghost(spec_string_criterion(input@, 0)))
}

/// Reads a comparison of a number field from the start of a text.
pub fn int_criterion(input: &str) -> (r: Result<(String, BoolOp), FilterError>)
    ensures
        reports(r, spec_int_criterion(input@, 0), input@),
{
    let chars = str_to_chars(input);
    let parsed = int_criterion_at(&chars, 0);
    report(&chars, parsed, Ghost(spec_int_criterion(input@, 0)))
}

/// Reads a comparison of the alarm state from the start of a text.
pub fn state_criterion(input: &str) -> (r: Result<(String, BoolOp), FilterError>)
    ensures
        reports(r, spec_state_criterion(input@, 0), input@),
{
    let chars = str_to_chars(input);
    let parsed = state_criterion_at(&chars, 0);
    report(&chars, parsed, Ghost(spec_state_criterion(input@, 0)))
}

impl Reason {
    /// The message of the error.
    pub open spec fn message(self) -> Seq<char> {
        match self {
            Reason::InvalidCriterionName(n) => "Name of filter criterion not recognized: "@ + n,
            Reason::IllegalCheckOperation(n) => "Illegal comparison operator: "@ + n,
            Reason::InvalidState(n) => "Invalid state descriptor: "@ + n,
            Reason::Nom(k) => k.description(),
            Reason::Error(m) => m,
        }
    }
}

impl FilterErrorKind {
    /// The message of the error.
    pub fn to_string(&self) -> (s: String)
        ensures
            s@ == self@.message(),
    {
        match self {
            FilterErrorKind::InvalidCriterionName(n) => {
                let mut s = "Name of filter criterion not recognized: ".to_owned();
                s.append(n.as_str());
                s
            },
            FilterErrorKind::IllegalCheckOperation(n) => {
                let mut s = "Illegal comparison operator: ".to_owned();
                s.append(n.as_str());
                s
            },
            FilterErrorKind::InvalidState(n) => {
                let mut s = "Invalid state descriptor: ".to_owned();
                s.append(n.as_str());
                s
            },
            FilterErrorKind::Nom(k) => k.as_str().to_owned(),
            FilterErrorKind::Error(e) => e.to_string(),
        }
    }
}

impl ErrorKind {
    /// A word for the kind of mismatch.
    pub open spec fn description(self) -> Seq<char> {
        match self {
            ErrorKind::Tag => "Tag"@,
            ErrorKind::Eof => "End of file"@,
            ErrorKind::Alpha => "Alphabetic"@,
            ErrorKind::Digit => "Digit"@,
            ErrorKind::Char => "Char"@,
        }
    }

    /// A word for the kind of mismatch.
    pub fn as_str(&self) -> (s: &'static str)
        ensures
            s@ == self.description(),
    {
        match self {
            ErrorKind::Tag => "Tag",
            ErrorKind::Eof => "End of file",
            ErrorKind::Alpha => "Alphabetic",
            ErrorKind::Digit => "Digit",
            ErrorKind::Char => "Char",
        }
    }
}

impl FilterError {
    /// The message of the error.
    pub fn to_string(&self) -> (s: String)
        ensures
            s@ == self.kind@.message(),
    {
        self.kind.to_string()
    }
}

} // verus!
