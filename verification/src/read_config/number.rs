//! Reading the numbers of the configuration.
//!
//! Whole numbers and truth values are read here, with the errors that the
//! standard library gives for the same text. Numbers with a fraction and
//! durations are read outside the library: the reader asks how a text is
//! read, and goes on when the answer is in its list.
use crate::text::{
    all_digits, char_at, digits_value, is_digit, lemma_digits_value_bounds, same_str,
    spec_parse_i32, spec_parse_u32, str_to_chars,
};
use vstd::prelude::*;

verus! {

/// Why a text is no whole number of the wanted type.
#[derive(Debug, Clone, Copy, PartialEq, Eq, Structural)]
pub enum IntErrorKind {
    Empty,
    InvalidDigit,
    PosOverflow,
    NegOverflow,
    Zero,
}

impl IntErrorKind {
    /// The message of the error.
    pub open spec fn message(self) -> Seq<char> {
        match self {
            IntErrorKind::Empty => "cannot parse integer from empty string"@,
            IntErrorKind::InvalidDigit => "invalid digit found in string"@,
            IntErrorKind::PosOverflow => "number too large to fit in target type"@,
            IntErrorKind::NegOverflow => "number too small to fit in target type"@,
            IntErrorKind::Zero => "number would be zero for non-zero type"@,
        }
    }

    /// The message of the error.
    pub fn to_string(&self) -> (s: String)
        ensures
            s@ == self.message(),
    {
        match self {
            IntErrorKind::Empty => "cannot parse integer from empty string".to_owned(),
            IntErrorKind::InvalidDigit => "invalid digit found in string".to_owned(),
            IntErrorKind::PosOverflow => "number too large to fit in target type".to_owned(),
            IntErrorKind::NegOverflow => "number too small to fit in target type".to_owned(),
            IntErrorKind::Zero => "number would be zero for non-zero type".to_owned(),
        }
    }
}

/// The message for a text that is neither `true` nor `false`.
pub open spec fn bool_message() -> Seq<char> {
    "provided string was not `true` or `false`"@
}

/// The number read from the first `n` digits, going from left to right:
/// each digit is added to ten times the number so far, or taken from it for
/// a negative number. The first character that is no digit, or the first
/// digit that takes the number out of the range, ends the reading.
pub open spec fn scanned(digits: Seq<char>, n: nat, negative: bool, min: int, max: int) -> Result<
    int,
    IntErrorKind,
>
    decreases n,
{
    if n == 0 || n > digits.len() {
        Ok(0)
    } else {
        match scanned(digits, (n - 1) as nat, negative, min, max) {
            Err(e) => Err(e),
            Ok(acc) => {
                let c = digits[n - 1];
                let d = c as int - 48;
                let v = if negative {
                    acc * 10 - d
                } else {
                    acc * 10 + d
                };
                if !is_digit(c) {
                    Err(IntErrorKind::InvalidDigit)
                } else if v > max {
                    Err(IntErrorKind::PosOverflow)
                } else if v < min {
                    Err(IntErrorKind::NegOverflow)
                } else {
                    Ok(v)
                }
            },
        }
    }
}

/// The whole number in the range from `min` to `max` that a text stands
/// for: digits, after a plus sign or, for a range with negative numbers, a
/// minus sign if there is one.
pub open spec fn spec_parse_int(s: Seq<char>, min: int, max: int) -> Result<int, IntErrorKind> {
    if s.len() == 0 {
        Err(IntErrorKind::Empty)
    } else if (s[0] == '+' || s[0] == '-') && s.len() == 1 {
        Err(IntErrorKind::InvalidDigit)
    } else if s[0] == '+' {
        scanned(s.skip(1), (s.len() - 1) as nat, false, min, max)
    } else if s[0] == '-' && min < 0 {
        scanned(s.skip(1), (s.len() - 1) as nat, true, min, max)
    } else {
        scanned(s, s.len(), false, min, max)
    }
}

/// Reads a whole number in the range from `min` to `max`.
pub fn parse_int(s: &str, min: i64, max: i64) -> (r: Result<i64, IntErrorKind>)
    requires
        -0x1_0000_0000 <= min <= 0 <= max <= 0x1_0000_0000,
    ensures
        match r {
            Ok(v) => spec_parse_int(s@, min as int, max as int) == Ok::<int, IntErrorKind>(
                v as int,
            ) && min <= v <= max,
            Err(e) => spec_parse_int(s@, min as int, max as int) == Err::<int, IntErrorKind>(e),
        },
{
    let v = str_to_chars(s);
    if v.len() == 0 {
        return Err(IntErrorKind::Empty);
    }
    let first = char_at(&v, 0);
    if (first == '+' || first == '-') && v.len() == 1 {
        return Err(IntErrorKind::InvalidDigit);
    }
    let negative = first == '-' && min < 0;
    let start: usize = if first == '+' || negative {
        1
    } else {
        0
    };
    let ghost digits = v@.skip(start as int);
    let ghost whole = spec_parse_int(s@, min as int, max as int);
    proof {
        assert(v@.skip(0) =~= v@);
        assert(whole == scanned(digits, digits.len(), negative, min as int, max as int));
    }
    let mut acc: i64 = 0;
    let mut i: usize = start;
    while i < v.len()
        invariant
            start <= i <= v.len(),
            digits == v@.skip(start as int),
            whole == spec_parse_int(s@, min as int, max as int),
            whole == scanned(digits, digits.len(), negative, min as int, max as int),
            -0x1_0000_0000 <= min <= 0 <= max <= 0x1_0000_0000,
            min <= acc <= max,
            scanned(digits, (i - start) as nat, negative, min as int, max as int) == Ok::<
                int,
                IntErrorKind,
            >(acc as int),
        decreases v.len() - i,
    {
        let c = char_at(&v, i);
        proof {
            assert(digits[i - start] == c);
        }
        if !(c >= '0' && c <= '9') {
            proof {
                assert(scanned(digits, (i - start + 1) as nat, negative, min as int, max as int)
                    == Err::<int, IntErrorKind>(IntErrorKind::InvalidDigit));
                lemma_scan_stops(digits, (i - start + 1) as nat, negative, min as int, max as int);
            }
            return Err(IntErrorKind::InvalidDigit);
        }
        let d: i64 = (c as u32 - 48) as i64;
        let next = if negative {
            acc * 10 - d
        } else {
            acc * 10 + d
        };
        proof {
            assert(scanned(digits, (i - start) as nat, negative, min as int, max as int) == Ok::<
                int,
                IntErrorKind,
            >(acc as int));
        }
        if next > max {
            proof {
                assert(scanned(digits, (i - start + 1) as nat, negative, min as int, max as int)
                    == Err::<int, IntErrorKind>(IntErrorKind::PosOverflow));
                lemma_scan_stops(digits, (i - start + 1) as nat, negative, min as int, max as int);
            }
            return Err(IntErrorKind::PosOverflow);
        }
        if next < min {
            proof {
                assert(scanned(digits, (i - start + 1) as nat, negative, min as int, max as int)
                    == Err::<int, IntErrorKind>(IntErrorKind::NegOverflow));
                lemma_scan_stops(digits, (i - start + 1) as nat, negative, min as int, max as int);
            }
            return Err(IntErrorKind::NegOverflow);
        }
        proof {
            assert(scanned(digits, (i - start + 1) as nat, negative, min as int, max as int)
                == Ok::<int, IntErrorKind>(next as int));
        }
        acc = next;
        i += 1;
    }
    Ok(acc)
}

/// Once the reading has ended with an error, it stays ended.
pub proof fn lemma_scan_stops(digits: Seq<char>, n: nat, negative: bool, min: int, max: int)
    requires
        n <= digits.len(),
        scanned(digits, n, negative, min, max) is Err,
    ensures
        scanned(digits, digits.len(), negative, min, max) == scanned(
            digits,
            n,
            negative,
            min,
            max,
        ),
    decreases digits.len() - n,
{
    if n < digits.len() {
        assert(scanned(digits, n + 1, negative, min, max) == scanned(
            digits,
            n,
            negative,
            min,
            max,
        ));
        lemma_scan_stops(digits, n + 1, negative, min, max);
    }
}

/// What the reading of the first `n` digits gives, told by the digits: their
/// value if they are digits and the value lies in the range, else an error.
pub proof fn lemma_scanned_value(digits: Seq<char>, n: nat, negative: bool, min: int, max: int)
    requires
        n <= digits.len(),
        min <= 0 <= max,
    ensures
        match scanned(digits, n, negative, min, max) {
            Ok(v) => all_digits(digits.take(n as int)) && min <= v <= max && v == if negative {
                -digits_value(digits.take(n as int))
            } else {
                digits_value(digits.take(n as int))
            },
            Err(_) => !all_digits(digits.take(n as int)) || if negative {
                -digits_value(digits.take(n as int)) < min
            } else {
                digits_value(digits.take(n as int)) > max
            },
        },
    decreases n,
{
    let now = digits.take(n as int);
    if n == 0 {
        assert(now =~= Seq::empty());
    } else {
        let before = digits.take(n - 1);
        lemma_scanned_value(digits, (n - 1) as nat, negative, min, max);
        assert(now.drop_last() =~= before);
        assert(now.last() == digits[n - 1]);
        if all_digits(now) {
            assert(all_digits(before)) by {
                assert forall|i: int| 0 <= i < before.len() implies is_digit(
                    #[trigger] before[i],
                ) by {
                    assert(before[i] == now[i]);
                }
            }
            lemma_digits_value_bounds(now);
            lemma_digits_value_bounds(before);
            assert(is_digit(now.last()));
        } else if all_digits(before) {
            assert(!is_digit(digits[n - 1])) by {
                if is_digit(digits[n - 1]) {
                    assert forall|i: int| 0 <= i < now.len() implies is_digit(
                        #[trigger] now[i],
                    ) by {
                        if i < n - 1 {
                            assert(now[i] == before[i]);
                        }
                    }
                }
            }
        }
    }
}

/// Reading a text as a whole number of 32 bits with a sign gives what
/// `spec_parse_i32` says.
pub proof fn lemma_parse_int_is_i32(s: Seq<char>)
    ensures
        match spec_parse_int(s, i32::MIN as int, i32::MAX as int) {
            Ok(v) => spec_parse_i32(s) == Some(v as i32),
            Err(_) => spec_parse_i32(s) is None,
        },
{
    if s.len() > 0 {
        let body = s.skip(1);
        lemma_scanned_value(body, body.len(), false, i32::MIN as int, i32::MAX as int);
        lemma_scanned_value(body, body.len(), true, i32::MIN as int, i32::MAX as int);
        lemma_scanned_value(s, s.len(), false, i32::MIN as int, i32::MAX as int);
        assert(body.take(body.len() as int) =~= body);
        assert(s.take(s.len() as int) =~= s);
        if all_digits(body) {
            lemma_digits_value_bounds(body);
        }
        if s[0] == '+' || s[0] == '-' {
            assert(!is_digit(s[0]));
        }
    }
}

/// Reading a text as a whole number of 32 bits without a sign gives what
/// `spec_parse_u32` says.
pub proof fn lemma_parse_int_is_u32(s: Seq<char>)
    ensures
        match spec_parse_int(s, 0, u32::MAX as int) {
            Ok(v) => spec_parse_u32(s) == Some(v as u32),
            Err(_) => spec_parse_u32(s) is None,
        },
{
    if s.len() > 0 {
        let body = s.skip(1);
        lemma_scanned_value(body, body.len(), false, 0, u32::MAX as int);
        lemma_scanned_value(s, s.len(), false, 0, u32::MAX as int);
        assert(body.take(body.len() as int) =~= body);
        assert(s.take(s.len() as int) =~= s);
        if all_digits(body) {
            lemma_digits_value_bounds(body);
        }
        if s[0] == '+' || s[0] == '-' {
            assert(!is_digit(s[0]));
        }
    }
}

/// The truth value that a text stands for.
pub open spec fn spec_parse_bool(s: Seq<char>) -> Option<bool> {
    if s == "true"@ {
        Some(true)
    } else if s == "false"@ {
        Some(false)
    } else {
        None
    }
}

/// Reads a truth value: `true` or `false`.
pub fn parse_bool(s: &str) -> (r: Option<bool>)
    ensures
        r == spec_parse_bool(s@),
{
    if same_str(s, "true") {
        Some(true)
    } else if same_str(s, "false") {
        Some(false)
    } else {
        None
    }
}

/// What a text is read as.
#[derive(Debug, Clone, Copy, PartialEq, Eq, Structural)]
pub enum NumberKind {
    /// A number with a fraction, in double precision: the answer is its bit
    /// pattern.
    Double,
    /// A number with a fraction, in single precision: the answer is its bit
    /// pattern.
    Single,
    /// A duration, written as a number and one of the units `s`, `m` and
    /// `h`: the answer is the duration in milliseconds.
    Millis,
}

/// The question how a text is read.
#[derive(Debug)]
pub struct NumberQuestion {
    pub kind: NumberKind,
    pub text: String,
}

/// The answer to a question: the number, or the message that tells why the
/// text is none.
#[derive(Debug)]
pub struct NumberReading {
    pub kind: NumberKind,
    pub text: String,
    pub reading: Result<u64, String>,
}

/// The model of `NumberQuestion`.
pub struct QuestionView {
    pub kind: NumberKind,
    pub text: Seq<char>,
}

/// The model of `NumberReading`.
pub struct ReadingView {
    pub kind: NumberKind,
    pub text: Seq<char>,
    pub reading: Result<u64, Seq<char>>,
}

impl View for NumberQuestion {
    type V = QuestionView;

    open spec fn view(&self) -> QuestionView {
        QuestionView { kind: self.kind, text: self.text@ }
    }
}

impl View for NumberReading {
    type V = ReadingView;

    open spec fn view(&self) -> ReadingView {
        ReadingView {
            kind: self.kind,
            text: self.text@,
            reading: match self.reading {
                Ok(v) => Ok(v),
                Err(m) => Err(m@),
            },
        }
    }
}

/// The answers given so far.
#[derive(Debug)]
pub struct Numbers {
    pub readings: Vec<NumberReading>,
}

/// The models of a list of answers.
pub open spec fn reading_views(readings: Seq<NumberReading>) -> Seq<ReadingView> {
    Seq::new(readings.len(), |i: int| readings[i]@)
}

/// The first answer in a list to the question how a text is read.
pub open spec fn first_reading(readings: Seq<ReadingView>, kind: NumberKind, text: Seq<char>) -> Option<
    Result<u64, Seq<char>>,
>
    decreases readings.len(),
{
    if readings.len() == 0 {
        None
    } else if readings[0].kind == kind && readings[0].text == text {
        Some(readings[0].reading)
    } else {
        first_reading(readings.skip(1), kind, text)
    }
}

impl View for Numbers {
    type V = Seq<ReadingView>;

    open spec fn view(&self) -> Seq<ReadingView> {
        reading_views(self.readings@)
    }
}

/// What the list of answers holds for a question.
#[derive(Debug)]
pub enum Found {
    /// The number that the text stands for.
    Number(u64),
    /// Why the text stands for none.
    NotANumber(String),
    /// The question has no answer yet.
    Unanswered,
}

impl Numbers {
    /// No answers.
    pub fn new() -> (r: Numbers)
        ensures
            r@.len() == 0,
    {
        Numbers { readings: Vec::new() }
    }

    /// Adds an answer. An earlier answer to the same question stays the one
    /// that counts.
    pub fn answer(&mut self, kind: NumberKind, text: &str, reading: Result<u64, String>)
        ensures
            final(self)@ == old(self)@.push(
                ReadingView {
                    kind,
                    text: text@,
                    reading: match reading {
                        Ok(v) => Ok(v),
                        Err(m) => Err(m@),
                    },
                },
            ),
    {
        let ghost before = self@;
        self.readings.push(NumberReading { kind, text: text.to_owned(), reading });
        proof {
            assert(self@ =~= before.push(
                ReadingView {
                    kind,
                    text: text@,
                    reading: match reading {
                        Ok(v) => Ok(v),
                        Err(m) => Err(m@),
                    },
                },
            ));
        }
    }

    /// The answer to the question how a text is read.
    pub fn lookup(&self, kind: NumberKind, text: &str) -> (r: Found)
        ensures
            match r {
                Found::Number(v) => first_reading(self@, kind, text@) == Some(
                    Ok::<u64, Seq<char>>(v),
                ),
                Found::NotANumber(m) => first_reading(self@, kind, text@) == Some(
                    Err::<u64, Seq<char>>(m@),
                ),
                Found::Unanswered => first_reading(self@, kind, text@) is None,
            },
    {
        let ghost views = self@;
        let mut i: usize = 0;
        proof {
            assert(views.skip(0) =~= views);
        }
        while i < self.readings.len()
            invariant
                i <= self.readings.len(),
                views == self@,
                first_reading(views, kind, text@) == first_reading(
                    views.skip(i as int),
                    kind,
                    text@,
                ),
            decreases self.readings.len() - i,
        {
            proof {
                assert(views.skip(i as int)[0] == self.readings@[i as int]@);
                assert(views.skip(i as int).skip(1) =~= views.skip(i + 1));
            }
            let r = &self.readings[i];
            if r.kind == kind && same_str(r.text.as_str(), text) {
                return match &r.reading {
                    Ok(v) => Found::Number(*v),
                    Err(m) => Found::NotANumber(m.clone()),
                };
            }
            i += 1;
        }
        Found::Unanswered
    }
}

} // verus!
