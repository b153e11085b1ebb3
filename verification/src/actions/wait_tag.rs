//! Waiting for the value of a tag to meet a condition.
//!
//! The numeric conditions compare the value of the tag, read as a number,
//! with a limit. The library does not compute with such numbers: a limit is
//! held as the bit pattern of a 64 bit floating point number, and how a value
//! compares with it is found out by the caller and handed in as a
//! `NumberOrder`.
use crate::text::{lowercase, same_str, to_lowercase};
use vstd::prelude::*;

verus! {

/// How the number that a text stands for compares with a limit.
#[derive(Debug, Clone, Copy, PartialEq, Eq, Structural)]
pub enum NumberOrder {
    Less,
    Equal,
    Greater,
    /// Neither less, equal nor greater: one of the two is not a number in
    /// the sense of the arithmetic.
    Unordered,
}

/// What the value of a tag is waited to do. The limit of a numeric condition
/// is the bit pattern of a 64 bit floating point number.
#[derive(Debug)]
pub enum TagCondition {
    Less(u64),
    LessEqual(u64),
    Greater(u64),
    GreaterEqual(u64),
    EqualNumber(u64),
    NotEqualNumber(u64),
    EqualString(String),
    NotEqualString(String),
    Changed,
}

/// The text that is read as a number for a value: `1` for `true` and `0`
/// for `false`, in any letter case, else the value itself.
pub open spec fn spec_number_text(value: Seq<char>) -> Seq<char> {
    if lowercase(value) == "true"@ {
        "1"@
    } else if lowercase(value) == "false"@ {
        "0"@
    } else {
        value
    }
}

/// The text that is read as a number for a value.
pub fn number_text(value: &str) -> (r: String)
    ensures
        r@ == spec_number_text(value@),
{
    let lower = to_lowercase(value);
    if same_str(lower.as_str(), "true") {
        "1".to_owned()
    } else if same_str(lower.as_str(), "false") {
        "0".to_owned()
    } else {
        value.to_owned()
    }
}

impl TagCondition {
    /// The limit of a numeric condition.
    pub open spec fn spec_limit(&self) -> Option<u64> {
        match self {
            TagCondition::Less(l) => Some(*l),
            TagCondition::LessEqual(l) => Some(*l),
            TagCondition::Greater(l) => Some(*l),
            TagCondition::GreaterEqual(l) => Some(*l),
            TagCondition::EqualNumber(l) => Some(*l),
            TagCondition::NotEqualNumber(l) => Some(*l),
            _ => None,
        }
    }

    /// The limit of a numeric condition.
    pub fn limit(&self) -> (r: Option<u64>)
        ensures
            r == self.spec_limit(),
    {
        match self {
            TagCondition::Less(l) => Some(*l),
            TagCondition::LessEqual(l) => Some(*l),
            TagCondition::Greater(l) => Some(*l),
            TagCondition::GreaterEqual(l) => Some(*l),
            TagCondition::EqualNumber(l) => Some(*l),
            TagCondition::NotEqualNumber(l) => Some(*l),
            _ => None,
        }
    }

    /// Whether a value meets the condition. `old_tag` is the value seen
    /// before, if any; without one, `Changed` is not met. `order` tells how
    /// the value, read as a number, compares with the limit of a numeric
    /// condition; `None` means that the value is no number, and then no
    /// numeric condition is met.
    pub open spec fn holds(
        &self,
        new_tag: Seq<char>,
        old_tag: Option<Seq<char>>,
        order: Option<NumberOrder>,
    ) -> bool {
        match self {
            TagCondition::Less(_) => order == Some(NumberOrder::Less),
            TagCondition::LessEqual(_) => order == Some(NumberOrder::Less) || order == Some(
                NumberOrder::Equal,
            ),
            TagCondition::Greater(_) => order == Some(NumberOrder::Greater),
            TagCondition::GreaterEqual(_) => order == Some(NumberOrder::Greater) || order == Some(
                NumberOrder::Equal,
            ),
            TagCondition::EqualNumber(_) => order == Some(NumberOrder::Equal),
            TagCondition::NotEqualNumber(_) => order is Some && order != Some(NumberOrder::Equal),
            TagCondition::EqualString(s) => new_tag == s@,
            TagCondition::NotEqualString(s) => new_tag != s@,
            TagCondition::Changed => old_tag matches Some(v) && new_tag != v,
        }
    }

    /// Whether a value meets the condition.
    pub fn check(&self, new_tag: &str, old_tag: Option<&String>, order: Option<NumberOrder>) -> (r:
        bool)
        ensures
            r == self.holds(
                new_tag@,
                match old_tag {
                    Some(v) => Some(v@),
                    None => None,
                },
                order,
            ),
    {
        match self {
            TagCondition::Less(_) => match order {
                Some(NumberOrder::Less) => true,
                _ => false,
            },
            TagCondition::LessEqual(_) => match order {
                Some(NumberOrder::Less) => true,
                Some(NumberOrder::Equal) => true,
                _ => false,
            },
            TagCondition::Greater(_) => match order {
                Some(NumberOrder::Greater) => true,
                _ => false,
            },
            TagCondition::GreaterEqual(_) => match order {
                Some(NumberOrder::Greater) => true,
                Some(NumberOrder::Equal) => true,
                _ => false,
            },
            TagCondition::EqualNumber(_) => match order {
                Some(NumberOrder::Equal) => true,
                _ => false,
            },
            TagCondition::NotEqualNumber(_) => match order {
                Some(NumberOrder::Equal) => false,
                Some(_) => true,
                None => false,
            },
            TagCondition::EqualString(s) => same_str(new_tag, s.as_str()),
            TagCondition::NotEqualString(s) => !same_str(new_tag, s.as_str()),
            TagCondition::Changed => match old_tag {
                Some(v) => !same_str(new_tag, v.as_str()),
                None => false,
            },
        }
    }

    /// A copy of the condition.
    pub fn duplicate(&self) -> (r: TagCondition)
        ensures
            r == *self,
    {
        match self {
            TagCondition::Less(l) => TagCondition::Less(*l),
            TagCondition::LessEqual(l) => TagCondition::LessEqual(*l),
            TagCondition::Greater(l) => TagCondition::Greater(*l),
            TagCondition::GreaterEqual(l) => TagCondition::GreaterEqual(*l),
            TagCondition::EqualNumber(l) => TagCondition::EqualNumber(*l),
            TagCondition::NotEqualNumber(l) => TagCondition::NotEqualNumber(*l),
            TagCondition::EqualString(s) => TagCondition::EqualString(s.clone()),
            TagCondition::NotEqualString(s) => TagCondition::NotEqualString(s.clone()),
            TagCondition::Changed => TagCondition::Changed,
        }
    }
}

/// Waits until the value of a tag meets a condition.
#[derive(Debug)]
pub struct WaitTagAction {
    pub tag: String,
    pub condition: TagCondition,
}

impl WaitTagAction {
    pub fn new(tag: String, condition: TagCondition) -> (r: WaitTagAction)
        ensures
            r.tag == tag,
            r.condition == condition,
    {
        WaitTagAction { tag, condition }
    }
}

} // verus!
