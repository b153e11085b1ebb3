//! Reading the parts of a configuration from the nodes of its tree: the
//! attributes of an element, the text inside it, and the actions of a
//! state.
//!
//! Every function here comes with a statement of what it reads, written
//! over the tree and the list of answers alone. A reading ends early in two
//! ways: with an error, or with a question about a number that has no
//! answer yet; the caller answers and reads again.
use crate::read_config::error::{
    ConfigError, ConfigErrorKind, ConfigErrorView, KindView, ReadError, ReadErrorView,
};
use crate::read_config::number::{
    first_reading, parse_bool, parse_int, spec_parse_bool, spec_parse_int, Found, IntErrorKind,
    NumberKind, NumberQuestion, Numbers, QuestionView, ReadingView,
};
use crate::read_config::xml::{all_whitespace, blank, NodeKind, XmlNode};
use vstd::prelude::*;

verus! {

/// Why a reading ends early.
#[derive(Debug)]
pub enum Stop {
    /// A number has to be read first.
    Ask(NumberQuestion),
    /// The configuration is wrong.
    Fail(ReadError),
}

/// The model of `Stop`.
pub enum StopView {
    Ask(QuestionView),
    Fail(ReadErrorView),
}

impl View for Stop {
    type V = StopView;

    open spec fn view(&self) -> StopView {
        match self {
            Stop::Ask(q) => StopView::Ask(q@),
            Stop::Fail(e) => StopView::Fail(e@),
        }
    }
}

/// The error of the given kind at a node.
pub open spec fn fail_at(node: &XmlNode, kind: KindView) -> StopView {
    StopView::Fail(ReadErrorView::Config(ConfigErrorView { kind, pos: node.pos }))
}

/// The error with the given message and no place.
pub open spec fn fail_text(message: Seq<char>) -> StopView {
    StopView::Fail(ReadErrorView::Message(message))
}

/// The question how a text is read.
pub open spec fn ask(kind: NumberKind, text: Seq<char>) -> StopView {
    StopView::Ask(QuestionView { kind, text })
}

pub(crate) fn fail(node: &XmlNode, kind: ConfigErrorKind) -> (r: Stop)
    ensures
        r@ == fail_at(node, kind@),
{
    Stop::Fail(ReadError::Config(ConfigError { kind, pos: node.pos }))
}

/// The text of the first `n` children of an element that must hold text
/// alone: the pieces of text one after the other, whatever else stands
/// between them left out. A child that is an element is an error.
pub open spec fn content_of(children: Seq<XmlNode>, n: nat) -> Result<Seq<char>, StopView>
    decreases n,
{
    if n == 0 || n > children.len() {
        Ok(Seq::empty())
    } else {
        match content_of(children, (n - 1) as nat) {
            Err(e) => Err(e),
            Ok(text) => {
                let child = children[n - 1];
                if child.kind == NodeKind::Element {
                    Err(fail_at(&child, KindView::UnexpectedElement))
                } else if child.kind == NodeKind::Text {
                    Ok(text + child.text@)
                } else {
                    Ok(text)
                }
            },
        }
    }
}

/// The text inside an element that has no elements inside it.
pub open spec fn spec_text_content(node: &XmlNode) -> Result<Seq<char>, StopView> {
    content_of(node.children@, node.children@.len())
}

/// The text inside an element that has no elements inside it.
pub fn text_content(node: &XmlNode) -> (r: Result<String, Stop>)
    ensures
        match r {
            Ok(t) => spec_text_content(node) == Ok::<Seq<char>, StopView>(t@),
            Err(e) => spec_text_content(node) == Err::<Seq<char>, StopView>(e@),
        },
{
    let mut content = String::new();
    let mut i: usize = 0;
    while i < node.children.len()
        invariant
            i <= node.children.len(),
            content_of(node.children@, i as nat) == Ok::<Seq<char>, StopView>(content@),
        decreases node.children.len() - i,
    {
        let child = &node.children[i];
        match child.kind {
            NodeKind::Element => {
                proof {
                    lemma_content_stops(node.children@, (i + 1) as nat);
                }
                return Err(fail(child, ConfigErrorKind::UnexpectedElement));
            },
            NodeKind::Text => {
                content.append(child.text.as_str());
            },
            NodeKind::Other => {},
        }
        i += 1;
    }
    Ok(content)
}

/// Once an element has been found among the children, the text is an
/// error whatever follows.
proof fn lemma_content_stops(children: Seq<XmlNode>, n: nat)
    requires
        n <= children.len(),
        content_of(children, n) is Err,
    ensures
        content_of(children, children.len()) == content_of(children, n),
    decreases children.len() - n,
{
    if n < children.len() {
        assert(content_of(children, n + 1) == content_of(children, n));
        lemma_content_stops(children, n + 1);
    }
}

/// What a node between the parts of an element is: an element of the
/// namespace of the configuration, which is to be read, or white space and
/// the like, which is passed over. An element of another namespace and a
/// text that is not white space are errors.
pub open spec fn spec_check(node: &XmlNode) -> Result<bool, StopView> {
    if node.kind == NodeKind::Element {
        if node.in_namespace() {
            Ok(true)
        } else {
            Err(fail_at(node, KindView::WrongNamespace))
        }
    } else if node.kind == NodeKind::Text && !all_whitespace(node.text@) {
        Err(fail_at(node, KindView::UnexpectedText))
    } else {
        Ok(false)
    }
}

/// Tells an element that is to be read from what is passed over.
pub fn check_element_ns(node: &XmlNode) -> (r: Result<bool, Stop>)
    ensures
        match r {
            Ok(b) => spec_check(node) == Ok::<bool, StopView>(b),
            Err(e) => spec_check(node) == Err::<bool, StopView>(e@),
        },
{
    match node.kind {
        NodeKind::Element => {
            if node.is_in_namespace() {
                Ok(true)
            } else {
                Err(fail(node, ConfigErrorKind::WrongNamespace))
            }
        },
        NodeKind::Text => {
            if blank(node.text.as_str()) {
                Ok(false)
            } else {
                Err(fail(node, ConfigErrorKind::UnexpectedText))
            }
        },
        NodeKind::Other => Ok(false),
    }
}

/// The value of an attribute that an element must have.
pub open spec fn spec_required(node: &XmlNode, name: Seq<char>) -> Result<Seq<char>, StopView> {
    match node.spec_attribute(name) {
        Some(v) => Ok(v),
        None => Err(fail_at(node, KindView::MissingAttribute(name))),
    }
}

/// The value of an attribute that an element must have.
pub fn required_attribute(node: &XmlNode, name: &str) -> (r: Result<String, Stop>)
    ensures
        match r {
            Ok(t) => spec_required(node, name@) == Ok::<Seq<char>, StopView>(t@),
            Err(e) => spec_required(node, name@) == Err::<Seq<char>, StopView>(e@),
        },
{
    match node.attribute(name) {
        Some(v) => Ok(v.clone()),
        None => Err(fail(node, ConfigErrorKind::MissingAttribute(name.to_owned()))),
    }
}

/// The value of an attribute that an element may have.
pub fn optional_attribute(node: &XmlNode, name: &str) -> (r: Option<String>)
    ensures
        match r {
            Some(t) => node.spec_attribute(name@) == Some(t@),
            None => node.spec_attribute(name@) is None,
        },
{
    match node.attribute(name) {
        Some(v) => Some(v.clone()),
        None => None,
    }
}

/// The whole number in a range that a text of an attribute stands for.
pub open spec fn int_of(node: &XmlNode, name: Seq<char>, text: Seq<char>, min: int, max: int) -> Result<
    int,
    StopView,
> {
    match spec_parse_int(text, min, max) {
        Ok(v) => Ok(v),
        Err(e) => Err(fail_at(node, KindView::ParseAttribute(name, e.message()))),
    }
}

/// The whole number that an attribute stands for, if the element has the
/// attribute.
pub open spec fn spec_int(node: &XmlNode, name: Seq<char>, min: int, max: int) -> Result<
    Option<int>,
    StopView,
> {
    match node.spec_attribute(name) {
        None => Ok(None),
        Some(text) => match int_of(node, name, text, min, max) {
            Ok(v) => Ok(Some(v)),
            Err(e) => Err(e),
        },
    }
}

/// The whole number that an attribute stands for, which the element must
/// have.
pub open spec fn spec_required_int(node: &XmlNode, name: Seq<char>, min: int, max: int) -> Result<
    int,
    StopView,
> {
    match node.spec_attribute(name) {
        None => Err(fail_at(node, KindView::MissingAttribute(name))),
        Some(text) => int_of(node, name, text, min, max),
    }
}

fn read_int(node: &XmlNode, name: &str, text: &str, min: i64, max: i64) -> (r: Result<i64, Stop>)
    requires
        -0x1_0000_0000 <= min <= 0 <= max <= 0x1_0000_0000,
    ensures
        match r {
            Ok(v) => int_of(node, name@, text@, min as int, max as int) == Ok::<int, StopView>(
                v as int,
            ) && min <= v <= max,
            Err(e) => int_of(node, name@, text@, min as int, max as int) == Err::<
                int,
                StopView,
            >(e@),
        },
{
    match parse_int(text, min, max) {
        Ok(v) => Ok(v),
        Err(e) => Err(
            fail(node, ConfigErrorKind::ParseAttribute(name.to_owned(), e.to_string())),
        ),
    }
}

/// The whole number that an attribute stands for, if the element has the
/// attribute.
pub fn int_attribute(node: &XmlNode, name: &str, min: i64, max: i64) -> (r: Result<
    Option<i64>,
    Stop,
>)
    requires
        -0x1_0000_0000 <= min <= 0 <= max <= 0x1_0000_0000,
    ensures
        match r {
            Ok(Some(v)) => spec_int(node, name@, min as int, max as int) == Ok::<
                Option<int>,
                StopView,
            >(Some(v as int)) && min <= v <= max,
            Ok(None) => spec_int(node, name@, min as int, max as int) == Ok::<
                Option<int>,
                StopView,
            >(None),
            Err(e) => spec_int(node, name@, min as int, max as int) == Err::<
                Option<int>,
                StopView,
            >(e@),
        },
{
    match node.attribute(name) {
        None => Ok(None),
        Some(text) => match read_int(node, name, text.as_str(), min, max) {
            Ok(v) => Ok(Some(v)),
            Err(e) => Err(e),
        },
    }
}

/// The whole number that an attribute stands for, which the element must
/// have.
pub fn required_int(node: &XmlNode, name: &str, min: i64, max: i64) -> (r: Result<i64, Stop>)
    requires
        -0x1_0000_0000 <= min <= 0 <= max <= 0x1_0000_0000,
    ensures
        match r {
            Ok(v) => spec_required_int(node, name@, min as int, max as int) == Ok::<
                int,
                StopView,
            >(v as int) && min <= v <= max,
            Err(e) => spec_required_int(node, name@, min as int, max as int) == Err::<
                int,
                StopView,
            >(e@),
        },
{
    match node.attribute(name) {
        None => Err(fail(node, ConfigErrorKind::MissingAttribute(name.to_owned()))),
        Some(text) => read_int(node, name, text.as_str(), min, max),
    }
}

/// The number of rounds that the attribute `count` stands for: a whole
/// number that is not zero.
pub open spec fn spec_count(node: &XmlNode) -> Result<Option<u32>, StopView> {
    match spec_int(node, "count"@, 0, 0xffff_ffff) {
        Err(e) => Err(e),
        Ok(None) => Ok(None),
        Ok(Some(v)) => if v == 0 {
            Err(
                fail_at(
                    node,
                    KindView::ParseAttribute("count"@, IntErrorKind::Zero.message()),
                ),
            )
        } else {
            Ok(Some(v as u32))
        },
    }
}

/// The truth value that an attribute stands for, if the element has the
/// attribute.
pub open spec fn spec_bool(node: &XmlNode, name: Seq<char>) -> Result<Option<bool>, StopView> {
    match node.spec_attribute(name) {
        None => Ok(None),
        Some(text) => match spec_parse_bool(text) {
            Some(b) => Ok(Some(b)),
            None => Err(
                fail_at(
                    node,
                    KindView::ParseAttribute(name, crate::read_config::number::bool_message()),
                ),
            ),
        },
    }
}

/// The truth value that an attribute stands for, if the element has the
/// attribute.
pub fn bool_attribute(node: &XmlNode, name: &str) -> (r: Result<Option<bool>, Stop>)
    ensures
        match r {
            Ok(b) => spec_bool(node, name@) == Ok::<Option<bool>, StopView>(b),
            Err(e) => spec_bool(node, name@) == Err::<Option<bool>, StopView>(e@),
        },
{
    match node.attribute(name) {
        None => Ok(None),
        Some(text) => match parse_bool(text.as_str()) {
            Some(b) => Ok(Some(b)),
            None => Err(
                fail(
                    node,
                    ConfigErrorKind::ParseAttribute(
                        name.to_owned(),
                        "provided string was not `true` or `false`".to_owned(),
                    ),
                ),
            ),
        },
    }
}

/// The number that the text of an attribute is read as.
pub open spec fn number_of(
    node: &XmlNode,
    name: Seq<char>,
    kind: NumberKind,
    text: Seq<char>,
    nums: Seq<ReadingView>,
) -> Result<u64, StopView> {
    match first_reading(nums, kind, text) {
        None => Err(ask(kind, text)),
        Some(Ok(v)) => Ok(v),
        Some(Err(m)) => Err(fail_at(node, KindView::ParseAttribute(name, m))),
    }
}

/// The number that an attribute is read as, if the element has the
/// attribute.
pub open spec fn spec_number(node: &XmlNode, name: Seq<char>, kind: NumberKind, nums: Seq<
    ReadingView,
>) -> Result<Option<u64>, StopView> {
    match node.spec_attribute(name) {
        None => Ok(None),
        Some(text) => match number_of(node, name, kind, text, nums) {
            Ok(v) => Ok(Some(v)),
            Err(e) => Err(e),
        },
    }
}

/// The number that an attribute is read as, which the element must have.
pub open spec fn spec_required_number(
    node: &XmlNode,
    name: Seq<char>,
    kind: NumberKind,
    nums: Seq<ReadingView>,
) -> Result<u64, StopView> {
    match node.spec_attribute(name) {
        None => Err(fail_at(node, KindView::MissingAttribute(name))),
        Some(text) => number_of(node, name, kind, text, nums),
    }
}

fn read_number(node: &XmlNode, name: &str, kind: NumberKind, text: &str, numbers: &Numbers) -> (r:
    Result<u64, Stop>)
    ensures
        match r {
            Ok(v) => number_of(node, name@, kind, text@, numbers@) == Ok::<u64, StopView>(v),
            Err(e) => number_of(node, name@, kind, text@, numbers@) == Err::<u64, StopView>(e@),
        },
{
    match numbers.lookup(kind, text) {
        Found::Number(v) => Ok(v),
        Found::NotANumber(m) => Err(
            fail(node, ConfigErrorKind::ParseAttribute(name.to_owned(), m)),
        ),
        Found::Unanswered => Err(Stop::Ask(NumberQuestion { kind, text: text.to_owned() })),
    }
}

/// The number that an attribute is read as, if the element has the
/// attribute.
pub fn number_attribute(node: &XmlNode, name: &str, kind: NumberKind, numbers: &Numbers) -> (r:
    Result<Option<u64>, Stop>)
    ensures
        match r {
            Ok(v) => spec_number(node, name@, kind, numbers@) == Ok::<Option<u64>, StopView>(v),
            Err(e) => spec_number(node, name@, kind, numbers@) == Err::<
                Option<u64>,
                StopView,
            >(e@),
        },
{
    match node.attribute(name) {
        None => Ok(None),
        Some(text) => match read_number(node, name, kind, text.as_str(), numbers) {
            Ok(v) => Ok(Some(v)),
            Err(e) => Err(e),
        },
    }
}

/// The number that an attribute is read as, which the element must have.
pub fn required_number(node: &XmlNode, name: &str, kind: NumberKind, numbers: &Numbers) -> (r:
    Result<u64, Stop>)
    ensures
        match r {
            Ok(v) => spec_required_number(node, name@, kind, numbers@) == Ok::<u64, StopView>(v),
            Err(e) => spec_required_number(node, name@, kind, numbers@) == Err::<
                u64,
                StopView,
            >(e@),
        },
{
    match node.attribute(name) {
        None => Err(fail(node, ConfigErrorKind::MissingAttribute(name.to_owned()))),
        Some(text) => read_number(node, name, kind, text.as_str(), numbers),
    }
}

/// The milliseconds that a duration is read as. A text that is no duration
/// is an error without a place.
pub open spec fn spec_duration(text: Seq<char>, nums: Seq<ReadingView>) -> Result<u64, StopView> {
    match first_reading(nums, NumberKind::Millis, text) {
        None => Err(ask(NumberKind::Millis, text)),
        Some(Ok(v)) => Ok(v),
        Some(Err(m)) => Err(fail_text(m)),
    }
}

/// The milliseconds that a duration is read as.
pub fn parse_duration(text: &str, numbers: &Numbers) -> (r: Result<u64, Stop>)
    ensures
        match r {
            Ok(v) => spec_duration(text@, numbers@) == Ok::<u64, StopView>(v),
            Err(e) => spec_duration(text@, numbers@) == Err::<u64, StopView>(e@),
        },
{
    match numbers.lookup(NumberKind::Millis, text) {
        Found::Number(v) => Ok(v),
        Found::NotANumber(m) => Err(Stop::Fail(ReadError::Message(m))),
        Found::Unanswered => Err(
            Stop::Ask(NumberQuestion { kind: NumberKind::Millis, text: text.to_owned() }),
        ),
    }
}

} // verus!
