//! What can be wrong with a configuration.
use crate::text::{decimal_text, u64_to_string};
use vstd::prelude::*;

verus! {

/// A place in the text of the configuration: a line and a column, both
/// counted from one.
#[derive(Debug, Clone, Copy, PartialEq, Eq, Structural)]
pub struct TextPos {
    pub row: u32,
    pub col: u32,
}

/// What is wrong at a place of the configuration.
#[derive(Debug)]
pub enum ConfigErrorKind {
    WrongNamespace,
    UnexpectedElement,
    UnexpectedText,
    UnexpectedAttribute,
    /// An attribute that an element must have is not there; the name of the
    /// attribute.
    MissingAttribute(String),
    /// The element has none, or more than one, of the attributes that name
    /// the condition of a wait for a tag.
    ExclusiveAttributes,
    /// The value of an attribute cannot be read; the name of the attribute
    /// and why.
    ParseAttribute(String, String),
    /// The text of a filter cannot be read; why.
    ParseFilter(String),
}

/// The model of `ConfigErrorKind`.
pub enum KindView {
    WrongNamespace,
    UnexpectedElement,
    UnexpectedText,
    UnexpectedAttribute,
    MissingAttribute(Seq<char>),
    ExclusiveAttributes,
    ParseAttribute(Seq<char>, Seq<char>),
    ParseFilter(Seq<char>),
}

impl View for ConfigErrorKind {
    type V = KindView;

    open spec fn view(&self) -> KindView {
        match self {
            ConfigErrorKind::WrongNamespace => KindView::WrongNamespace,
            ConfigErrorKind::UnexpectedElement => KindView::UnexpectedElement,
            ConfigErrorKind::UnexpectedText => KindView::UnexpectedText,
            ConfigErrorKind::UnexpectedAttribute => KindView::UnexpectedAttribute,
            ConfigErrorKind::MissingAttribute(n) => KindView::MissingAttribute(n@),
            ConfigErrorKind::ExclusiveAttributes => KindView::ExclusiveAttributes,
            ConfigErrorKind::ParseAttribute(n, m) => KindView::ParseAttribute(n@, m@),
            ConfigErrorKind::ParseFilter(m) => KindView::ParseFilter(m@),
        }
    }
}

impl KindView {
    /// The message of the error.
    pub open spec fn message(self) -> Seq<char> {
        match self {
            KindView::WrongNamespace => "Incorrect namespace for element"@,
            KindView::UnexpectedElement => "Unexpected element"@,
            KindView::UnexpectedText => "Unexpected non-whitespace text"@,
            KindView::UnexpectedAttribute => "Unexpected attribute"@,
            KindView::MissingAttribute(n) => "Missing attribute '"@ + n + "'"@,
            KindView::ExclusiveAttributes =>
                "Exactly one of the attributes 'eq', 'ne', 'lt', 'le', 'gt', 'ge', 'eq_str', 'ne_str' is required"@,
            KindView::ParseAttribute(n, m) => "Failed to parse attribute '"@ + n + "': "@ + m,
            KindView::ParseFilter(m) => "Failed to parse alarm filter: "@ + m,
        }
    }
}

impl ConfigErrorKind {
    /// The message of the error.
    pub fn to_string(&self) -> (s: String)
        ensures
            s@ == self@.message(),
    {
        match self {
            ConfigErrorKind::WrongNamespace => "Incorrect namespace for element".to_owned(),
            ConfigErrorKind::UnexpectedElement => "Unexpected element".to_owned(),
            ConfigErrorKind::UnexpectedText => "Unexpected non-whitespace text".to_owned(),
            ConfigErrorKind::UnexpectedAttribute => "Unexpected attribute".to_owned(),
            ConfigErrorKind::MissingAttribute(n) => {
                let mut s = "Missing attribute '".to_owned();
                s.append(n.as_str());
                s.append("'");
                s
            },
            ConfigErrorKind::ExclusiveAttributes =>
                "Exactly one of the attributes 'eq', 'ne', 'lt', 'le', 'gt', 'ge', 'eq_str', 'ne_str' is required".to_owned(),
            ConfigErrorKind::ParseAttribute(n, m) => {
                let mut s = "Failed to parse attribute '".to_owned();
                s.append(n.as_str());
                s.append("': ");
                s.append(m.as_str());
                s
            },
            ConfigErrorKind::ParseFilter(m) => {
                let mut s = "Failed to parse alarm filter: ".to_owned();
                s.append(m.as_str());
                s
            },
        }
    }
}

/// Something wrong at a place of the configuration.
#[derive(Debug)]
pub struct ConfigError {
    pub kind: ConfigErrorKind,
    pub pos: TextPos,
}

/// The model of `ConfigError`.
pub struct ConfigErrorView {
    pub kind: KindView,
    pub pos: TextPos,
}

impl View for ConfigError {
    type V = ConfigErrorView;

    open spec fn view(&self) -> ConfigErrorView {
        ConfigErrorView { kind: self.kind@, pos: self.pos }
    }
}

impl ConfigErrorView {
    /// The message of the error: the line, the column, and what is wrong.
    pub open spec fn message(self) -> Seq<char> {
        decimal_text(self.pos.row as int) + ":"@ + decimal_text(self.pos.col as int) + ": "@
            + self.kind.message()
    }
}

impl ConfigError {
    /// The message of the error.
    pub fn to_string(&self) -> (s: String)
        ensures
            s@ == self@.message(),
    {
        let mut s = u64_to_string(self.pos.row as u64);
        s.append(":");
        let col = u64_to_string(self.pos.col as u64);
        s.append(col.as_str());
        s.append(": ");
        let kind = self.kind.to_string();
        s.append(kind.as_str());
        s
    }
}

/// Why a configuration cannot be read.
#[derive(Debug)]
pub enum ReadError {
    /// Something is wrong at a place of the text.
    Config(ConfigError),
    /// Something is wrong that has no place.
    Message(String),
}

/// The model of `ReadError`.
pub enum ReadErrorView {
    Config(ConfigErrorView),
    Message(Seq<char>),
}

impl View for ReadError {
    type V = ReadErrorView;

    open spec fn view(&self) -> ReadErrorView {
        match self {
            ReadError::Config(e) => ReadErrorView::Config(e@),
            ReadError::Message(m) => ReadErrorView::Message(m@),
        }
    }
}

impl ReadErrorView {
    /// The message of the error.
    pub open spec fn message(self) -> Seq<char> {
        match self {
            ReadErrorView::Config(e) => e.message(),
            ReadErrorView::Message(m) => m,
        }
    }
}

impl ReadError {
    /// The message of the error.
    pub fn to_string(&self) -> (s: String)
        ensures
            s@ == self@.message(),
    {
        match self {
            ReadError::Config(e) => e.to_string(),
            ReadError::Message(m) => m.clone(),
        }
    }
}

} // verus!
