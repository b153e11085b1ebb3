//! The configuration as a tree of nodes: elements with their attributes,
//! pieces of text, and whatever else stands between them.
use crate::read_config::error::TextPos;
use crate::text::{char_at, chars_to_string, same_str, str_to_chars};
use vstd::prelude::*;

verus! {

/// What a node is.
#[derive(Debug, Clone, Copy, PartialEq, Eq, Structural)]
pub enum NodeKind {
    Element,
    Text,
    /// A comment or a processing instruction.
    Other,
}

/// An attribute of an element.
#[derive(Debug)]
pub struct Attribute {
    /// The namespace of the name, if it has one.
    pub namespace: Option<String>,
    /// The name without a prefix.
    pub name: String,
    pub value: String,
}

/// A node of the tree.
#[derive(Debug)]
pub struct XmlNode {
    pub kind: NodeKind,
    /// The namespace of the name of an element, if it has one.
    pub namespace: Option<String>,
    /// The name of an element without a prefix; empty for other nodes.
    pub name: String,
    /// The attributes of an element, in their order.
    pub attributes: Vec<Attribute>,
    /// The text of a piece of text; empty for other nodes.
    pub text: String,
    /// The nodes inside an element, in their order.
    pub children: Vec<XmlNode>,
    /// Where the node begins.
    pub pos: TextPos,
}

/// The namespace of the elements of a configuration.
pub open spec fn namespace() -> Seq<char> {
    "http://www.elektro-kapsel.se/audioplayer/v1"@
}

/// Whether a character is white space: one of the twenty-five characters
/// with the Unicode property `White_Space`.
pub open spec fn is_whitespace(c: char) -> bool {
    let n = c as u32;
    ||| 0x09 <= n <= 0x0d
    ||| n == 0x20
    ||| n == 0x85
    ||| n == 0xa0
    ||| n == 0x1680
    ||| 0x2000 <= n <= 0x200a
    ||| n == 0x2028
    ||| n == 0x2029
    ||| n == 0x202f
    ||| n == 0x205f
    ||| n == 0x3000
}

/// Whether a character is white space.
pub fn whitespace(c: char) -> (r: bool)
    ensures
        r == is_whitespace(c),
{
    let n = c as u32;
    (0x09 <= n && n <= 0x0d) || n == 0x20 || n == 0x85 || n == 0xa0 || n == 0x1680 || (0x2000 <= n
        && n <= 0x200a) || n == 0x2028 || n == 0x2029 || n == 0x202f || n == 0x205f || n == 0x3000
}

/// Whether a text holds nothing but white space.
pub open spec fn all_whitespace(s: Seq<char>) -> bool {
    forall|i: int| 0 <= i < s.len() ==> is_whitespace(#[trigger] s[i])
}

/// Whether a text holds nothing but white space.
pub fn blank(s: &str) -> (r: bool)
    ensures
        r == all_whitespace(s@),
{
    let v = str_to_chars(s);
    let mut i: usize = 0;
    while i < v.len()
        invariant
            i <= v.len(),
            v@ == s@,
            forall|k: int| 0 <= k < i ==> is_whitespace(#[trigger] v@[k]),
        decreases v.len() - i,
    {
        if !whitespace(char_at(&v, i)) {
            return false;
        }
        i += 1;
    }
    true
}

/// The number of white space characters at the beginning of a text.
pub open spec fn leading(s: Seq<char>) -> nat
    decreases s.len(),
{
    if s.len() > 0 && is_whitespace(s[0]) {
        1 + leading(s.skip(1))
    } else {
        0
    }
}

/// The number of white space characters at the end of a text.
pub open spec fn trailing(s: Seq<char>) -> nat
    decreases s.len(),
{
    if s.len() > 0 && is_whitespace(s.last()) {
        1 + trailing(s.drop_last())
    } else {
        0
    }
}

/// A text without the white space at its beginning and at its end.
pub open spec fn trimmed(s: Seq<char>) -> Seq<char> {
    if leading(s) >= s.len() {
        Seq::empty()
    } else {
        s.subrange(leading(s) as int, s.len() - trailing(s))
    }
}

/// The white space at the beginning ends before the first character that
/// is none.
proof fn lemma_leading(s: Seq<char>, k: int)
    requires
        0 <= k <= s.len(),
        forall|i: int| 0 <= i < k ==> is_whitespace(#[trigger] s[i]),
        k < s.len() ==> !is_whitespace(s[k]),
    ensures
        leading(s) == k,
    decreases k,
{
    if k > 0 {
        let rest = s.skip(1);
        assert forall|i: int| 0 <= i < k - 1 implies is_whitespace(#[trigger] rest[i]) by {
            assert(rest[i] == s[i + 1]);
        }
        if k - 1 < rest.len() {
            assert(rest[k - 1] == s[k]);
        }
        lemma_leading(rest, k - 1);
    }
}

/// The white space at the end begins after the last character that is
/// none.
proof fn lemma_trailing(s: Seq<char>, k: int)
    requires
        0 <= k <= s.len(),
        forall|i: int| s.len() - k <= i < s.len() ==> is_whitespace(#[trigger] s[i]),
        k < s.len() ==> !is_whitespace(s[s.len() - k - 1]),
    ensures
        trailing(s) == k,
    decreases k,
{
    if k > 0 {
        let rest = s.drop_last();
        assert forall|i: int| rest.len() - (k - 1) <= i < rest.len() implies is_whitespace(
            #[trigger] rest[i],
        ) by {
            assert(rest[i] == s[i]);
        }
        if k - 1 < rest.len() {
            assert(rest[rest.len() - (k - 1) - 1] == s[s.len() - k - 1]);
        }
        lemma_trailing(rest, k - 1);
    }
}

/// A text without the white space at its beginning and at its end.
pub fn trim(s: &str) -> (r: String)
    ensures
        r@ == trimmed(s@),
{
    let v = str_to_chars(s);
    let mut from: usize = 0;
    while from < v.len() && whitespace(char_at(&v, from))
        invariant
            from <= v.len(),
            forall|i: int| 0 <= i < from ==> is_whitespace(#[trigger] v@[i]),
        decreases v.len() - from,
    {
        from += 1;
    }
    proof {
        lemma_leading(v@, from as int);
    }
    if from == v.len() {
        return String::new();
    }
    let mut to: usize = v.len();
    while to > 0 && whitespace(char_at(&v, to - 1))
        invariant
            to <= v.len(),
            forall|i: int| to <= i < v.len() ==> is_whitespace(#[trigger] v@[i]),
        decreases to,
    {
        to -= 1;
    }
    proof {
        lemma_trailing(v@, v.len() - to);
        assert(!is_whitespace(v@[from as int]));
        if to <= from {
            if to > 0 {
                assert(is_whitespace(v@[from as int]));
            }
        }
    }
    chars_to_string(&v, from, to)
}

/// The value of the first attribute of a list that has the given name and
/// no namespace.
pub open spec fn attribute_of(attributes: Seq<Attribute>, name: Seq<char>) -> Option<Seq<char>>
    decreases attributes.len(),
{
    if attributes.len() == 0 {
        None
    } else if attributes[0].namespace is None && attributes[0].name@ == name {
        Some(attributes[0].value@)
    } else {
        attribute_of(attributes.skip(1), name)
    }
}

impl XmlNode {
    /// The value of the attribute with the given name and no namespace.
    pub open spec fn spec_attribute(&self, name: Seq<char>) -> Option<Seq<char>> {
        attribute_of(self.attributes@, name)
    }

    /// The value of the attribute with the given name and no namespace.
    pub fn attribute(&self, name: &str) -> (r: Option<&String>)
        ensures
            match r {
                Some(v) => self.spec_attribute(name@) == Some(v@),
                None => self.spec_attribute(name@) is None,
            },
    {
        let ghost all = self.attributes@;
        let mut i: usize = 0;
        proof {
            assert(all.skip(0) =~= all);
        }
        while i < self.attributes.len()
            invariant
                i <= self.attributes.len(),
                all == self.attributes@,
                attribute_of(all, name@) == attribute_of(all.skip(i as int), name@),
            decreases self.attributes.len() - i,
        {
            proof {
                assert(all.skip(i as int)[0] == all[i as int]);
                assert(all.skip(i as int).skip(1) =~= all.skip(i + 1));
            }
            let a = &self.attributes[i];
            if a.namespace.is_none() && same_str(a.name.as_str(), name) {
                return Some(&a.value);
            }
            i += 1;
        }
        None
    }

    /// Whether the node is an element of the namespace of the configuration.
    pub open spec fn in_namespace(&self) -> bool {
        self.namespace matches Some(ns) && ns@ == namespace()
    }

    /// Whether the node is an element of the namespace of the configuration.
    pub fn is_in_namespace(&self) -> (r: bool)
        ensures
            r == self.in_namespace(),
    {
        match &self.namespace {
            Some(ns) => same_str(ns.as_str(), "http://www.elektro-kapsel.se/audioplayer/v1"),
            None => false,
        }
    }

    /// Whether the element has the given name.
    pub fn is_named(&self, name: &str) -> (r: bool)
        ensures
            r == (self.name@ == name@),
    {
        same_str(self.name.as_str(), name)
    }
}

} // verus!
