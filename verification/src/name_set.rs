//! A set of names, kept in the order in which the names came.
use crate::text::same_str;
use vstd::prelude::*;

verus! {

/// The texts of a list of strings.
pub open spec fn texts(names: Seq<String>) -> Seq<Seq<char>> {
    Seq::new(names.len(), |i: int| names[i]@)
}

/// No text occurs twice in the list.
pub open spec fn distinct(names: Seq<Seq<char>>) -> bool {
    forall|i: int, j: int| 0 <= i < j < names.len() ==> names[i] != names[j]
}

/// The position of the first string with the given text, if there is one.
pub fn position(names: &Vec<String>, name: &str) -> (r: Option<usize>)
    ensures
        match r {
            Some(i) => i < names.len() && names@[i as int]@ == name@ && forall|j: int|
                0 <= j < i ==> (#[trigger] names@[j])@ != name@,
            None => forall|j: int| 0 <= j < names.len() ==> (#[trigger] names@[j])@ != name@,
        },
{
    let mut i: usize = 0;
    while i < names.len()
        invariant
            i <= names.len(),
            forall|j: int| 0 <= j < i ==> (#[trigger] names@[j])@ != name@,
        decreases names.len() - i,
    {
        if same_str(names[i].as_str(), name) {
            return Some(i);
        }
        i += 1;
    }
    None
}

/// A set of names.
pub struct NameSet {
    names: Vec<String>,
}

impl NameSet {
    /// The names in the order in which they were added.
    pub closed spec fn names(&self) -> Seq<Seq<char>> {
        texts(self.names@)
    }

    /// What holds of every set: no name is kept twice.
    pub open spec fn wf(&self) -> bool {
        distinct(self.names())
    }

    /// Whether the set holds the name.
    pub open spec fn has(&self, name: Seq<char>) -> bool {
        self.names().contains(name)
    }

    /// The empty set.
    pub fn new() -> (r: NameSet)
        ensures
            r.wf(),
            r.names() == Seq::<Seq<char>>::empty(),
    {
        let r = NameSet { names: Vec::new() };
        assert(r.names() =~= Seq::<Seq<char>>::empty());
        r
    }

    /// The number of names in the set.
    pub fn len(&self) -> (n: usize)
        ensures
            n == self.names().len(),
    {
        self.names.len()
    }

    /// Whether the set holds no name.
    pub fn is_empty(&self) -> (r: bool)
        ensures
            r == (self.names().len() == 0),
    {
        self.names.len() == 0
    }

    /// Whether the set holds the name.
    pub fn contains(&self, name: &str) -> (r: bool)
        ensures
            r == self.has(name@),
    {
        match position(&self.names, name) {
            Some(i) => {
                assert(self.names()[i as int] == name@);
                true
            },
            None => {
                assert forall|j: int| 0 <= j < self.names().len() implies self.names()[j]
                    != name@ by {
                    assert(self.names@[j]@ != name@);
                }
                false
            },
        }
    }

    /// Adds a name to the set and tells whether it was new.
    pub fn insert(&mut self, name: &str) -> (added: bool)
        requires
            old(self).wf(),
        ensures
            final(self).wf(),
            added == !old(self).has(name@),
            final(self).names() == if added {
                old(self).names().push(name@)
            } else {
                old(self).names()
            },
    {
        if self.contains(name) {
            false
        } else {
            let ghost before = self.names();
            self.names.push(name.to_owned());
            proof {
                assert(self.names() =~= before.push(name@));
                assert forall|i: int, j: int| 0 <= i < j < self.names().len() implies self.names()[i]
                    != self.names()[j] by {
                    if j == before.len() {
                        assert(before.contains(before[i]));
                    } else {
                        assert(before[i] != before[j]);
                    }
                }
            }
            true
        }
    }

    /// The name at a position.
    pub fn get(&self, i: usize) -> (r: &str)
        requires
            i < self.names().len(),
        ensures
            r@ == self.names()[i as int],
    {
        self.names[i].as_str()
    }
}

} // verus!
