//! A set of alarm ids.
use vstd::prelude::*;

verus! {

/// A finite set of 32 bit numbers.
pub struct IdSet {
    ids: Vec<i32>,
}

impl View for IdSet {
    type V = Set<i32>;

    closed spec fn view(&self) -> Set<i32> {
        self.ids@.to_set()
    }
}

/// The elements of a list with one more at the end are those of the list
/// and the new one.
proof fn lemma_push_to_set(s: Seq<i32>, x: i32)
    ensures
        s.push(x).to_set() == s.to_set().insert(x),
{
    let t = s.push(x);
    assert forall|y: i32| t.to_set().contains(y) <==> s.to_set().insert(x).contains(y) by {
        if t.contains(y) {
            let i = choose|i: int| 0 <= i < t.len() && t[i] == y;
            if i < s.len() {
                assert(s[i] == y);
            }
        }
        if s.contains(y) {
            let i = choose|i: int| 0 <= i < s.len() && s[i] == y;
            assert(t[i] == y);
        }
        if y == x {
            assert(t[s.len() as int] == x);
        }
    }
    assert(t.to_set() =~= s.to_set().insert(x));
}

/// The elements of a list without repetition from which one position is
/// taken out are those of the list but the one that stood there.
proof fn lemma_remove_to_set(s: Seq<i32>, i: int)
    requires
        s.no_duplicates(),
        0 <= i < s.len(),
    ensures
        s.remove(i).to_set() == s.to_set().remove(s[i]),
        s.remove(i).no_duplicates(),
{
    let t = s.remove(i);
    assert forall|y: i32| t.to_set().contains(y) <==> s.to_set().remove(s[i]).contains(y) by {
        if t.contains(y) {
            let k = choose|k: int| 0 <= k < t.len() && t[k] == y;
            let j = if k < i { k } else { k + 1 };
            assert(s[j] == y);
            assert(j != i);
        }
        if s.contains(y) && y != s[i] {
            let j = choose|j: int| 0 <= j < s.len() && s[j] == y;
            let k = if j < i { j } else { j - 1 };
            assert(t[k] == y);
        }
    }
    assert(t.to_set() =~= s.to_set().remove(s[i]));
    assert forall|a: int, b: int| 0 <= a < t.len() && 0 <= b < t.len() && a != b implies t[a]
        != t[b] by {
        let x = if a < i { a } else { a + 1 };
        let y = if b < i { b } else { b + 1 };
        assert(t[a] == s[x]);
        assert(t[b] == s[y]);
    }
}

impl IdSet {
    /// What holds of every set: no id is kept twice.
    pub closed spec fn wf(&self) -> bool {
        self.ids@.no_duplicates()
    }

    /// The set is finite.
    pub proof fn lemma_finite(&self)
        ensures
            self@.finite(),
    {
        vstd::seq_lib::seq_to_set_is_finite(self.ids@);
    }

    /// The empty set.
    pub fn new() -> (r: IdSet)
        ensures
            r.wf(),
            r@ == Set::<i32>::empty(),
    {
        let r = IdSet { ids: Vec::new() };
        assert(r@ =~= Set::<i32>::empty());
        r
    }

    /// The number of ids in the set.
    pub fn len(&self) -> (n: usize)
        requires
            self.wf(),
        ensures
            n == self@.len(),
            self@.finite(),
    {
        proof {
            self.ids@.unique_seq_to_set();
            self.lemma_finite();
        }
        self.ids.len()
    }

    fn position(&self, id: i32) -> (r: Option<usize>)
        ensures
            match r {
                Some(i) => i < self.ids@.len() && self.ids@[i as int] == id,
                None => !self@.contains(id),
            },
            r is Some <==> self@.contains(id),
    {
        let mut i: usize = 0;
        while i < self.ids.len()
            invariant
                i <= self.ids.len(),
                forall|j: int| 0 <= j < i ==> self.ids@[j] != id,
            decreases self.ids.len() - i,
        {
            if self.ids[i] == id {
                assert(self.ids@.contains(id));
                return Some(i);
            }
            i += 1;
        }
        None
    }

    /// Whether the set holds the id.
    pub fn contains(&self, id: i32) -> (r: bool)
        ensures
            r == self@.contains(id),
    {
        self.position(id).is_some()
    }

    /// Adds an id and tells whether it was new.
    pub fn insert(&mut self, id: i32) -> (added: bool)
        requires
            old(self).wf(),
        ensures
            final(self).wf(),
            final(self)@ == old(self)@.insert(id),
            added == !old(self)@.contains(id),
    {
        if self.contains(id) {
            assert(self@ =~= self@.insert(id));
            false
        } else {
            let ghost before = self.ids@;
            self.ids.push(id);
            proof {
                lemma_push_to_set(before, id);
                assert forall|a: int, b: int|
                    0 <= a < self.ids@.len() && 0 <= b < self.ids@.len() && a
                        != b implies self.ids@[a] != self.ids@[b] by {
                    if a == before.len() {
                        assert(before.contains(before[b]));
                    } else if b == before.len() {
                        assert(before.contains(before[a]));
                    }
                }
            }
            true
        }
    }

    /// Takes an id out and tells whether it was there.
    pub fn remove(&mut self, id: i32) -> (removed: bool)
        requires
            old(self).wf(),
        ensures
            final(self).wf(),
            final(self)@ == old(self)@.remove(id),
            removed == old(self)@.contains(id),
    {
        match self.position(id) {
            Some(i) => {
                let ghost before = self.ids@;
                self.ids.remove(i);
                proof {
                    lemma_remove_to_set(before, i as int);
                }
                true
            },
            None => {
                assert(self@ =~= self@.remove(id));
                false
            },
        }
    }

    /// A copy of the set.
    pub fn duplicate(&self) -> (r: IdSet)
        ensures
            r@ == self@,
            r.wf() == self.wf(),
    {
        IdSet { ids: self.ids.clone() }
    }

    /// The number of ids that are in this set and not in the other.
    pub fn difference_len(&self, other: &IdSet) -> (n: usize)
        requires
            self.wf(),
        ensures
            n == self@.difference(other@).len(),
            n <= self@.len(),
    {
        let mut n: usize = 0;
        let mut i: usize = 0;
        let ghost ids = self.ids@;
        proof {
            assert(ids.take(0).to_set() =~= Set::<i32>::empty());
            assert(ids.take(0).to_set().difference(other@) =~= Set::<i32>::empty());
        }
        while i < self.ids.len()
            invariant
                i <= self.ids.len(),
                ids == self.ids@,
                ids.no_duplicates(),
                n == ids.take(i as int).to_set().difference(other@).len(),
                n <= i,
            decreases self.ids.len() - i,
        {
            let id = self.ids[i];
            proof {
                let before = ids.take(i as int);
                let after = ids.take(i + 1);
                assert(after =~= before.push(id));
                lemma_push_to_set(before, id);
                vstd::seq_lib::seq_to_set_is_finite(before);
                assert(!before.to_set().contains(id)) by {
                    if before.contains(id) {
                        let k = choose|k: int| 0 <= k < before.len() && before[k] == id;
                        assert(ids[k] == ids[i as int]);
                    }
                }
                if other@.contains(id) {
                    assert(after.to_set().difference(other@) =~= before.to_set().difference(
                        other@,
                    ));
                } else {
                    assert(after.to_set().difference(other@) =~= before.to_set().difference(
                        other@,
                    ).insert(id));
                }
            }
            if !other.contains(id) {
                n += 1;
            }
            i += 1;
        }
        proof {
            assert(ids.take(ids.len() as int) =~= ids);
            ids.unique_seq_to_set();
        }
        n
    }
}

} // verus!
