//! A map keyed by strings: an association list whose keys are distinct.
//! Entries keep the order in which their keys were first inserted.

use vstd::prelude::*;
use crate::util::text::str_eq;

verus! {

/// A finite map from text keys to values.
#[derive(Debug, PartialEq)]
pub struct StrMap<V> {
    entries: Vec<(String, V)>,
}

impl<V> StrMap<V> {
    /// The keys of the entries, in order.
    pub closed spec fn key_seq(&self) -> Seq<Seq<char>> {
        Seq::new(self.entries@.len(), |i: int| self.entries@[i].0@)
    }

    /// The entries, keys taken by their text.
    pub closed spec fn entry_seq(&self) -> Seq<(Seq<char>, V)> {
        Seq::new(self.entries@.len(), |i: int| (self.entries@[i].0@, self.entries@[i].1))
    }

    /// No key occurs twice.
    #[verifier::type_invariant]
    closed spec fn keys_distinct(&self) -> bool {
        forall|i: int, j: int|
            0 <= i < j < self.entries@.len() ==> self.entries@[i].0@ != self.entries@[j].0@
    }

    /// Whether `k` is a key.
    pub open spec fn has(&self, k: Seq<char>) -> bool {
        self.key_seq().contains(k)
    }

    /// The value stored under `k` (meaningful when `self.has(k)`).
    pub closed spec fn value_at(&self, k: Seq<char>) -> V {
        let i = choose|i: int| 0 <= i < self.entries@.len() && self.entries@[i].0@ == k;
        self.entries@[i].1
    }

    /// What a lookup of `k` gives.
    pub open spec fn lookup(&self, k: Seq<char>) -> Option<V> {
        if self.has(k) { Some(self.value_at(k)) } else { None }
    }

    /// The number of entries.
    pub open spec fn size(&self) -> nat {
        self.key_seq().len()
    }

    proof fn lemma_index(&self, i: int)
        requires
            0 <= i < self.entries@.len(),
            self.keys_distinct(),
        ensures
            self.has(self.entries@[i].0@),
            self.value_at(self.entries@[i].0@) == self.entries@[i].1,
    {
        assert(self.key_seq()[i] == self.entries@[i].0@);
        let k = self.entries@[i].0@;
        let j = choose|j: int| 0 <= j < self.entries@.len() && self.entries@[j].0@ == k;
        assert(0 <= j < self.entries@.len() && self.entries@[j].0@ == k);
        if j < i {
        } else if i < j {
        }
    }

    /// An empty map.
    pub fn new() -> (m: Self)
        ensures
            m.size() == 0,
            forall|k: Seq<char>| !m.has(k),
    {
        StrMap { entries: Vec::new() }
    }

    fn find(&self, key: &str) -> (r: Option<usize>)
        ensures
            match r {
                Some(i) => i < self.entries@.len() && self.entries@[i as int].0@ == key@ && self.has(key@),
                None => !self.has(key@),
            },
    {
        let mut i: usize = 0;
        while i < self.entries.len()
            invariant
                0 <= i <= self.entries@.len(),
                forall|j: int| 0 <= j < i ==> self.entries@[j].0@ != key@,
            decreases self.entries@.len() - i,
        {
            if str_eq(self.entries[i].0.as_str(), key) {
                assert(self.key_seq()[i as int] == key@);
                return Some(i);
            }
            i = i + 1;
        }
        assert(!self.has(key@)) by {
            if self.key_seq().contains(key@) {
                let j = choose|j: int| 0 <= j < self.key_seq().len() && self.key_seq()[j] == key@;
                assert(self.entries@[j].0@ == key@);
            }
        }
        None
    }

    /// The value stored under `key`, if any.
    pub fn get(&self, key: &str) -> (r: Option<&V>)
        ensures
            match r {
                Some(v) => self.has(key@) && *v == self.value_at(key@),
                None => !self.has(key@),
            },
    {
        match self.find(key) {
            Some(i) => {
                proof {
                    use_type_invariant(self);
                    self.lemma_index(i as int);
                }
                Some(&self.entries[i].1)
            },
            None => None,
        }
    }

    /// Whether `key` is present.
    pub fn contains_key(&self, key: &str) -> (r: bool)
        ensures
            r == self.has(key@),
    {
        self.find(key).is_some()
    }

    /// Stores `value` under `key`, replacing any value stored there;
    /// a new key goes after the existing ones.
    pub fn insert(&mut self, key: String, value: V)
        ensures
            final(self).has(key@),
            final(self).value_at(key@) == value,
            forall|k: Seq<char>| k != key@ ==> (final(self).has(k) == old(self).has(k)),
            forall|k: Seq<char>| k != key@ && old(self).has(k) ==> final(self).value_at(k) == old(self).value_at(k),
            final(self).size() == if old(self).has(key@) { old(self).size() } else { old(self).size() + 1 },
    {
        proof { use_type_invariant(&*self); }
        let ghost old_entries = self.entries@;
        let ghost kv = key@;
        let found = self.find(key.as_str());
        let mut entries: Vec<(String, V)> = Vec::new();
        std::mem::swap(&mut entries, &mut self.entries);
        match found {
            Some(i) => {
                entries.set(i, (key, value));
            },
            None => {
                entries.push((key, value));
            },
        }
        assert forall|i: int, j: int| 0 <= i < j < entries@.len() implies entries@[i].0@ != entries@[j].0@ by {
            if i < old_entries.len() && j < old_entries.len() {
            } else {
                assert(j == old_entries.len());
                assert(old(self).key_seq()[i] == old_entries[i].0@);
            }
        }
        self.entries = entries;
        let ghost n: int = match found { Some(i) => i as int, None => old_entries.len() as int };
        assert forall|k: Seq<char>| k != kv implies (self.has(k) == old(self).has(k)) by {
            if self.has(k) {
                let j = choose|j: int| 0 <= j < self.key_seq().len() && self.key_seq()[j] == k;
                assert(j != n);
                assert(old(self).key_seq()[j] == k);
            }
            if old(self).has(k) {
                let j = choose|j: int| 0 <= j < old(self).key_seq().len() && old(self).key_seq()[j] == k;
                assert(self.key_seq()[j] == k);
            }
        }
        proof {
            use_type_invariant(&*self);
            self.lemma_index(n);
        }
        assert forall|k: Seq<char>| k != kv && old(self).has(k) implies self.value_at(k) == old(self).value_at(k) by {
            let j = choose|j: int| 0 <= j < old(self).key_seq().len() && old(self).key_seq()[j] == k;
            old(self).lemma_index(j);
            assert(j != n);
            self.lemma_index(j);
        }
    }

    /// The number of entries.
    pub fn len(&self) -> (r: usize)
        ensures
            r == self.size(),
    {
        self.entries.len()
    }

    /// Whether the map has no entries.
    pub fn is_empty(&self) -> (r: bool)
        ensures
            r == (self.size() == 0),
    {
        self.entries.len() == 0
    }

    /// The entries, in the order their keys were first inserted.
    pub fn entries(&self) -> (r: &Vec<(String, V)>)
        ensures
            r@.len() == self.size(),
            r@.len() == self.entry_seq().len(),
            forall|i: int| #![trigger r@[i]] 0 <= i < r@.len() ==> r@[i].0@ == self.key_seq()[i] && r@[i].0@ == self.entry_seq()[i].0 && r@[i].1 == self.entry_seq()[i].1,
            forall|i: int| #![trigger r@[i]] 0 <= i < r@.len() ==> self.has(r@[i].0@) && self.value_at(r@[i].0@) == r@[i].1,
            forall|i: int, j: int| 0 <= i < j < r@.len() ==> #[trigger] r@[i].0@ != #[trigger] r@[j].0@,
            forall|k: Seq<char>| #[trigger] self.has(k) ==> exists|i: int| 0 <= i < r@.len() && #[trigger] r@[i].0@ == k,
    {
        proof {
            use_type_invariant(self);
            assert forall|i: int| #![trigger self.entries@[i]] 0 <= i < self.entries@.len() implies self.has(self.entries@[i].0@) && self.value_at(self.entries@[i].0@) == self.entries@[i].1 by {
                self.lemma_index(i);
            }
            assert forall|k: Seq<char>| #[trigger] self.has(k) implies exists|i: int| 0 <= i < self.entries@.len() && #[trigger] self.entries@[i].0@ == k by {
                let i = choose|i: int| 0 <= i < self.key_seq().len() && self.key_seq()[i] == k;
                assert(self.entries@[i].0@ == k);
            }
        }
        &self.entries
    }
}

} // verus!
