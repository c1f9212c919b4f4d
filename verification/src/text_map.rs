//! A map keyed by text.
use vstd::prelude::*;

use crate::text::text_eq;

verus! {

/// A map from texts to values. No text is a key twice. Entries are kept in the order in which
/// their keys came in.
#[derive(Debug)]
pub struct TextMap<V> {
    entries: Vec<(String, V)>,
}

/// Some entry of the list has the key.
spec fn has_key<V>(entries: Seq<(String, V)>, key: Seq<char>) -> bool {
    exists|i: int| 0 <= i < entries.len() && #[trigger] entries[i].0@ == key
}

/// The position of the key in the list.
spec fn position<V>(entries: Seq<(String, V)>, key: Seq<char>) -> int {
    choose|i: int| 0 <= i < entries.len() && #[trigger] entries[i].0@ == key
}

/// No key occurs twice in the list.
spec fn distinct_keys<V>(entries: Seq<(String, V)>) -> bool {
    forall|i: int, j: int|
        0 <= i < j < entries.len() ==> #[trigger] entries[i].0@ != #[trigger] entries[j].0@
}

impl<V> View for TextMap<V> {
    type V = Map<Seq<char>, V>;

    closed spec fn view(&self) -> Map<Seq<char>, V> {
        Map::new(
            |key: Seq<char>| has_key(self.entries@, key),
            |key: Seq<char>| self.entries@[position(self.entries@, key)].1,
        )
    }
}

impl<V> TextMap<V> {
    #[verifier::type_invariant]
    spec fn keys_are_distinct(&self) -> bool {
        distinct_keys(self.entries@)
    }

    /// The keys, in the order in which they came in.
    pub closed spec fn keys(&self) -> Seq<Seq<char>> {
        Seq::new(self.entries@.len(), |i: int| self.entries@[i].0@)
    }

    /// The listed keys are those that the map has.
    pub proof fn keys_are_the_domain(&self)
        ensures
            forall|key: Seq<char>| #[trigger]
                self@.contains_key(key) <==> self.keys().contains(key),
            forall|i: int|
                0 <= i < self.keys().len() ==> self@.contains_key(#[trigger] self.keys()[i]),
    {
        assert forall|key: Seq<char>| self.keys().contains(key) implies #[trigger]
            self@.contains_key(key) by {
            let i = choose|i: int| 0 <= i < self.keys().len() && self.keys()[i] == key;
            assert(self.entries@[i].0@ == key);
        }
        assert forall|key: Seq<char>| #[trigger] self@.contains_key(key) implies self.keys().contains(
            key,
        ) by {
            let i = position(self.entries@, key);
            assert(self.keys()[i] == key);
        }
        assert forall|i: int| 0 <= i < self.keys().len() implies self@.contains_key(
            #[trigger] self.keys()[i],
        ) by {
            assert(self.entries@[i].0@ == self.keys()[i]);
        }
    }

    /// A map comes after its values in the order by which recursion is measured.
    pub proof fn decreases_to_values(&self)
        ensures
            forall|key: Seq<char>|
                self@.contains_key(key) ==> #[trigger] decreases_to!(self => self@[key]),
    {
        assert forall|key: Seq<char>| self@.contains_key(key) implies #[trigger] decreases_to!(self => self@[key]) by {
            let i = position(self.entries@, key);
            assert(decreases_to!(self => self.entries));
            assert(decreases_to!(self.entries => self.entries@));
            assert(decreases_to!(self.entries@ => self.entries@[i]));
            assert(decreases_to!(self.entries@[i] => self.entries@[i].1));
        }
    }

    /// The map without entries.
    pub fn new() -> (r: Self)
        ensures
            r@ == Map::<Seq<char>, V>::empty(),
            r.keys() == Seq::<Seq<char>>::empty(),
    {
        let r = TextMap { entries: Vec::new() };
        assert(r@ =~= Map::<Seq<char>, V>::empty());
        assert(r.keys() =~= Seq::<Seq<char>>::empty());
        r
    }

    /// The number of entries.
    pub fn len(&self) -> (n: usize)
        ensures
            n == self.keys().len(),
            self.keys().no_duplicates(),
    {
        proof {
            use_type_invariant(self);
            assert forall|i: int, j: int|
                0 <= i < self.keys().len() && 0 <= j < self.keys().len() && i
                    != j implies self.keys()[i] != self.keys()[j] by {
                assert(self.entries@[i].0@ == self.keys()[i]);
                assert(self.entries@[j].0@ == self.keys()[j]);
            }
        }
        self.entries.len()
    }

    /// The entry at a place of the order in which keys came in.
    pub fn entry(&self, i: usize) -> (r: (&String, &V))
        requires
            i < self.keys().len(),
        ensures
            r.0@ == self.keys()[i as int],
            self@.contains_key(r.0@),
            *r.1 == self@[r.0@],
            decreases_to!(self => *r.1),
    {
        proof {
            use_type_invariant(self);
            self.keys_are_the_domain();
            self.decreases_to_values();
            let key = self.keys()[i as int];
            assert(self.entries@[i as int].0@ == key);
            assert(position(self.entries@, key) == i);
            assert(decreases_to!(self => self@[key]));
        }
        (&self.entries[i].0, &self.entries[i].1)
    }

    /// The place of a key in the list of entries.
    fn find(&self, key: &str) -> (r: Option<usize>)
        ensures
            match r {
                Some(i) => i < self.entries@.len() && self.entries@[i as int].0@ == key@,
                None => !has_key(self.entries@, key@),
            },
    {
        let mut i: usize = 0;
        while i < self.entries.len()
            invariant
                i <= self.entries.len(),
                forall|j: int| 0 <= j < i ==> #[trigger] self.entries@[j].0@ != key@,
            decreases self.entries.len() - i,
        {
            if text_eq(self.entries[i].0.as_str(), key) {
                return Some(i);
            }
            i += 1;
        }
        None
    }

    /// The value under a key.
    pub fn get(&self, key: &str) -> (r: Option<&V>)
        ensures
            match r {
                Some(v) => self@.contains_key(key@) && *v == self@[key@],
                None => !self@.contains_key(key@),
            },
    {
        match self.find(key) {
            Some(i) => {
                proof {
                    use_type_invariant(self);
                    assert(position(self.entries@, key@) == i);
                }
                Some(&self.entries[i].1)
            },
            None => None,
        }
    }

    /// Whether the map has a key.
    pub fn contains_key(&self, key: &str) -> (r: bool)
        ensures
            r == self@.contains_key(key@),
    {
        match self.find(key) {
            Some(_) => true,
            None => false,
        }
    }

    /// Puts a value under a key, in place of the one that was there.
    pub fn insert(&mut self, key: String, value: V)
        ensures
            final(self)@ == old(self)@.insert(key@, value),
            final(self).keys() == if old(self)@.contains_key(key@) {
                old(self).keys()
            } else {
                old(self).keys().push(key@)
            },
    {
        proof {
            use_type_invariant(&*self);
        }
        let found = self.find(key.as_str());
        let mut entries: Vec<(String, V)> = Vec::new();
        std::mem::swap(&mut entries, &mut self.entries);
        let ghost before = entries@;
        let ghost text = key@;
        match found {
            Some(i) => {
                entries.set(i, (key, value));
                proof {
                    assert forall|j: int| 0 <= j < before.len() implies (#[trigger]
                    entries@[j]).0@ == before[j].0@ by {}
                    assert(position(before, text) == i);
                }
            },
            None => {
                entries.push((key, value));
                proof {
                    assert forall|j: int| 0 <= j < before.len() implies before[j].0@ != text by {
                        assert(before[j].0@ != text);
                    }
                }
            },
        }
        proof {
            assert(distinct_keys(entries@));
            assert forall|k: Seq<char>| k != text implies has_key(entries@, k) == has_key(
                before,
                k,
            ) && (has_key(before, k) ==> entries@[position(entries@, k)] == before[position(
                before,
                k,
            )]) by {
                if has_key(before, k) {
                    let p = position(before, k);
                    assert(entries@[p].0@ == k);
                    assert(position(entries@, k) == p);
                }
                if has_key(entries@, k) {
                    let p = position(entries@, k);
                    assert(before[p].0@ == k);
                }
            }
            let at = if found is Some {
                found->0 as int
            } else {
                before.len() as int
            };
            assert(entries@[at].0@ == text);
            assert(position(entries@, text) == at);
        }
        self.entries = entries;
        proof {
            assert(self@ =~= old(self)@.insert(text, value));
            assert(old(self)@.contains_key(text) == (found is Some));
            assert(self.keys() =~= if found is Some {
                old(self).keys()
            } else {
                old(self).keys().push(text)
            });
        }
    }

    /// Takes a key and its value out.
    pub fn remove(&mut self, key: &str) -> (r: Option<V>)
        ensures
            final(self)@ == old(self)@.remove(key@),
            match r {
                Some(v) => old(self)@.contains_key(key@) && v == old(self)@[key@],
                None => !old(self)@.contains_key(key@),
            },
    {
        proof {
            use_type_invariant(&*self);
        }
        match self.find(key) {
            None => {
                proof {
                    assert(self@ =~= old(self)@.remove(key@));
                }
                None
            },
            Some(i) => {
                let mut entries: Vec<(String, V)> = Vec::new();
                std::mem::swap(&mut entries, &mut self.entries);
                let ghost before = entries@;
                let (_, value) = entries.remove(i);
                proof {
                    assert(position(before, key@) == i);
                    assert forall|j: int| 0 <= j < entries@.len() implies #[trigger] entries@[j]
                        == before[if j < i {
                        j
                    } else {
                        j + 1
                    }] by {}
                    assert(distinct_keys(entries@));
                    assert(!has_key(entries@, key@));
                    assert forall|k: Seq<char>| k != key@ implies has_key(entries@, k) == has_key(
                        before,
                        k,
                    ) && (has_key(before, k) ==> entries@[position(entries@, k)]
                        == before[position(before, k)]) by {
                        if has_key(before, k) {
                            let p = position(before, k);
                            let q = if p < i {
                                p
                            } else {
                                p - 1
                            };
                            assert(entries@[q].0@ == k);
                            assert(position(entries@, k) == q);
                        }
                        if has_key(entries@, k) {
                            let q = position(entries@, k);
                            let p = if q < i {
                                q
                            } else {
                                q + 1
                            };
                            assert(before[p].0@ == k);
                        }
                    }
                }
                self.entries = entries;
                proof {
                    assert(self@ =~= old(self)@.remove(key@));
                }
                Some(value)
            },
        }
    }
}

} // verus!
