//! A finite map with strings for keys, kept in the order of first insertion.

use vstd::prelude::*;

verus! {

/// A finite map from strings to values of `V`. No key is held twice.
#[derive(Debug)]
pub struct StringMap<V> {
    entries: Vec<(String, V)>,
}

/// Whether no two entries have the same key.
pub open spec fn distinct_keys<V>(entries: Seq<(String, V)>) -> bool {
    forall|i: int, j: int|
        0 <= i < entries.len() && 0 <= j < entries.len() && i != j ==> (#[trigger] entries[i]).0@
            != (#[trigger] entries[j]).0@
}

/// Whether one of the entries has the key `key`.
pub open spec fn has_key<V>(entries: Seq<(String, V)>, key: Seq<char>) -> bool {
    exists|i: int| 0 <= i < entries.len() && (#[trigger] entries[i]).0@ == key
}

/// Where the entry with the key `key` stands.
pub open spec fn key_index<V>(entries: Seq<(String, V)>, key: Seq<char>) -> int {
    choose|i: int| 0 <= i < entries.len() && (#[trigger] entries[i]).0@ == key
}

/// The map that a sequence of entries stands for.
pub open spec fn map_of<V>(entries: Seq<(String, V)>) -> Map<Seq<char>, V> {
    Map::new(|key: Seq<char>| has_key(entries, key), |key: Seq<char>| entries[key_index(entries, key)].1)
}

/// A map of strings, with each value as the text it holds.
pub open spec fn text_values(m: Map<Seq<char>, String>) -> Map<Seq<char>, Seq<char>> {
    Map::new(|key: Seq<char>| m.contains_key(key), |key: Seq<char>| m[key]@)
}

impl<V> View for StringMap<V> {
    type V = Map<Seq<char>, V>;

    closed spec fn view(&self) -> Map<Seq<char>, V> {
        map_of(self.entries@)
    }
}

impl<V> StringMap<V> {
    #[verifier::type_invariant]
    spec fn well_formed(&self) -> bool {
        distinct_keys(self.entries@)
    }

    /// The empty map.
    pub fn new() -> (r: Self)
        ensures
            r@ == Map::<Seq<char>, V>::empty(),
            r.spec_keys() == Seq::<Seq<char>>::empty(),
    {
        let r = StringMap { entries: Vec::new() };
        assert(r@ =~= Map::<Seq<char>, V>::empty());
        assert(r.spec_keys() =~= Seq::<Seq<char>>::empty());
        r
    }

    /// The keys, in the order in which they were first inserted.
    pub closed spec fn spec_keys(&self) -> Seq<Seq<char>> {
        Seq::new(self.entries@.len(), |i: int| self.entries@[i].0@)
    }

    /// The keys of the map are the items of the sequence of its keys.
    pub proof fn lemma_keys(&self)
        ensures
            forall|key: Seq<char>| self@.contains_key(key) <==> self.spec_keys().contains(key),
    {
        assert forall|key: Seq<char>| self@.contains_key(key) <==> self.spec_keys().contains(
            key,
        ) by {
            if self@.contains_key(key) {
                let k = key_index(self.entries@, key);
                assert(self.spec_keys()[k] == key);
            }
            if self.spec_keys().contains(key) {
                let k = choose|k: int| 0 <= k < self.spec_keys().len() && self.spec_keys()[k] == key;
                assert(self.entries@[k].0@ == key);
            }
        }
    }

    /// How many keys the map holds.
    pub fn len(&self) -> (r: usize)
        ensures
            r == self.spec_keys().len(),
            self.spec_keys().no_duplicates(),
    {
        proof {
            use_type_invariant(self);
        }
        self.entries.len()
    }

    /// The key that was inserted as the `i`-th new one.
    pub fn key(&self, i: usize) -> (r: &String)
        requires
            i < self.spec_keys().len(),
        ensures
            r@ == self.spec_keys()[i as int],
            self.spec_keys().no_duplicates(),
    {
        proof {
            use_type_invariant(self);
        }
        &self.entries[i].0
    }

    /// Where the entry with the key `key` stands, if there is one.
    fn position(&self, key: &str) -> (r: Option<usize>)
        ensures
            match r {
                Some(i) => i < self.entries@.len() && self.entries@[i as int].0@ == key@,
                None => !has_key(self.entries@, key@),
            },
    {
        let mut i: usize = 0;
        while i < self.entries.len()
            invariant
                i <= self.entries.len(),
                forall|k: int| 0 <= k < i ==> (#[trigger] self.entries@[k]).0@ != key@,
            decreases self.entries.len() - i,
        {
            if self.entries[i].0.as_str().eq(key) {
                return Some(i);
            }
            i = i + 1;
        }
        None
    }

    /// The value held for `key`, if there is one.
    pub fn get(&self, key: &str) -> (r: Option<&V>)
        ensures
            match r {
                Some(value) => self@.contains_key(key@) && *value == self@[key@],
                None => !self@.contains_key(key@),
            },
    {
        proof {
            use_type_invariant(self);
        }
        match self.position(key) {
            Some(i) => {
                assert(has_key(self.entries@, key@));
                Some(&self.entries[i].1)
            },
            None => None,
        }
    }

    /// Whether a value is held for `key`.
    pub fn contains_key(&self, key: &str) -> (r: bool)
        ensures
            r == self@.contains_key(key@),
    {
        self.get(key).is_some()
    }

    /// Holds `value` for `key` from now on, and hands back what was held for
    /// it before.
    pub fn insert(&mut self, key: String, value: V) -> (r: Option<V>)
        ensures
            final(self)@ == old(self)@.insert(key@, value),
            r == if old(self)@.contains_key(key@) {
                Some(old(self)@[key@])
            } else {
                None::<V>
            },
            final(self).spec_keys() == if old(self)@.contains_key(key@) {
                old(self).spec_keys()
            } else {
                old(self).spec_keys().push(key@)
            },
    {
        proof {
            use_type_invariant(&*self);
        }
        let ghost before = self.entries@;
        let found = self.position(key.as_str());
        let mut entries: Vec<(String, V)> = Vec::new();
        std::mem::swap(&mut self.entries, &mut entries);
        let r = match found {
            Some(i) => {
                assert(has_key(before, key@));
                entries.push((key, value));
                let old_entry = entries.swap_remove(i);
                Some(old_entry.1)
            },
            None => {
                entries.push((key, value));
                None
            },
        };
        proof {
            let after = entries@;
            assert(distinct_keys(after));
            assert forall|k: Seq<char>| has_key(after, k) <==> (k == key@ || has_key(before, k)) by {
                if has_key(before, k) {
                    let i = key_index(before, k);
                    if k != key@ {
                        assert(after[i].0@ == k);
                    }
                }
                if k == key@ {
                    match found {
                        Some(i) => {
                            assert(after[i as int].0@ == k);
                        },
                        None => {
                            assert(after[after.len() - 1].0@ == k);
                        },
                    }
                }
                if has_key(after, k) {
                    let i = key_index(after, k);
                    if k != key@ {
                        assert(before[i].0@ == k);
                    }
                }
            }
            assert forall|k: Seq<char>| has_key(after, k) implies map_of(after)[k] == if k
                == key@ {
                value
            } else {
                map_of(before)[k]
            } by {
                let i = key_index(after, k);
                if k != key@ {
                    assert(before[i].0@ == k);
                    assert(key_index(before, k) == i);
                }
            }
            assert(map_of(after) =~= map_of(before).insert(key@, value));
        }
        self.entries = entries;
        proof {
            let keys_then = Seq::new(before.len(), |i: int| before[i].0@);
            if has_key(before, key@) {
                assert(self.spec_keys() =~= keys_then);
            } else {
                assert(self.spec_keys() =~= keys_then.push(key@));
            }
        }
        r
    }
}

impl<V: Clone> Clone for StringMap<V> {
    fn clone(&self) -> (r: Self)
        ensures
            r@.dom() == self@.dom(),
            forall|key: Seq<char>| #[trigger]
                self@.contains_key(key) ==> cloned::<V>(self@[key], r@[key]),
            r.spec_keys() == self.spec_keys(),
    {
        proof {
            use_type_invariant(self);
        }
        let mut entries: Vec<(String, V)> = Vec::new();
        let mut i: usize = 0;
        while i < self.entries.len()
            invariant
                i <= self.entries.len(),
                entries@.len() == i,
                forall|k: int| 0 <= k < i ==> (#[trigger] entries@[k]).0@ == self.entries@[k].0@,
                forall|k: int|
                    0 <= k < i ==> cloned::<V>(self.entries@[k].1, (#[trigger] entries@[k]).1),
            decreases self.entries.len() - i,
        {
            let key = self.entries[i].0.clone();
            let value = self.entries[i].1.clone();
            entries.push((key, value));
            i = i + 1;
        }
        let r = StringMap { entries };
        proof {
            assert forall|key: Seq<char>| has_key(self.entries@, key) == has_key(
                r.entries@,
                key,
            ) by {
                if has_key(self.entries@, key) {
                    let k = key_index(self.entries@, key);
                    assert(r.entries@[k].0@ == key);
                }
                if has_key(r.entries@, key) {
                    let k = key_index(r.entries@, key);
                    assert(self.entries@[k].0@ == key);
                }
            }
            assert(r@.dom() =~= self@.dom());
            assert(r.spec_keys() =~= self.spec_keys());
            assert forall|key: Seq<char>| #[trigger] self@.contains_key(key) implies cloned::<V>(
                self@[key],
                r@[key],
            ) by {
                let k = key_index(self.entries@, key);
                assert(r.entries@[k].0@ == key);
                assert(key_index(r.entries@, key) == k);
            }
        }
        r
    }
}

impl<V> Default for StringMap<V> {
    fn default() -> (r: Self)
        ensures
            r@ == Map::<Seq<char>, V>::empty(),
            r.spec_keys() == Seq::<Seq<char>>::empty(),
    {
        StringMap::new()
    }
}

} // verus!
