//! A map keyed by strings that keeps its entries in insertion order.
//!
//! It stands where a `HashMap<String, V>` holds data whose keys are read:
//! the keys are distinct, a lookup finds the one entry with that key, and an
//! insert of a present key replaces its value in place.
use vstd::prelude::*;
use crate::text::{chars_of, str_eq};

verus! {

broadcast use vstd::string::group_string_axioms;

/// No key occurs twice.
pub open spec fn keys_distinct<T>(s: Seq<(Seq<char>, T)>) -> bool {
    forall|i: int, j: int| 0 <= i < s.len() && 0 <= j < s.len() && i != j ==> s[i].0 != s[j].0
}

/// Some entry has key `k`.
pub open spec fn has_key<T>(s: Seq<(Seq<char>, T)>, k: Seq<char>) -> bool {
    exists|i: int| 0 <= i < s.len() && s[i].0 == k
}

/// The index of the entry with key `k` (meaningful when `has_key`).
pub open spec fn key_index<T>(s: Seq<(Seq<char>, T)>, k: Seq<char>) -> int {
    choose|i: int| 0 <= i < s.len() && s[i].0 == k
}

/// The value stored under `k`, if any.
pub open spec fn lookup<T>(s: Seq<(Seq<char>, T)>, k: Seq<char>) -> Option<T> {
    if has_key(s, k) {
        Some(s[key_index(s, k)].1)
    } else {
        None
    }
}

/// The entries after storing `v` under `k`: an existing entry keeps its
/// place and takes the new value, otherwise the entry is appended.
pub open spec fn insert_entry<T>(s: Seq<(Seq<char>, T)>, k: Seq<char>, v: T) -> Seq<(Seq<char>, T)> {
    if has_key(s, k) {
        s.update(key_index(s, k), (k, v))
    } else {
        s.push((k, v))
    }
}

/// The keys of the entries, in order.
pub open spec fn keys_of<T>(s: Seq<(Seq<char>, T)>) -> Seq<Seq<char>> {
    s.map_values(|e: (Seq<char>, T)| e.0)
}

/// In a map with distinct keys, the entry at `i` is what a lookup of its key gives.
pub proof fn lemma_lookup_at<T>(s: Seq<(Seq<char>, T)>, i: int)
    requires
        keys_distinct(s),
        0 <= i < s.len(),
    ensures
        has_key(s, s[i].0),
        key_index(s, s[i].0) == i,
        lookup(s, s[i].0) == Some(s[i].1),
{
    assert(has_key(s, s[i].0));
}

/// Storing under a key keeps keys distinct; a later lookup of that key gives
/// the stored value, and lookups of every other key are unchanged.
pub proof fn lemma_insert_lookup<T>(s: Seq<(Seq<char>, T)>, k: Seq<char>, v: T, q: Seq<char>)
    requires
        keys_distinct(s),
    ensures
        keys_distinct(insert_entry(s, k, v)),
        lookup(insert_entry(s, k, v), k) == Some(v),
        q != k ==> lookup(insert_entry(s, k, v), q) == lookup(s, q),
{
    let t = insert_entry(s, k, v);
    if has_key(s, k) {
        let i = key_index(s, k);
        assert(t[i].0 == k);
        lemma_lookup_at(t, i);
        if q != k {
            if has_key(s, q) {
                let j = key_index(s, q);
                assert(j != i);
                assert(t[j] == s[j]);
                lemma_lookup_at(t, j);
            } else {
                assert forall|j: int| 0 <= j < t.len() implies t[j].0 != q by {
                    if j != i {
                        assert(t[j] == s[j]);
                    }
                }
            }
        }
    } else {
        let i = s.len() as int;
        assert(t[i].0 == k);
        assert(keys_distinct(t)) by {
            assert forall|a: int, b: int|
                0 <= a < t.len() && 0 <= b < t.len() && a != b implies t[a].0 != t[b].0 by {
                if a < i && b < i {
                    assert(t[a] == s[a] && t[b] == s[b]);
                } else if a < i {
                    assert(t[a] == s[a]);
                } else if b < i {
                    assert(t[b] == s[b]);
                }
            }
        }
        lemma_lookup_at(t, i);
        if q != k {
            if has_key(s, q) {
                let j = key_index(s, q);
                assert(t[j] == s[j]);
                lemma_lookup_at(t, j);
            } else {
                assert forall|j: int| 0 <= j < t.len() implies t[j].0 != q by {
                    if j < i {
                        assert(t[j] == s[j]);
                    }
                }
            }
        }
    }
}

/// A string-keyed map with entries in insertion order.
#[derive(Debug)]
pub struct StrMap<V: View> {
    entries: Vec<(String, V)>,
}

impl<V: View> StrMap<V> {
    /// The entries: each key by its characters, each value by its view.
    pub closed spec fn entries(&self) -> Seq<(Seq<char>, V::V)> {
        self.entries@.map_values(|e: (String, V)| (e.0@, e.1@))
    }

    #[verifier::type_invariant]
    closed spec fn distinct_keys(&self) -> bool {
        keys_distinct(self.entries())
    }

    /// Brings the map's invariant into the caller's proof context: its keys
    /// are distinct.
    pub(crate) fn note_distinct(&self)
        ensures
            keys_distinct(self.entries()),
    {
        proof {
            use_type_invariant(self);
        }
    }

    /// An empty map.
    pub fn new() -> (res: Self)
        ensures
            res.entries() == Seq::<(Seq<char>, V::V)>::empty(),
    {
        let res = StrMap { entries: Vec::new() };
        assert(res.entries() =~= Seq::<(Seq<char>, V::V)>::empty());
        res
    }

    /// The number of entries.
    pub fn len(&self) -> (res: usize)
        ensures
            res == self.entries().len(),
    {
        self.entries.len()
    }

    /// The key of the entry at `i`.
    pub fn key_at(&self, i: usize) -> (res: &String)
        requires
            i < self.entries().len(),
        ensures
            res@ == self.entries()[i as int].0,
    {
        &self.entries[i].0
    }

    /// The value of the entry at `i`.
    pub fn value_at(&self, i: usize) -> (res: &V)
        requires
            i < self.entries().len(),
        ensures
            res@ == self.entries()[i as int].1,
    {
        &self.entries[i].1
    }

    /// The position of the entry with key `key`, if there is one.
    pub fn find(&self, key: &str) -> (res: Option<usize>)
        ensures
            res is Some <==> has_key(self.entries(), key@),
            res matches Some(i) ==> i == key_index(self.entries(), key@) && i
                < self.entries().len() && self.entries()[i as int].0 == key@,
    {
        proof {
            use_type_invariant(self);
        }
        let n = self.entries.len();
        for i in 0..n
            invariant
                n == self.entries().len(),
                keys_distinct(self.entries()),
                forall|j: int| 0 <= j < i ==> self.entries()[j].0 != key@,
        {
            if str_eq(self.entries[i].0.as_str(), key) {
                proof {
                    lemma_lookup_at(self.entries(), i as int);
                }
                return Some(i);
            }
        }
        None
    }

    /// Whether some entry has key `key`.
    pub fn contains_key(&self, key: &str) -> (res: bool)
        ensures
            res == has_key(self.entries(), key@),
    {
        self.find(key).is_some()
    }

    /// The value stored under `key`, if any.
    pub fn get(&self, key: &str) -> (res: Option<&V>)
        ensures
            res matches Some(v) ==> lookup(self.entries(), key@) == Some(v@),
            res is None ==> lookup(self.entries(), key@) is None,
    {
        match self.find(key) {
            Some(i) => Some(&self.entries[i].1),
            None => None,
        }
    }

    /// Replaces the value of the entry at `i`.
    pub fn set_value_at(&mut self, i: usize, value: V)
        requires
            i < old(self).entries().len(),
        ensures
            final(self).entries() == old(self).entries().update(
                i as int,
                (old(self).entries()[i as int].0, value@),
            ),
    {
        proof {
            use_type_invariant(&*self);
        }
        let ghost before = self.entries();
        let key = self.entries[i].0.clone();
        let mut entries: Vec<(String, V)> = Vec::new();
        std::mem::swap(&mut entries, &mut self.entries);
        entries.set(i, (key, value));
        assert(entries@.map_values(|e: (String, V)| (e.0@, e.1@)) =~= before.update(
            i as int,
            (before[i as int].0, value@),
        ));
        assert forall|a: int, b: int|
            0 <= a < before.len() && 0 <= b < before.len() && a != b implies before.update(
            i as int,
            (before[i as int].0, value@),
        )[a].0 != before.update(i as int, (before[i as int].0, value@))[b].0 by {}
        self.entries = entries;
    }

    /// Stores `value` under `key`: the entry with that key takes the new
    /// value in its place, or a new entry is appended.
    pub fn insert(&mut self, key: String, value: V)
        ensures
            final(self).entries() == insert_entry(old(self).entries(), key@, value@),
    {
        proof {
            use_type_invariant(&*self);
            lemma_insert_lookup(self.entries(), key@, value@, key@);
        }
        match self.find(key.as_str()) {
            Some(i) => {
                self.set_value_at(i, value);
            },
            None => {
                let ghost before = self.entries();
                let mut entries: Vec<(String, V)> = Vec::new();
        std::mem::swap(&mut entries, &mut self.entries);
                let ghost kv = key@;
                let ghost vv = value@;
                entries.push((key, value));
                assert(entries@.map_values(|e: (String, V)| (e.0@, e.1@)) =~= before.push(
                    (kv, vv),
                ));
                self.entries = entries;
            },
        }
    }
}

} // verus!
