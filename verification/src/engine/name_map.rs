//! A map from names to values, in insertion order, where inserting an
//! existing name replaces its value.

use vstd::prelude::*;

use crate::text::{chars_equal, chars_of};

verus! {

/// Entries keyed by name; no name occurs twice.
#[derive(Debug)]
pub struct NameMap<V> {
    pub entries: Vec<(String, V)>,
}

/// Whether no name occurs twice among `entries`.
pub open spec fn names_distinct<V>(entries: Seq<(String, V)>) -> bool {
    forall|i: int, j: int|
        0 <= i < entries.len() && 0 <= j < entries.len() && i != j ==> entries[i].0@
            != entries[j].0@
}

/// Whether entry `i` has name `k`.
pub open spec fn entry_named<V>(entries: Seq<(String, V)>, i: int, k: Seq<char>) -> bool {
    0 <= i < entries.len() && entries[i].0@ == k
}

impl<V> NameMap<V> {
    /// Whether no name occurs twice.
    pub open spec fn wf(&self) -> bool {
        names_distinct(self.entries@)
    }

    /// Whether `k` is a name of the map.
    pub open spec fn has(&self, k: Seq<char>) -> bool {
        exists|i: int| entry_named(self.entries@, i, k)
    }

    /// The value of name `k`, if any.
    pub open spec fn spec_get(&self, k: Seq<char>) -> Option<V> {
        if self.has(k) {
            Some(self.entries@[choose|i: int| entry_named(self.entries@, i, k)].1)
        } else {
            None
        }
    }

    /// The map that the entries hold, from each name to its value.
    pub open spec fn map_view(&self) -> Map<Seq<char>, V> {
        Map::new(|k: Seq<char>| self.has(k), |k: Seq<char>| self.spec_get(k)->0)
    }

    /// An empty map.
    pub fn new() -> (r: NameMap<V>)
        ensures
            r.wf(),
            r.entries@.len() == 0,
            r.map_view() == Map::<Seq<char>, V>::empty(),
    {
        NameMap { entries: Vec::new() }
    }

    /// The number of names.
    pub fn len(&self) -> (r: usize)
        ensures
            r == self.entries@.len(),
    {
        self.entries.len()
    }

    /// Whether the map holds no name.
    pub fn is_empty(&self) -> (r: bool)
        ensures
            r == (self.entries@.len() == 0),
    {
        self.entries.len() == 0
    }

    /// The index of the entry named `key`.
    pub fn position(&self, key: &str) -> (r: Option<usize>)
        requires
            self.wf(),
        ensures
            match r {
                Some(i) => entry_named(self.entries@, i as int, key@),
                None => !self.has(key@),
            },
    {
        let k = chars_of(key);
        let mut i: usize = 0;
        while i < self.entries.len()
            invariant
                i <= self.entries@.len(),
                k@ == key@,
                forall|j: int| 0 <= j < i ==> self.entries@[j].0@ != key@,
            decreases self.entries@.len() - i,
        {
            let name = chars_of(self.entries[i].0.as_str());
            if chars_equal(name.as_slice(), k.as_slice()) {
                return Some(i);
            }
            i += 1;
        }
        None
    }

    /// The value of `key`, if it is a name of the map.
    pub fn get(&self, key: &str) -> (r: Option<&V>)
        requires
            self.wf(),
        ensures
            match r {
                Some(v) => self.spec_get(key@) == Some(*v),
                None => self.spec_get(key@) is None,
            },
    {
        match self.position(key) {
            Some(i) => {
                proof {
                    let c = choose|j: int| entry_named(self.entries@, j, key@);
                    assert(c == i);
                }
                Some(&self.entries[i].1)
            },
            None => None,
        }
    }

    /// Whether `key` is a name of the map.
    pub fn contains_key(&self, key: &str) -> (r: bool)
        requires
            self.wf(),
        ensures
            r == self.has(key@),
    {
        self.position(key).is_some()
    }

    /// Sets the value of `key`: replaces the value of an existing name in
    /// place, or appends a new entry.
    pub fn insert(&mut self, key: String, value: V)
        requires
            old(self).wf(),
        ensures
            final(self).wf(),
            final(self).spec_get(key@) == Some(value),
            forall|k: Seq<char>| k != key@ ==> final(self).spec_get(k) == old(self).spec_get(k),
            old(self).has(key@) ==> exists|i: int|
                entry_named(old(self).entries@, i, key@) && final(self).entries@ == old(
                    self,
                ).entries@.update(i, (key, value)),
            !old(self).has(key@) ==> final(self).entries@ == old(self).entries@.push((key, value)),
            final(self).map_view() == old(self).map_view().insert(key@, value),
    {
        let ghost key_view = key@;
        let ghost value_view = value;
        match self.position(key.as_str()) {
            Some(i) => {
                let ghost prev = self.entries@;
                let ghost pair = (key, value);
                self.entries.set(i, (key, value));
                assert(self.entries@ == prev.update(i as int, pair));
                assert(entry_named(prev, i as int, key_view));
                assert forall|k: Seq<char>| k != key_view implies self.spec_get(k) == old(self).spec_get(
                    k,
                ) by {
                    if old(self).has(k) {
                        let c = choose|j: int| entry_named(prev, j, k);
                        assert(entry_named(self.entries@, c, k));
                        let d = choose|j: int| entry_named(self.entries@, j, k);
                        assert(d == c);
                    }
                    if self.has(k) {
                        let d = choose|j: int| entry_named(self.entries@, j, k);
                        assert(entry_named(prev, d, k));
                    }
                }
                assert(entry_named(self.entries@, i as int, key_view));
                let ghost c = choose|j: int| entry_named(self.entries@, j, key_view);
                assert(c == i);
            },
            None => {
                let ghost prev = self.entries@;
                self.entries.push((key, value));
                let ghost n: int = self.entries@.len() - 1;
                assert(entry_named(self.entries@, n, key_view));
                assert forall|a: int| 0 <= a < n implies self.entries@[a].0@ != key_view by {
                    assert(self.entries@[a] == prev[a]);
                    assert(!entry_named(prev, a, key_view));
                }
                assert(names_distinct(self.entries@)) by {
                    assert forall|a: int, b: int|
                        0 <= a < self.entries@.len() && 0 <= b < self.entries@.len() && a
                            != b implies self.entries@[a].0@ != self.entries@[b].0@ by {
                        if a < n && b < n {
                            assert(self.entries@[a] == prev[a]);
                            assert(self.entries@[b] == prev[b]);
                        }
                    }
                }
                assert forall|k: Seq<char>| k != key_view implies self.spec_get(k) == old(self).spec_get(
                    k,
                ) by {
                    if old(self).has(k) {
                        let c = choose|j: int| entry_named(prev, j, k);
                        assert(entry_named(self.entries@, c, k));
                        let d = choose|j: int| entry_named(self.entries@, j, k);
                        assert(d == c);
                    }
                    if self.has(k) {
                        let d = choose|j: int| entry_named(self.entries@, j, k);
                        assert(entry_named(prev, d, k));
                    }
                }
                let ghost c = choose|j: int| entry_named(self.entries@, j, key_view);
                assert(c == n);
            },
        }
        proof {
            assert forall|k: Seq<char>| #[trigger] self.has(k) == (k == key_view || old(self).has(k)) by {
                if k != key_view {
                    assert(self.spec_get(k) == old(self).spec_get(k));
                }
                assert(self.spec_get(key_view) == Some(value_view));
            }
            assert(self.map_view() =~= old(self).map_view().insert(key_view, value_view)) by {
                assert forall|k: Seq<char>| #[trigger] self.map_view().contains_key(k) implies self.map_view()[k]
                    == old(self).map_view().insert(key_view, value_view)[k] by {
                    if k != key_view {
                        assert(self.spec_get(k) == old(self).spec_get(k));
                    }
                }
            }
        }
    }
}

} // verus!
