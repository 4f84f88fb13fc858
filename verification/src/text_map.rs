//! A map keyed by text that keeps its entries in insertion order.
//!
//! The update record and the cache of check results are maps from a
//! program id to a value; this type holds them with an exact map model.

use vstd::prelude::*;
use crate::text::{first_index_of, lemma_first_index_of, lemma_first_index_unique, lemma_first_index_absent, owned};

verus! {

/// A map from text keys to values; no key occurs twice.
#[derive(Debug)]
pub struct TextMap<V> {
    entries: Vec<(String, V)>,
}

/// The keys of a list of entries, in order.
pub open spec fn keys_of<V>(entries: Seq<(String, V)>) -> Seq<Seq<char>> {
    entries.map_values(|e: (String, V)| e.0@)
}

/// The map that a list of entries with distinct keys stands for.
pub open spec fn map_of<V>(entries: Seq<(String, V)>) -> Map<Seq<char>, V> {
    Map::new(
        |k: Seq<char>| first_index_of(keys_of(entries), k) >= 0,
        |k: Seq<char>| entries[first_index_of(keys_of(entries), k)].1,
    )
}

/// No key occurs twice in the list.
pub open spec fn distinct_keys<V>(entries: Seq<(String, V)>) -> bool {
    forall|i: int, j: int|
        0 <= i < entries.len() && 0 <= j < entries.len() && i != j ==> #[trigger] entries[i].0@
            != #[trigger] entries[j].0@
}

/// With distinct keys, the entry at `i` is what the map holds for its key.
proof fn lemma_entry_in_map<V>(entries: Seq<(String, V)>, i: int)
    requires
        distinct_keys(entries),
        0 <= i < entries.len(),
    ensures
        map_of(entries).contains_key(entries[i].0@),
        map_of(entries)[entries[i].0@] == entries[i].1,
{
    let keys = keys_of(entries);
    let k = entries[i].0@;
    assert forall|m: int| 0 <= m < i implies keys[m] != k by {
        assert(entries[m].0@ != entries[i].0@);
    }
    lemma_first_index_unique(keys, k, i);
}

/// A key that no entry holds is not in the map.
proof fn lemma_absent_from_map<V>(entries: Seq<(String, V)>, k: Seq<char>)
    requires
        forall|m: int| 0 <= m < entries.len() ==> entries[m].0@ != k,
    ensures
        !map_of(entries).contains_key(k),
{
    let keys = keys_of(entries);
    assert forall|m: int| 0 <= m < keys.len() implies keys[m] != k by {
        assert(keys[m] == entries[m].0@);
    }
    lemma_first_index_absent(keys, k);
}

/// A key in the map is held by some entry.
proof fn lemma_map_key_held<V>(entries: Seq<(String, V)>, k: Seq<char>)
    requires
        map_of(entries).contains_key(k),
    ensures
        exists|m: int| 0 <= m < entries.len() && entries[m].0@ == k,
{
    let keys = keys_of(entries);
    lemma_first_index_of(keys, k);
    let j = first_index_of(keys, k);
    assert(entries[j].0@ == keys[j]);
}

impl<V> TextMap<V> {
    #[verifier::type_invariant]
    spec fn keys_are_distinct(self) -> bool {
        distinct_keys(self.entries@)
    }

    /// The number of entries.
    pub closed spec fn spec_len(&self) -> nat {
        self.entries@.len()
    }

    /// The key of the entry at position `i`.
    pub closed spec fn key_at_spec(&self, i: int) -> Seq<char> {
        self.entries@[i].0@
    }
}

impl<V> View for TextMap<V> {
    type V = Map<Seq<char>, V>;

    closed spec fn view(&self) -> Map<Seq<char>, V> {
        map_of(self.entries@)
    }
}

impl<V> TextMap<V> {
    /// An empty map.
    pub fn new() -> (m: Self)
        ensures
            m@ == Map::<Seq<char>, V>::empty(),
            m.spec_len() == 0,
    {
        let m = TextMap { entries: Vec::new() };
        proof {
            assert forall|k: Seq<char>| !m@.contains_key(k) by {
                lemma_absent_from_map(m.entries@, k);
            }
            assert(m@ =~= Map::<Seq<char>, V>::empty());
        }
        m
    }

    /// The number of entries, which is the number of keys in the map.
    pub fn len(&self) -> (n: usize)
        ensures
            n == self.spec_len(),
            n == self@.dom().len(),
            self@.dom().finite(),
    {
        proof {
            use_type_invariant(self);
            self.lemma_dom();
        }
        self.entries.len()
    }

    /// The keys of the map are exactly the keys of the entries, and there are as many as entries.
    proof fn lemma_dom(&self)
        requires
            distinct_keys(self.entries@),
        ensures
            self@.dom() == keys_of(self.entries@).to_set(),
            self@.dom().finite(),
            self@.dom().len() == self.entries@.len(),
    {
        let keys = keys_of(self.entries@);
        assert forall|k: Seq<char>| self@.dom().contains(k) <==> keys.to_set().contains(k) by {
            if self@.dom().contains(k) {
                lemma_first_index_of(keys, k);
            }
            if keys.to_set().contains(k) {
                let m = choose|m: int| 0 <= m < keys.len() && keys[m] == k;
                lemma_entry_in_map(self.entries@, m);
            }
        }
        assert(self@.dom() =~= keys.to_set());
        assert forall|i: int, j: int| 0 <= i < keys.len() && 0 <= j < keys.len() && i != j implies keys[i] != keys[j] by {
            assert(keys[i] == self.entries@[i].0@);
            assert(keys[j] == self.entries@[j].0@);
        }
        assert(keys.no_duplicates());
        keys.unique_seq_to_set();
    }

    /// The key and value of the entry at position `i`.
    pub fn entry(&self, i: usize) -> (kv: (&String, &V))
        requires
            i < self.spec_len(),
        ensures
            kv.0@ == self.key_at_spec(i as int),
            self@.contains_key(kv.0@),
            self@[kv.0@] == *kv.1,
    {
        proof {
            use_type_invariant(self);
            lemma_entry_in_map(self.entries@, i as int);
        }
        let e = &self.entries[i];
        (&e.0, &e.1)
    }

    /// Position of the entry with key `k`, if there is one.
    fn position(&self, k: &str) -> (r: Option<usize>)
        ensures
            match r {
                Some(i) => i < self.entries@.len() && self.entries@[i as int].0@ == k@,
                None => forall|m: int| 0 <= m < self.entries@.len() ==> self.entries@[m].0@ != k@,
            },
    {
        let key = owned(k);
        let mut i: usize = 0;
        while i < self.entries.len()
            invariant
                i <= self.entries@.len(),
                key@ == k@,
                forall|m: int| 0 <= m < i ==> self.entries@[m].0@ != k@,
            decreases self.entries@.len() - i,
        {
            if self.entries[i].0 == key {
                return Some(i);
            }
            i += 1;
        }
        None
    }

    /// Whether the map holds key `k`.
    pub fn contains_key(&self, k: &str) -> (r: bool)
        ensures
            r == self@.contains_key(k@),
    {
        proof {
            use_type_invariant(self);
        }
        match self.position(k) {
            Some(i) => {
                proof {
                    lemma_entry_in_map(self.entries@, i as int);
                }
                true
            },
            None => {
                proof {
                    lemma_absent_from_map(self.entries@, k@);
                }
                false
            },
        }
    }

    /// The value for key `k`, if there is one.
    pub fn get(&self, k: &str) -> (r: Option<&V>)
        ensures
            match r {
                Some(v) => self@.contains_key(k@) && *v == self@[k@],
                None => !self@.contains_key(k@),
            },
    {
        proof {
            use_type_invariant(self);
        }
        match self.position(k) {
            Some(i) => {
                proof {
                    lemma_entry_in_map(self.entries@, i as int);
                }
                Some(&self.entries[i].1)
            },
            None => {
                proof {
                    lemma_absent_from_map(self.entries@, k@);
                }
                None
            },
        }
    }

    /// Sets the value for key `k`, replacing any earlier value.
    pub fn insert(&mut self, k: String, v: V)
        ensures
            final(self)@ == old(self)@.insert(k@, v),
    {
        proof {
            use_type_invariant(&*self);
        }
        let ghost before = self.entries@;
        let pos = self.position(k.as_str());
        let mut entries: Vec<(String, V)> = Vec::new();
        std::mem::swap(&mut entries, &mut self.entries);
        let ghost kk = k@;
        match pos {
            Some(i) => {
                entries.set(i, (k, v));
                proof {
                    assert(distinct_keys(entries@)) by {
                        assert forall|a: int, b: int|
                            0 <= a < entries@.len() && 0 <= b < entries@.len() && a != b
                            implies #[trigger] entries@[a].0@ != #[trigger] entries@[b].0@ by {
                            assert(entries@[a].0@ == before[a].0@);
                            assert(entries@[b].0@ == before[b].0@);
                        }
                    }
                    assert forall|key: Seq<char>| #[trigger] map_of(entries@).contains_key(key)
                        == map_of(before).insert(kk, v).contains_key(key) && (map_of(entries@).contains_key(key)
                        ==> map_of(entries@)[key] == map_of(before).insert(kk, v)[key]) by {
                        if key == kk {
                            lemma_entry_in_map(entries@, i as int);
                        } else {
                            self.lemma_same_other_key(before, entries@, i as int, key);
                        }
                    }
                    assert(map_of(entries@) =~= map_of(before).insert(kk, v));
                }
            },
            None => {
                entries.push((k, v));
                proof {
                    let n = before.len() as int;
                    assert(distinct_keys(entries@)) by {
                        assert forall|a: int, b: int|
                            0 <= a < entries@.len() && 0 <= b < entries@.len() && a != b
                            implies #[trigger] entries@[a].0@ != #[trigger] entries@[b].0@ by {
                            if a < n {
                                assert(entries@[a] == before[a]);
                            }
                            if b < n {
                                assert(entries@[b] == before[b]);
                            }
                        }
                    }
                    assert forall|key: Seq<char>| #[trigger] map_of(entries@).contains_key(key)
                        == map_of(before).insert(kk, v).contains_key(key) && (map_of(entries@).contains_key(key)
                        ==> map_of(entries@)[key] == map_of(before).insert(kk, v)[key]) by {
                        if key == kk {
                            lemma_entry_in_map(entries@, n);
                        } else {
                            self.lemma_push_other_key(before, entries@, key);
                        }
                    }
                    assert(map_of(entries@) =~= map_of(before).insert(kk, v));
                }
            },
        }
        self.entries = entries;
    }

    /// Replacing the entry at `i` leaves other keys' values unchanged.
    proof fn lemma_same_other_key(&self, before: Seq<(String, V)>, after: Seq<(String, V)>, i: int, key: Seq<char>)
        requires
            distinct_keys(before),
            distinct_keys(after),
            0 <= i < before.len(),
            after.len() == before.len(),
            after[i].0@ == before[i].0@,
            forall|m: int| 0 <= m < before.len() && m != i ==> after[m] == before[m],
            key != before[i].0@,
        ensures
            map_of(after).contains_key(key) == map_of(before).contains_key(key),
            map_of(after).contains_key(key) ==> map_of(after)[key] == map_of(before)[key],
    {
        if map_of(before).contains_key(key) {
            lemma_map_key_held(before, key);
            let m = choose|m: int| 0 <= m < before.len() && before[m].0@ == key;
            lemma_entry_in_map(before, m);
            lemma_entry_in_map(after, m);
        } else {
            assert forall|m: int| 0 <= m < after.len() implies after[m].0@ != key by {
                if m != i && after[m].0@ == key {
                    lemma_entry_in_map(before, m);
                }
            }
            lemma_absent_from_map(after, key);
        }
    }

    /// Appending an entry leaves other keys' values unchanged.
    proof fn lemma_push_other_key(&self, before: Seq<(String, V)>, after: Seq<(String, V)>, key: Seq<char>)
        requires
            distinct_keys(before),
            distinct_keys(after),
            after.len() == before.len() + 1,
            forall|m: int| 0 <= m < before.len() ==> after[m] == before[m],
            key != after[before.len() as int].0@,
        ensures
            map_of(after).contains_key(key) == map_of(before).contains_key(key),
            map_of(after).contains_key(key) ==> map_of(after)[key] == map_of(before)[key],
    {
        if map_of(before).contains_key(key) {
            lemma_map_key_held(before, key);
            let m = choose|m: int| 0 <= m < before.len() && before[m].0@ == key;
            lemma_entry_in_map(before, m);
            lemma_entry_in_map(after, m);
        } else {
            assert forall|m: int| 0 <= m < after.len() implies after[m].0@ != key by {
                if m < before.len() && after[m].0@ == key {
                    lemma_entry_in_map(before, m);
                }
            }
            lemma_absent_from_map(after, key);
        }
    }

    /// Removes key `k`, giving back its value if it was there.
    pub fn remove(&mut self, k: &str) -> (r: Option<V>)
        ensures
            final(self)@ == old(self)@.remove(k@),
            r == (if old(self)@.contains_key(k@) {
                Some(old(self)@[k@])
            } else {
                None::<V>
            }),
    {
        proof {
            use_type_invariant(&*self);
        }
        let ghost before = self.entries@;
        match self.position(k) {
            None => {
                proof {
                    lemma_absent_from_map(before, k@);
                    assert(map_of(before) =~= map_of(before).remove(k@));
                }
                None
            },
            Some(i) => {
                let mut entries: Vec<(String, V)> = Vec::new();
                std::mem::swap(&mut entries, &mut self.entries);
                let e = entries.remove(i);
                proof {
                    lemma_entry_in_map(before, i as int);
                    assert(distinct_keys(entries@)) by {
                        assert forall|a: int, b: int|
                            0 <= a < entries@.len() && 0 <= b < entries@.len() && a != b
                            implies #[trigger] entries@[a].0@ != #[trigger] entries@[b].0@ by {
                            let a2 = if a < i { a } else { a + 1 };
                            let b2 = if b < i { b } else { b + 1 };
                            assert(entries@[a] == before[a2]);
                            assert(entries@[b] == before[b2]);
                        }
                    }
                    assert forall|key: Seq<char>| #[trigger] map_of(entries@).contains_key(key)
                        == map_of(before).remove(k@).contains_key(key) && (map_of(entries@).contains_key(key)
                        ==> map_of(entries@)[key] == map_of(before).remove(k@)[key]) by {
                        if key == k@ {
                            assert forall|m: int| 0 <= m < entries@.len() implies entries@[m].0@ != key by {
                                let m2 = if m < i { m } else { m + 1 };
                                assert(entries@[m] == before[m2]);
                            }
                            lemma_absent_from_map(entries@, key);
                        } else if map_of(before).contains_key(key) {
                            lemma_map_key_held(before, key);
                            let m = choose|m: int| 0 <= m < before.len() && before[m].0@ == key;
                            lemma_entry_in_map(before, m);
                            let m2 = if m < i { m } else { m - 1 };
                            assert(entries@[m2] == before[m]);
                            lemma_entry_in_map(entries@, m2);
                        } else {
                            assert forall|m: int| 0 <= m < entries@.len() implies entries@[m].0@ != key by {
                                let m2 = if m < i { m } else { m + 1 };
                                assert(entries@[m] == before[m2]);
                                if before[m2].0@ == key {
                                    lemma_entry_in_map(before, m2);
                                }
                            }
                            lemma_absent_from_map(entries@, key);
                        }
                    }
                    assert(map_of(entries@) =~= map_of(before).remove(k@));
                }
                self.entries = entries;
                Some(e.1)
            },
        }
    }

    /// Removes every entry.
    pub fn clear(&mut self)
        ensures
            final(self)@ == Map::<Seq<char>, V>::empty(),
    {
        self.entries = Vec::new();
        proof {
            assert forall|k: Seq<char>| !self@.contains_key(k) by {
                lemma_absent_from_map(self.entries@, k);
            }
            assert(self@ =~= Map::<Seq<char>, V>::empty());
        }
    }
}

} // verus!
