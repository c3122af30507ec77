//! A table from text keys to values that keeps its keys in the order in
//! which they first came. Looking a key up compares text exactly.

use crate::text::same_text;
use vstd::prelude::*;

verus! {

/// What a table holds: its keys in order, and the value under each key.
pub struct TableModel<T> {
    pub keys: Seq<Seq<char>>,
    pub map: Map<Seq<char>, T>,
}

impl<T> TableModel<T> {
    /// The table without entries.
    pub open spec fn empty() -> Self {
        TableModel { keys: Seq::empty(), map: Map::empty() }
    }

    /// No key stands twice, and the keys are exactly those that have a value.
    pub open spec fn wf(self) -> bool {
        &&& self.keys.no_duplicates()
        &&& forall|k: Seq<char>| self.map.contains_key(k) <==> self.keys.contains(k)
    }

    /// The value under `key`, if there is one.
    pub open spec fn get(self, key: Seq<char>) -> Option<T> {
        if self.map.contains_key(key) {
            Some(self.map[key])
        } else {
            None
        }
    }

    /// The table after `value` was put under `key`: a key that was there
    /// keeps its place and gets the new value, a new key goes to the end.
    pub open spec fn insert(self, key: Seq<char>, value: T) -> Self {
        TableModel {
            keys: if self.map.contains_key(key) {
                self.keys
            } else {
                self.keys.push(key)
            },
            map: self.map.insert(key, value),
        }
    }

    /// The table after `key` was taken out; the other keys keep their order.
    pub open spec fn remove(self, key: Seq<char>) -> Self {
        TableModel {
            keys: if self.map.contains_key(key) {
                self.keys.remove(self.keys.index_of(key))
            } else {
                self.keys
            },
            map: self.map.remove(key),
        }
    }

    /// Putting a value under a key keeps a table well formed.
    pub proof fn insert_keeps_wf(self, key: Seq<char>, value: T)
        requires
            self.wf(),
        ensures
            self.insert(key, value).wf(),
            self.insert(key, value).get(key) == Some(value),
            forall|k: Seq<char>| k != key ==> self.insert(key, value).get(k) == self.get(k),
    {
        let after = self.insert(key, value);
        if self.map.contains_key(key) {
            assert(self.keys.contains(key));
            assert forall|k: Seq<char>| after.map.contains_key(k) <==> after.keys.contains(
                k,
            ) by {
                assert(self.map.contains_key(k) <==> self.keys.contains(k));
            }
        } else {
            assert(!self.keys.contains(key));
            assert forall|i: int, j: int|
                0 <= i < after.keys.len() && 0 <= j < after.keys.len() && i != j implies after.keys[i]
                != after.keys[j] by {
                if i < self.keys.len() {
                    assert(self.keys.contains(self.keys[i]));
                }
                if j < self.keys.len() {
                    assert(self.keys.contains(self.keys[j]));
                }
            }
            assert forall|k: Seq<char>| after.map.contains_key(k) <==> after.keys.contains(
                k,
            ) by {
                assert(self.map.contains_key(k) <==> self.keys.contains(k));
                if k == key {
                    assert(after.keys[self.keys.len() as int] == k);
                } else if self.keys.contains(k) {
                    let i = choose|i: int| 0 <= i < self.keys.len() && self.keys[i] == k;
                    assert(after.keys[i] == k);
                }
            }
        }
    }

    /// Taking a key out keeps a table well formed.
    pub proof fn remove_keeps_wf(self, key: Seq<char>)
        requires
            self.wf(),
        ensures
            self.remove(key).wf(),
            self.remove(key).get(key) is None,
            forall|k: Seq<char>| k != key ==> self.remove(key).get(k) == self.get(k),
    {
        let after = self.remove(key);
        if self.map.contains_key(key) {
            let at = self.keys.index_of(key);
            assert(self.keys.contains(key));
            assert(0 <= at < self.keys.len() && self.keys[at] == key);
            assert forall|i: int| 0 <= i < after.keys.len() implies #[trigger] after.keys[i]
                == self.keys[if i < at {
                i
            } else {
                i + 1
            }] by {}
            assert forall|k: Seq<char>| after.map.contains_key(k) <==> after.keys.contains(
                k,
            ) by {
                assert(self.map.contains_key(k) <==> self.keys.contains(k));
                if after.keys.contains(k) {
                    let i = choose|i: int| 0 <= i < after.keys.len() && after.keys[i] == k;
                    let i0 = if i < at {
                        i
                    } else {
                        i + 1
                    };
                    assert(after.keys[i] == self.keys[i0]);
                    assert(self.keys.contains(k));
                }
                if after.map.contains_key(k) {
                    assert(self.keys.contains(k));
                    let i = choose|i: int| 0 <= i < self.keys.len() && self.keys[i] == k;
                    let i1 = if i < at {
                        i
                    } else {
                        i - 1
                    };
                    assert(after.keys[i1] == k);
                }
            }
        }
    }
}

/// A table from text keys to values of type `V`.
pub struct Table<V: View> {
    entries: Vec<(String, V)>,
}

impl<V: View> View for Table<V> {
    type V = TableModel<V::V>;

    closed spec fn view(&self) -> TableModel<V::V> {
        TableModel {
            keys: Seq::new(self.entries@.len(), |i: int| self.entries@[i].0@),
            map: Map::new(
                |k: Seq<char>|
                    exists|i: int| 0 <= i < self.entries@.len() && self.entries@[i].0@ == k,
                |k: Seq<char>|
                    self.entries@[choose|i: int|
                        0 <= i < self.entries@.len() && self.entries@[i].0@ == k].1@,
            ),
        }
    }
}

impl<V: View> Table<V> {
    /// Every table that code can hold is well formed.
    #[verifier::type_invariant]
    pub closed spec fn valid(&self) -> bool {
        forall|i: int, j: int|
            0 <= i < j < self.entries@.len() ==> self.entries@[i].0@ != self.entries@[j].0@
    }

    /// A valid table has a well-formed model, in which the entry at each
    /// position stands under the key at that position.
    proof fn model_of_valid(&self)
        requires
            self.valid(),
        ensures
            self@.wf(),
            self@.keys.len() == self.entries@.len(),
            forall|i: int|
                0 <= i < self.entries@.len() ==> {
                    &&& (#[trigger] self@.keys[i]) == self.entries@[i].0@
                    &&& self@.map.contains_key(self.entries@[i].0@)
                    &&& self@.map[self.entries@[i].0@] == self.entries@[i].1@
                },
    {
        let m = self@;
        assert forall|k: Seq<char>| m.map.contains_key(k) <==> m.keys.contains(k) by {
            if m.keys.contains(k) {
                let i = choose|i: int| 0 <= i < m.keys.len() && m.keys[i] == k;
                assert(self.entries@[i].0@ == k);
            }
            if m.map.contains_key(k) {
                let i = choose|i: int| 0 <= i < self.entries@.len() && self.entries@[i].0@ == k;
                assert(m.keys[i] == k);
            }
        }
    }

    /// A valid table has exactly the well-formed model whose keys are the
    /// keys of its entries, in their order, each with the value of its entry.
    proof fn model_is(&self, want: TableModel<V::V>)
        requires
            self.valid(),
            want.wf(),
            want.keys.len() == self.entries@.len(),
            forall|i: int|
                0 <= i < self.entries@.len() ==> (#[trigger] want.keys[i]) == self.entries@[i].0@
                    && want.map[want.keys[i]] == self.entries@[i].1@,
        ensures
            self@ == want,
    {
        self.model_of_valid();
        assert(self@.keys =~= want.keys);
        assert forall|k: Seq<char>| self@.map.contains_key(k) <==> want.map.contains_key(
            k,
        ) by {
            assert(self@.keys.contains(k) <==> want.keys.contains(k));
        }
        assert forall|k: Seq<char>| self@.map.contains_key(k) implies self@.map[k]
            == want.map[k] by {
            assert(self@.keys.contains(k));
            let i = choose|i: int| 0 <= i < self@.keys.len() && self@.keys[i] == k;
            assert(want.keys[i] == k);
        }
        assert(self@.map =~= want.map);
    }

    /// A valid table is well formed.
    pub proof fn valid_is_wf(&self)
        requires
            self.valid(),
        ensures
            self@.wf(),
    {
        self.model_of_valid();
    }

    /// The table without entries.
    pub fn new() -> (t: Self)
        ensures
            t@ == TableModel::<V::V>::empty(),
    {
        let t = Table { entries: Vec::new() };
        assert(t@.keys =~= Seq::empty());
        assert(t@.map =~= Map::empty());
        t
    }

    /// The number of entries.
    pub fn len(&self) -> (n: usize)
        ensures
            n == self@.keys.len(),
            self@.wf(),
    {
        proof {
            use_type_invariant(self);
            self.model_of_valid();
        }
        self.entries.len()
    }

    /// The key at position `i`.
    pub fn key(&self, i: usize) -> (k: &String)
        requires
            i < self@.keys.len(),
        ensures
            k@ == self@.keys[i as int],
    {
        proof {
            use_type_invariant(self);
            self.model_of_valid();
        }
        &self.entries[i].0
    }

    /// The value under the key at position `i`.
    pub fn value(&self, i: usize) -> (v: &V)
        requires
            i < self@.keys.len(),
        ensures
            self@.get(self@.keys[i as int]) == Some(v@),
    {
        proof {
            use_type_invariant(self);
            self.model_of_valid();
        }
        &self.entries[i].1
    }

    /// Where `key` stands, if it stands anywhere.
    fn position(&self, key: &str) -> (r: Option<usize>)
        ensures
            match r {
                Some(i) => i < self.entries@.len() && self.entries@[i as int].0@ == key@,
                None => forall|i: int|
                    0 <= i < self.entries@.len() ==> self.entries@[i].0@ != key@,
            },
    {
        let mut i: usize = 0;
        while i < self.entries.len()
            invariant
                i <= self.entries@.len(),
                forall|j: int| 0 <= j < i ==> self.entries@[j].0@ != key@,
            decreases self.entries@.len() - i,
        {
            if same_text(self.entries[i].0.as_str(), key) {
                return Some(i);
            }
            i = i + 1;
        }
        None
    }

    /// The value under `key`, if there is one.
    pub fn get(&self, key: &str) -> (r: Option<&V>)
        ensures
            self@.wf(),
            match r {
                Some(v) => self@.get(key@) == Some(v@),
                None => self@.get(key@) is None,
            },
    {
        proof {
            use_type_invariant(self);
            self.model_of_valid();
        }
        match self.position(key) {
            Some(i) => Some(&self.entries[i].1),
            None => None,
        }
    }

    /// Whether there is a value under `key`.
    pub fn contains_key(&self, key: &str) -> (r: bool)
        ensures
            r == self@.map.contains_key(key@),
    {
        self.position(key).is_some()
    }

    /// Puts `value` under `key` and returns the value that was there.
    pub fn insert(&mut self, key: String, value: V) -> (r: Option<V>)
        ensures
            final(self)@ == old(self)@.insert(key@, value@),
            final(self)@.wf(),
            match r {
                Some(v) => old(self)@.get(key@) == Some(v@),
                None => old(self)@.get(key@) is None,
            },
    {
        let ghost before = *self;
        let ghost want = self@.insert(key@, value@);
        proof {
            use_type_invariant(&*self);
            self.model_of_valid();
            self@.insert_keeps_wf(key@, value@);
        }
        let found = self.position(key.as_str());
        let mut entries: Vec<(String, V)> = Vec::new();
        core::mem::swap(&mut self.entries, &mut entries);
        let gone = match found {
            Some(i) => {
                let gone = entries.remove(i);
                entries.insert(i, (key, value));
                Some(gone.1)
            },
            None => {
                entries.push((key, value));
                None
            },
        };
        self.entries = entries;
        proof {
            assert forall|a: int, b: int| 0 <= a < b < self.entries@.len() implies self.entries@[a].0@
                != self.entries@[b].0@ by {
                if a < before.entries@.len() {
                    assert(self.entries@[a].0@ == before.entries@[a].0@);
                }
                if b < before.entries@.len() {
                    assert(self.entries@[b].0@ == before.entries@[b].0@);
                }
            }
            assert forall|i: int| 0 <= i < self.entries@.len() implies (#[trigger] want.keys[i])
                == self.entries@[i].0@ && want.map[want.keys[i]] == self.entries@[i].1@ by {
                if i < before.entries@.len() {
                    assert(before@.keys[i] == before.entries@[i].0@);
                }
            }
            self.model_is(want);
        }
        gone
    }

    /// Takes `key` out and returns the value that was under it.
    pub fn remove(&mut self, key: &str) -> (r: Option<V>)
        ensures
            final(self)@ == old(self)@.remove(key@),
            final(self)@.wf(),
            match r {
                Some(v) => old(self)@.get(key@) == Some(v@),
                None => old(self)@.get(key@) is None,
            },
    {
        let ghost before = *self;
        let ghost want = self@.remove(key@);
        proof {
            use_type_invariant(&*self);
            self.model_of_valid();
            self@.remove_keeps_wf(key@);
        }
        match self.position(key) {
            Some(i) => {
                let mut entries: Vec<(String, V)> = Vec::new();
                core::mem::swap(&mut self.entries, &mut entries);
                let gone = entries.remove(i);
                self.entries = entries;
                proof {
                    assert(before@.keys[i as int] == key@);
                    assert(before@.keys.index_of(key@) == i);
                    assert forall|j: int| 0 <= j < self.entries@.len() implies #[trigger] self.entries@[j]
                        == before.entries@[if j < i {
                        j
                    } else {
                        j + 1
                    }] by {}
                    assert forall|j: int| 0 <= j < self.entries@.len() implies (
                    #[trigger] want.keys[j]) == self.entries@[j].0@ && want.map[want.keys[j]]
                        == self.entries@[j].1@ by {
                        let j0 = if j < i {
                            j
                        } else {
                            j + 1
                        };
                        assert(self.entries@[j] == before.entries@[j0]);
                        assert(before@.keys[j0] == before.entries@[j0].0@);
                    }
                    self.model_is(want);
                }
                Some(gone.1)
            },
            None => {
                proof {
                    assert(!before@.map.contains_key(key@));
                    assert(want.map =~= before@.map);
                }
                None
            },
        }
    }
}

} // verus!
