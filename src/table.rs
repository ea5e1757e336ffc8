//! A keyed table: string keys, unique, mapped to values.
use vstd::prelude::*;

verus! {

/// Entries keyed by string, each key at most once.
pub struct Table<V> {
    entries: Vec<(String, V)>,
    contents: Ghost<Map<Seq<char>, V>>,
}

impl<V> Table<V> {
    /// What the table holds.
    pub closed spec fn view(&self) -> Map<Seq<char>, V> {
        self.contents@
    }

    /// Keys are unique and the entries hold exactly the mapping.
    pub closed spec fn wf(&self) -> bool {
        &&& forall|i: int, j: int|
            0 <= i < j < self.entries@.len() ==> (#[trigger] self.entries@[i]).0@
                != (#[trigger] self.entries@[j]).0@
        &&& forall|i: int|
            0 <= i < self.entries@.len() ==> self.contents@.contains_key(
                (#[trigger] self.entries@[i]).0@,
            ) && self.contents@[self.entries@[i].0@] == self.entries@[i].1
        &&& forall|k: Seq<char>|
            #[trigger] self.contents@.contains_key(k) ==> exists|i: int|
                0 <= i < self.entries@.len() && (#[trigger] self.entries@[i]).0@ == k
    }

    /// An empty table.
    pub fn new() -> (r: Table<V>)
        ensures
            r.wf(),
            r.view() == Map::<Seq<char>, V>::empty(),
    {
        Table { entries: Vec::new(), contents: Ghost(Map::empty()) }
    }

    fn find(&self, key: &str) -> (r: Option<usize>)
        requires
            self.wf(),
        ensures
            match r {
                Some(i) => i < self.entries@.len() && self.entries@[i as int].0@ == key@,
                None => !self.view().contains_key(key@),
            },
    {
        let mut i: usize = 0;
        while i < self.entries.len()
            invariant
                self.wf(),
                i <= self.entries@.len(),
                forall|j: int| 0 <= j < i ==> (#[trigger] self.entries@[j]).0@ != key@,
            decreases self.entries@.len() - i,
        {
            if crate::text::str_eq(self.entries[i].0.as_str(), key) {
                return Some(i);
            }
            i = i + 1;
        }
        None
    }

    /// The value under `key`, if any.
    pub fn get(&self, key: &str) -> (r: Option<&V>)
        requires
            self.wf(),
        ensures
            match r {
                Some(v) => self.view().contains_key(key@) && *v == self.view()[key@],
                None => !self.view().contains_key(key@),
            },
    {
        match self.find(key) {
            Some(i) => Some(&self.entries[i].1),
            None => None,
        }
    }

    /// Stores `value` under `key`, replacing what was there.
    pub fn insert(&mut self, key: String, value: V)
        requires
            old(self).wf(),
        ensures
            final(self).wf(),
            final(self).view() == old(self).view().insert(key@, value),
    {
        let ghost k = key@;
        let ghost before = self.entries@;
        let ghost m = self.contents@.insert(k, value);
        match self.find(key.as_str()) {
            Some(i) => {
                self.entries.set(i, (key, value));
                self.contents = Ghost(m);
                assert forall|k2: Seq<char>| #[trigger] self.contents@.contains_key(k2) implies exists|
                    j: int,
                | 0 <= j < self.entries@.len() && (#[trigger] self.entries@[j]).0@ == k2 by {
                    if k2 == k {
                        assert(self.entries@[i as int].0@ == k2);
                    } else {
                        let j = choose|j: int| 0 <= j < before.len() && (#[trigger] before[j]).0@ == k2;
                        assert(self.entries@[j].0@ == k2);
                    }
                }
            },
            None => {
                self.entries.push((key, value));
                self.contents = Ghost(m);
                assert forall|k2: Seq<char>| #[trigger] self.contents@.contains_key(k2) implies exists|
                    j: int,
                | 0 <= j < self.entries@.len() && (#[trigger] self.entries@[j]).0@ == k2 by {
                    if k2 == k {
                        assert(self.entries@[before.len() as int].0@ == k2);
                    } else {
                        let j = choose|j: int| 0 <= j < before.len() && (#[trigger] before[j]).0@ == k2;
                        assert(self.entries@[j].0@ == k2);
                    }
                }
            },
        }
    }

    /// Removes and returns the value under `key`, if any.
    pub fn remove(&mut self, key: &str) -> (r: Option<V>)
        requires
            old(self).wf(),
        ensures
            final(self).wf(),
            final(self).view() == old(self).view().remove(key@),
            match r {
                Some(v) => old(self).view().contains_key(key@) && v == old(self).view()[key@],
                None => !old(self).view().contains_key(key@),
            },
    {
        match self.find(key) {
            Some(i) => {
                let ghost before = self.entries@;
                let ghost m = self.contents@.remove(key@);
                let (_, v) = self.entries.remove(i);
                self.contents = Ghost(m);
                assert forall|a: int, b: int|
                    0 <= a < b < self.entries@.len() implies (#[trigger] self.entries@[a]).0@
                    != (#[trigger] self.entries@[b]).0@ by {
                    let a0 = if a < i { a } else { a + 1 };
                    let b0 = if b < i { b } else { b + 1 };
                    assert(before[a0] == self.entries@[a]);
                    assert(before[b0] == self.entries@[b]);
                }
                assert forall|a: int| 0 <= a < self.entries@.len() implies self.contents@.contains_key(
                    (#[trigger] self.entries@[a]).0@,
                ) && self.contents@[self.entries@[a].0@] == self.entries@[a].1 by {
                    let a0 = if a < i { a } else { a + 1 };
                    assert(before[a0] == self.entries@[a]);
                    assert(a0 != i);
                }
                assert forall|k2: Seq<char>| #[trigger] self.contents@.contains_key(k2) implies exists|
                    j: int,
                | 0 <= j < self.entries@.len() && (#[trigger] self.entries@[j]).0@ == k2 by {
                    let j = choose|j: int| 0 <= j < before.len() && (#[trigger] before[j]).0@ == k2;
                    assert(j != i);
                    let j1 = if j < i { j } else { j - 1 };
                    assert(self.entries@[j1] == before[j]);
                }
                Some(v)
            },
            None => {
                assert(self.contents@.remove(key@) =~= self.contents@);
                None
            },
        }
    }

    /// The entries of the table, in storage order.
    pub fn entries(&self) -> (r: &Vec<(String, V)>)
        requires
            self.wf(),
        ensures
            r@.len() == self.view().len(),
            forall|i: int|
                0 <= i < r@.len() ==> self.view().contains_key((#[trigger] r@[i]).0@) && self.view()[r@[i].0@]
                    == r@[i].1,
    {
        proof {
            self.lemma_len();
        }
        &self.entries
    }

    proof fn lemma_len(&self)
        requires
            self.wf(),
        ensures
            self.entries@.len() == self.view().len(),
    {
        let keys = self.entries@.map_values(|e: (String, V)| e.0@);
        assert(keys.no_duplicates()) by {
            assert forall|i: int, j: int| 0 <= i < keys.len() && 0 <= j < keys.len() && i != j implies keys[i] != keys[j] by {
                if i < j {
                    assert(self.entries@[i].0@ != self.entries@[j].0@);
                } else {
                    assert(self.entries@[j].0@ != self.entries@[i].0@);
                }
            }
        }
        assert(keys.to_set() =~= self.contents@.dom()) by {
            assert forall|k: Seq<char>| keys.to_set().contains(k) <==> self.contents@.dom().contains(k) by {
                if self.contents@.dom().contains(k) {
                    let i = choose|i: int| 0 <= i < self.entries@.len() && (#[trigger] self.entries@[i]).0@ == k;
                    assert(keys[i] == k);
                }
                if keys.to_set().contains(k) {
                    let i = choose|i: int| 0 <= i < keys.len() && keys[i] == k;
                    assert(self.entries@[i].0@ == k);
                }
            }
        }
        keys.unique_seq_to_set();
    }
}

} // verus!
