//! A map from keys to values, kept as a list in which no key occurs twice.

use vstd::prelude::*;

verus! {

/// A key of a table.
pub trait Key: Sized + Copy {
    /// Whether two keys are the same.
    fn same(&self, other: &Self) -> (b: bool)
        ensures
            b == (*self == *other),
    ;
}

/// A map from keys to values.
pub struct Table<K, V> {
    entries: Vec<(K, V)>,
}

/// The index of a key in a list of entries.
pub closed spec fn holds_at<K, V>(s: Seq<(K, V)>, k: K, i: int) -> bool {
    0 <= i < s.len() && s[i].0 == k
}

/// The map that a list of entries stands for.
pub closed spec fn as_map<K, V>(s: Seq<(K, V)>) -> Map<K, V> {
    Map::new(
        |k: K| exists|i: int| holds_at(s, k, i),
        |k: K| s[choose|i: int| holds_at(s, k, i)].1,
    )
}

/// Whether no key occurs twice.
pub closed spec fn keys_distinct<K, V>(s: Seq<(K, V)>) -> bool {
    forall|i: int, j: int| 0 <= i < j < s.len() ==> (#[trigger] s[i]).0 != (#[trigger] s[j]).0
}

/// What the map of a list holds for the key at a given index.
proof fn lemma_as_map_at<K, V>(s: Seq<(K, V)>, i: int)
    requires
        keys_distinct(s),
        0 <= i < s.len(),
    ensures
        as_map(s).contains_key(s[i].0),
        as_map(s)[s[i].0] == s[i].1,
{
    assert(holds_at(s, s[i].0, i));
    let j = choose|j: int| holds_at(s, s[i].0, j);
    assert(s[j].0 == s[i].0);
    assert(i == j);
}

/// The key of the map of a list stands at some index.
proof fn lemma_as_map_key<K, V>(s: Seq<(K, V)>, k: K) -> (i: int)
    requires
        keys_distinct(s),
        as_map(s).contains_key(k),
    ensures
        0 <= i < s.len(),
        s[i].0 == k,
        as_map(s)[k] == s[i].1,
{
    let i = choose|i: int| holds_at(s, k, i);
    lemma_as_map_at(s, i);
    i
}

impl<K: Key, V> Table<K, V> {
    /// No key occurs twice.
    pub closed spec fn wf(&self) -> bool {
        keys_distinct(self.entries@)
    }

    /// The entries in the order in which they are stored.
    pub closed spec fn seq(&self) -> Seq<(K, V)> {
        self.entries@
    }

    /// The map that the table stands for.
    pub closed spec fn map(&self) -> Map<K, V> {
        as_map(self.entries@)
    }

    /// The map holds what the list of entries holds.
    pub proof fn lemma_map_is_seq(&self)
        requires
            self.wf(),
        ensures
            forall|i: int|
                0 <= i < self.seq().len() ==> self.map().contains_key((#[trigger] self.seq()[i]).0)
                    && self.map()[self.seq()[i].0] == self.seq()[i].1,
            forall|k: K|
                #[trigger] self.map().contains_key(k) ==> exists|i: int|
                    0 <= i < self.seq().len() && (#[trigger] self.seq()[i]).0 == k,
            forall|i: int, j: int|
                0 <= i < j < self.seq().len() ==> (#[trigger] self.seq()[i]).0 != (
                #[trigger] self.seq()[j]).0,
    {
        assert forall|i: int| 0 <= i < self.seq().len() implies self.map().contains_key(
            (#[trigger] self.seq()[i]).0,
        ) && self.map()[self.seq()[i].0] == self.seq()[i].1 by {
            lemma_as_map_at(self.entries@, i);
        }
        assert forall|k: K| #[trigger] self.map().contains_key(k) implies exists|i: int|
            0 <= i < self.seq().len() && (#[trigger] self.seq()[i]).0 == k by {
            let i = lemma_as_map_key(self.entries@, k);
            assert(self.seq()[i].0 == k);
        }
    }

    pub fn new() -> (t: Self)
        ensures
            t.wf(),
            t.map() == Map::<K, V>::empty(),
    {
        let t = Table { entries: Vec::new() };
        proof {
            assert(t.map() =~= Map::<K, V>::empty());
        }
        t
    }

    /// The number of entries.
    pub fn len(&self) -> (n: usize)
        ensures
            n == self.seq().len(),
    {
        self.entries.len()
    }

    /// The entry at an index.
    pub fn at(&self, i: usize) -> (e: &(K, V))
        requires
            i < self.seq().len(),
        ensures
            *e == self.seq()[i as int],
    {
        &self.entries[i]
    }

    /// The index of a key.
    fn position(&self, k: K) -> (found: Option<usize>)
        requires
            self.wf(),
        ensures
            match found {
                Some(i) => i < self.entries@.len() && self.entries@[i as int].0 == k
                    && self.map().contains_key(k) && self.map()[k] == self.entries@[i as int].1,
                None => !self.map().contains_key(k),
            },
    {
        let mut i: usize = 0;
        while i < self.entries.len()
            invariant
                self.wf(),
                i <= self.entries.len(),
                forall|j: int| 0 <= j < i ==> (#[trigger] self.entries@[j]).0 != k,
            decreases self.entries.len() - i,
        {
            if self.entries[i].0.same(&k) {
                proof {
                    lemma_as_map_at(self.entries@, i as int);
                }
                return Some(i);
            }
            i = i + 1;
        }
        proof {
            if self.map().contains_key(k) {
                let j = lemma_as_map_key(self.entries@, k);
            }
        }
        None
    }

    /// The value for a key.
    pub fn get(&self, k: K) -> (v: Option<&V>)
        requires
            self.wf(),
        ensures
            match v {
                Some(v) => self.map().contains_key(k) && *v == self.map()[k],
                None => !self.map().contains_key(k),
            },
    {
        match self.position(k) {
            Some(i) => Some(&self.entries[i].1),
            None => None,
        }
    }

    /// Take the value for a key out of the table.
    pub fn remove(&mut self, k: K) -> (v: Option<V>)
        requires
            old(self).wf(),
        ensures
            final(self).wf(),
            final(self).map() == old(self).map().remove(k),
            match v {
                Some(v) => old(self).map().contains_key(k) && v == old(self).map()[k],
                None => !old(self).map().contains_key(k),
            },
    {
        let ghost before = self.entries@;
        match self.position(k) {
            Some(i) => {
                let entry = self.entries.remove(i);
                proof {
                    let after = self.entries@;
                    assert forall|a: int, b: int| 0 <= a < b < after.len() implies (
                    #[trigger] after[a]).0 != (#[trigger] after[b]).0 by {
                        let a0 = if a < i { a } else { a + 1 };
                        let b0 = if b < i { b } else { b + 1 };
                        assert(before[a0].0 != before[b0].0);
                    }
                    assert forall|x: K| as_map(after).contains_key(x) <==> as_map(before).remove(
                        k,
                    ).contains_key(x) by {
                        if as_map(after).contains_key(x) {
                            let j = lemma_as_map_key(after, x);
                            let j0 = if j < i { j } else { j + 1 };
                            lemma_as_map_at(before, j0);
                            assert(before[j0].0 != before[i as int].0);
                        }
                        if as_map(before).remove(k).contains_key(x) {
                            let j = lemma_as_map_key(before, x);
                            let j1 = if j < i { j } else { j - 1 };
                            assert(after[j1] == before[j]);
                            lemma_as_map_at(after, j1);
                        }
                    }
                    assert forall|x: K| #[trigger] as_map(after).contains_key(x) implies as_map(
                        after,
                    )[x] == as_map(before)[x] by {
                        let j = lemma_as_map_key(after, x);
                        let j0 = if j < i { j } else { j + 1 };
                        assert(after[j] == before[j0]);
                        lemma_as_map_at(before, j0);
                    }
                    assert(as_map(after) =~= as_map(before).remove(k));
                }
                Some(entry.1)
            },
            None => {
                proof {
                    assert(as_map(before) =~= as_map(before).remove(k));
                }
                None
            },
        }
    }

    /// Set the value for a key.
    pub fn insert(&mut self, k: K, v: V)
        requires
            old(self).wf(),
        ensures
            final(self).wf(),
            final(self).map() == old(self).map().insert(k, v),
    {
        let ghost start = self.map();
        let _ = self.remove(k);
        let ghost before = self.entries@;
        self.entries.push((k, v));
        proof {
            let after = self.entries@;
            assert forall|a: int, b: int| 0 <= a < b < after.len() implies (#[trigger] after[a]).0
                != (#[trigger] after[b]).0 by {
                if b == before.len() {
                    lemma_as_map_at(before, a);
                } else {
                    assert(before[a].0 != before[b].0);
                }
            }
            assert forall|x: K| as_map(after).contains_key(x) <==> start.insert(
                k,
                v,
            ).contains_key(x) by {
                if as_map(after).contains_key(x) {
                    let j = lemma_as_map_key(after, x);
                    if j < before.len() {
                        lemma_as_map_at(before, j);
                    }
                }
                if start.insert(k, v).contains_key(x) {
                    if x == k {
                        lemma_as_map_at(after, before.len() as int);
                    } else {
                        let j = lemma_as_map_key(before, x);
                        assert(after[j] == before[j]);
                        lemma_as_map_at(after, j);
                    }
                }
            }
            assert forall|x: K| #[trigger] as_map(after).contains_key(x) implies as_map(after)[x]
                == start.insert(k, v)[x] by {
                let j = lemma_as_map_key(after, x);
                if j < before.len() {
                    assert(after[j] == before[j]);
                    lemma_as_map_at(before, j);
                }
            }
            assert(as_map(after) =~= start.insert(k, v));
        }
    }
}

} // verus!
