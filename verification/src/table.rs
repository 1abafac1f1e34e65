//! An association table keyed by account or entity number.
//!
//! Each service keeps its entity maps (pools, covers, proposals, voters)
//! in one of these: a vector of key–value entries with pairwise-distinct
//! keys, viewed as a `Map`, iterated in insertion order.

use vstd::prelude::*;

verus! {

/// True when the keys of `s` are pairwise distinct.
pub open spec fn distinct_keys<V>(s: Seq<(u64, V)>) -> bool {
    forall|i: int, j: int| 0 <= i < j < s.len() ==> (#[trigger] s[i]).0 != (#[trigger] s[j]).0
}

/// True when some entry of `s` carries the key `k`.
pub open spec fn has_key<V>(s: Seq<(u64, V)>, k: u64) -> bool {
    exists|i: int| 0 <= i < s.len() && (#[trigger] s[i]).0 == k
}

/// The index of an entry carrying `k`.
pub open spec fn key_index<V>(s: Seq<(u64, V)>, k: u64) -> int {
    choose|i: int| 0 <= i < s.len() && (#[trigger] s[i]).0 == k
}

/// The value stored under `k`.
pub open spec fn value_of<V>(s: Seq<(u64, V)>, k: u64) -> V {
    s[key_index(s, k)].1
}

/// The entries of `s` read as a map.
pub open spec fn entries_map<V>(s: Seq<(u64, V)>) -> Map<u64, V> {
    Map::new(|k: u64| has_key(s, k), |k: u64| value_of(s, k))
}

/// With distinct keys, an entry's index is the one `key_index` picks.
pub proof fn lemma_key_index_is<V>(s: Seq<(u64, V)>, i: int)
    requires
        distinct_keys(s),
        0 <= i < s.len(),
    ensures
        has_key(s, s[i].0),
        key_index(s, s[i].0) == i,
        value_of(s, s[i].0) == s[i].1,
{
    assert(has_key(s, s[i].0));
    let j = key_index(s, s[i].0);
    if i < j {
        assert(s[i].0 != s[j].0);
    } else if j < i {
        assert(s[j].0 != s[i].0);
    }
}

/// Appending an entry under a fresh key adds exactly that mapping.
proof fn lemma_entries_push<V>(s: Seq<(u64, V)>, k: u64, v: V)
    requires
        distinct_keys(s),
        !has_key(s, k),
    ensures
        distinct_keys(s.push((k, v))),
        entries_map(s.push((k, v))) == entries_map(s).insert(k, v),
{
    let t = s.push((k, v));
    assert forall|i: int, j: int| 0 <= i < j < t.len() implies (#[trigger] t[i]).0 != (
    #[trigger] t[j]).0 by {
        if j == s.len() {
            if t[i].0 == k {
                assert(s[i].0 == k);
            }
        }
    }
    assert forall|k2: u64| #[trigger] has_key(t, k2) implies k2 == k || has_key(s, k2) by {
        let i = key_index(t, k2);
        if i < s.len() {
            assert(s[i].0 == k2);
        }
    }
    assert forall|k2: u64| has_key(s, k2) implies #[trigger] has_key(t, k2) && value_of(t, k2)
        == value_of(s, k2) by {
        let i = key_index(s, k2);
        assert(t[i].0 == k2);
        lemma_key_index_is(s, i);
        lemma_key_index_is(t, i);
    }
    assert(t[s.len() as int].0 == k);
    lemma_key_index_is(t, s.len() as int);
    assert(entries_map(t) =~= entries_map(s).insert(k, v));
}

/// Replacing the entry at `k`'s index updates exactly that mapping.
proof fn lemma_entries_update<V>(s: Seq<(u64, V)>, k: u64, v: V)
    requires
        distinct_keys(s),
        has_key(s, k),
    ensures
        distinct_keys(s.update(key_index(s, k), (k, v))),
        entries_map(s.update(key_index(s, k), (k, v))) == entries_map(s).insert(k, v),
{
    let i0 = key_index(s, k);
    let t = s.update(i0, (k, v));
    assert forall|i: int, j: int| 0 <= i < j < t.len() implies (#[trigger] t[i]).0 != (
    #[trigger] t[j]).0 by {
        assert(s[i].0 != s[j].0);
    }
    assert forall|k2: u64| #[trigger] has_key(t, k2) implies has_key(s, k2) by {
        let i = key_index(t, k2);
        assert(s[i].0 == t[i].0);
    }
    assert forall|k2: u64| has_key(s, k2) implies #[trigger] has_key(t, k2) && value_of(t, k2)
        == entries_map(s).insert(k, v)[k2] by {
        let i = key_index(s, k2);
        lemma_key_index_is(s, i);
        assert(t[i].0 == k2);
        lemma_key_index_is(t, i);
        if k2 == k {
            assert(i == i0);
        } else {
            assert(i != i0);
        }
    }
    assert(entries_map(t) =~= entries_map(s).insert(k, v));
}

/// Removing the entry at `k`'s index removes exactly that mapping.
proof fn lemma_entries_remove<V>(s: Seq<(u64, V)>, k: u64)
    requires
        distinct_keys(s),
        has_key(s, k),
    ensures
        distinct_keys(s.remove(key_index(s, k))),
        entries_map(s.remove(key_index(s, k))) == entries_map(s).remove(k),
{
    let i0 = key_index(s, k);
    let t = s.remove(i0);
    assert forall|i: int, j: int| 0 <= i < j < t.len() implies (#[trigger] t[i]).0 != (
    #[trigger] t[j]).0 by {
        let si = if i < i0 { i } else { i + 1 };
        let sj = if j < i0 { j } else { j + 1 };
        assert(t[i] == s[si]);
        assert(t[j] == s[sj]);
        assert(s[si].0 != s[sj].0);
    }
    assert forall|k2: u64| #[trigger] has_key(t, k2) implies has_key(s, k2) && k2 != k by {
        let i = key_index(t, k2);
        let si = if i < i0 { i } else { i + 1 };
        assert(t[i] == s[si]);
        assert(s[si].0 == k2);
        lemma_key_index_is(s, si);
    }
    assert forall|k2: u64| has_key(s, k2) && k2 != k implies #[trigger] has_key(t, k2)
        && value_of(t, k2) == value_of(s, k2) by {
        let i = key_index(s, k2);
        lemma_key_index_is(s, i);
        let ti = if i < i0 { i } else { i - 1 };
        assert(t[ti] == s[i]);
        lemma_key_index_is(t, ti);
    }
    assert(entries_map(t) =~= entries_map(s).remove(k));
}

/// The table: distinct-keyed entries in insertion order.
pub struct Table<V> {
    pub entries: Vec<(u64, V)>,
}

impl<V> View for Table<V> {
    type V = Map<u64, V>;

    open spec fn view(&self) -> Map<u64, V> {
        entries_map(self.entries@)
    }
}

impl<V> Table<V> {
    /// Distinct keys: every operation preserves this.
    pub open spec fn wf(self) -> bool {
        distinct_keys(self.entries@)
    }

    /// Number of entries; with distinct keys this is `self@.dom().len()`.
    pub open spec fn spec_len(self) -> nat {
        self.entries@.len()
    }

    pub fn new() -> (t: Self)
        ensures
            t.wf(),
            t.entries@ == Seq::<(u64, V)>::empty(),
            t@ == Map::<u64, V>::empty(),
    {
        let t = Table { entries: Vec::new() };
        proof {
            assert(t.entries@ =~= Seq::<(u64, V)>::empty());
            assert(t@ =~= Map::<u64, V>::empty());
        }
        t
    }

    pub fn len(&self) -> (n: usize)
        ensures
            n == self.spec_len(),
    {
        self.entries.len()
    }

    /// The entry at position `i` in insertion order.
    pub fn entry_at(&self, i: usize) -> (e: &(u64, V))
        requires
            i < self.spec_len(),
        ensures
            *e == self.entries@[i as int],
    {
        &self.entries[i]
    }

    /// Position `i` holds the value the map view gives for its key.
    pub proof fn lemma_entry_in_view(&self, i: int)
        requires
            self.wf(),
            0 <= i < self.spec_len(),
        ensures
            self@.contains_key(self.entries@[i].0),
            self@[self.entries@[i].0] == self.entries@[i].1,
    {
        lemma_key_index_is(self.entries@, i);
    }

    /// The index of the entry carrying `k`, if any.
    fn find(&self, k: u64) -> (r: Option<usize>)
        ensures
            match r {
                Some(i) => i < self.spec_len() && self.entries@[i as int].0 == k,
                None => !has_key(self.entries@, k),
            },
    {
        let n = self.entries.len();
        let mut i: usize = 0;
        while i < n
            invariant
                i <= n,
                n == self.spec_len(),
                forall|j: int| 0 <= j < i ==> (#[trigger] self.entries@[j]).0 != k,
            decreases n - i,
        {
            if self.entries[i].0 == k {
                return Some(i);
            }
            i += 1;
        }
        None
    }

    pub fn contains(&self, k: u64) -> (b: bool)
        ensures
            b == self@.contains_key(k),
    {
        self.find(k).is_some()
    }

    pub fn get(&self, k: u64) -> (r: Option<&V>)
        requires
            self.wf(),
        ensures
            match r {
                Some(v) => self@.contains_key(k) && *v == self@[k],
                None => !self@.contains_key(k),
            },
    {
        match self.find(k) {
            Some(i) => {
                proof {
                    lemma_key_index_is(self.entries@, i as int);
                }
                Some(&self.entries[i].1)
            },
            None => None,
        }
    }

    /// Inserts or overwrites the value under `k`.  A fresh key goes to the
    /// end of the iteration order; an existing key keeps its position.
    pub fn insert(&mut self, k: u64, v: V)
        requires
            old(self).wf(),
        ensures
            final(self).wf(),
            final(self)@ == old(self)@.insert(k, v),
            old(self)@.contains_key(k) ==> final(self).entries@ == old(self).entries@.update(
                key_index(old(self).entries@, k), (k, v)),
            !old(self)@.contains_key(k) ==> final(self).entries@ == old(self).entries@.push(
                (k, v)),
    {
        match self.find(k) {
            Some(i) => {
                proof {
                    lemma_key_index_is(self.entries@, i as int);
                    lemma_entries_update(self.entries@, k, v);
                }
                self.entries[i] = (k, v);
            },
            None => {
                proof {
                    lemma_entries_push(self.entries@, k, v);
                }
                self.entries.push((k, v));
            },
        }
    }

    /// Removes and returns the value under `k`.
    pub fn remove(&mut self, k: u64) -> (r: Option<V>)
        requires
            old(self).wf(),
        ensures
            final(self).wf(),
            final(self)@ == old(self)@.remove(k),
            match r {
                Some(v) => old(self)@.contains_key(k) && v == old(self)@[k]
                    && final(self).entries@ == old(self).entries@.remove(
                    key_index(old(self).entries@, k)),
                None => !old(self)@.contains_key(k) && *final(self) == *old(self),
            },
    {
        match self.find(k) {
            Some(i) => {
                proof {
                    lemma_key_index_is(self.entries@, i as int);
                    lemma_entries_remove(self.entries@, k);
                }
                let v = self.entries.remove(i);
                Some(v.1)
            },
            None => {
                proof {
                    assert(self@ =~= self@.remove(k));
                }
                None
            },
        }
    }
}

impl<V: Copy> Table<V> {
    /// An entry-for-entry copy.
    pub fn duplicate(&self) -> (t: Self)
        ensures
            t.entries@ == self.entries@,
            t@ == self@,
            t.wf() == self.wf(),
    {
        let n = self.entries.len();
        let mut entries: Vec<(u64, V)> = Vec::new();
        let mut i: usize = 0;
        while i < n
            invariant
                i <= n,
                n == self.spec_len(),
                entries@ == self.entries@.subrange(0, i as int),
            decreases n - i,
        {
            entries.push(self.entries[i]);
            proof {
                assert(entries@ =~= self.entries@.subrange(0, i + 1));
            }
            i += 1;
        }
        proof {
            assert(entries@ =~= self.entries@);
        }
        Table { entries }
    }
}

} // verus!
