use vstd::prelude::*;
use vstd::pervasive::VecAdditionalExecFns;

verus! {

/// The map described by an entry list: a later entry for a key shadows an
/// earlier one, though a well-formed store never holds a key twice.
pub open spec fn entry_list_map<V>(s: Seq<(u32, V)>) -> Map<u32, V>
    decreases s.len(),
{
    if s.len() == 0 {
        Map::empty()
    } else {
        entry_list_map(s.drop_last()).insert(s.last().0, s.last().1)
    }
}

/// A key-addressed store from `u32` identifiers to values, kept as an
/// association list.  Every persistent index of the ledger (records,
/// owners, parentage, listings) is one of these, and the migration engine
/// scans one directly.
pub struct Store<V> {
    entries: Vec<(u32, V)>,
}

impl<V> Store<V> {
    /// No key occurs twice in the entry list.
    pub closed spec fn wf(self) -> bool {
        forall|i: int, j: int|
            0 <= i < j < self.entries@.len()
                ==> (#[trigger] self.entries@[i]).0 != (#[trigger] self.entries@[j]).0
    }

    /// The contents of the store, as a mathematical map.
    pub closed spec fn as_map(self) -> Map<u32, V> {
        entry_list_map(self.entries@)
    }

    pub fn new() -> (s: Self)
        ensures
            s.wf(),
            s.as_map() == Map::<u32, V>::empty(),
    {
        Store { entries: Vec::new() }
    }

    /// Position of `key` in the entry list, if it is present.
    fn index_of(&self, key: u32) -> (r: Option<usize>)
        ensures
            match r {
                Some(i) => i < self.entries@.len() && self.entries@[i as int].0 == key,
                None => forall|j: int|
                    0 <= j < self.entries@.len() ==> (#[trigger] self.entries@[j]).0 != key,
            },
    {
        let n = self.entries.len();
        let mut i: usize = 0;
        while i < n
            invariant
                i <= n,
                n == self.entries@.len(),
                forall|j: int| 0 <= j < i ==> (#[trigger] self.entries@[j]).0 != key,
            decreases n - i,
        {
            if self.entries[i].0 == key {
                return Some(i);
            }
            i = i + 1;
        }
        None
    }

    pub fn get(&self, key: u32) -> (r: Option<&V>)
        requires
            self.wf(),
        ensures
            match r {
                Some(v) => self.as_map().contains_key(key) && *v == self.as_map()[key],
                None => !self.as_map().contains_key(key),
            },
    {
        match self.index_of(key) {
            Some(i) => {
                proof {
                    lemma_entry_list_map_index(self.entries@, i as int);
                }
                Some(&self.entries[i].1)
            },
            None => {
                proof {
                    lemma_entry_list_map_no_key(self.entries@, key);
                }
                None
            },
        }
    }

    pub fn contains_key(&self, key: u32) -> (r: bool)
        requires
            self.wf(),
        ensures
            r == self.as_map().contains_key(key),
    {
        self.get(key).is_some()
    }

    /// Insert or overwrite the value held under `key`.
    pub fn insert(&mut self, key: u32, value: V)
        requires
            old(self).wf(),
        ensures
            final(self).wf(),
            final(self).as_map() == old(self).as_map().insert(key, value),
    {
        match self.index_of(key) {
            Some(i) => {
                proof {
                    lemma_entry_list_map_update(self.entries@, i as int, value);
                }
                self.entries.set(i, (key, value));
                proof {
                    assert forall|p: int, q: int|
                        0 <= p < q < self.entries@.len() implies (#[trigger] self.entries@[p]).0
                        != (#[trigger] self.entries@[q]).0 by {
                        assert(old(self).entries@[p].0 == self.entries@[p].0);
                        assert(old(self).entries@[q].0 == self.entries@[q].0);
                    }
                }
            },
            None => {
                self.entries.push((key, value));
                proof {
                    let s = old(self).entries@;
                    assert(self.entries@.drop_last() =~= s);
                    assert(self.entries@.last() == (key, value));
                    assert(self.as_map() == entry_list_map(s).insert(key, value));
                }
            },
        }
    }

    /// Remove the entry held under `key`, if any.
    pub fn remove(&mut self, key: u32)
        requires
            old(self).wf(),
        ensures
            final(self).wf(),
            final(self).as_map() == old(self).as_map().remove(key),
    {
        match self.index_of(key) {
            Some(i) => {
                proof {
                    lemma_entry_list_map_remove(self.entries@, i as int);
                }
                self.entries.remove(i);
                proof {
                    assert forall|p: int, q: int|
                        0 <= p < q < self.entries@.len() implies (#[trigger] self.entries@[p]).0
                        != (#[trigger] self.entries@[q]).0 by {
                        let s = old(self).entries@;
                        let pp = if p < i { p } else { p + 1 };
                        let qq = if q < i { q } else { q + 1 };
                        assert(self.entries@[p] == s[pp]);
                        assert(self.entries@[q] == s[qq]);
                    }
                }
            },
            None => {
                proof {
                    lemma_entry_list_map_no_key(self.entries@, key);
                    assert(self.as_map() =~= self.as_map().remove(key));
                }
            },
        }
    }

    /// Every key currently present, each exactly once.
    pub fn keys(&self) -> (r: Vec<u32>)
        requires
            self.wf(),
        ensures
            r@.no_duplicates(),
            forall|k: u32| r@.contains(k) <==> self.as_map().contains_key(k),
    {
        let n = self.entries.len();
        let mut ks: Vec<u32> = Vec::new();
        let mut i: usize = 0;
        while i < n
            invariant
                i <= n,
                n == self.entries@.len(),
                ks@.len() == i,
                forall|j: int| 0 <= j < i ==> ks@[j] == (#[trigger] self.entries@[j]).0,
            decreases n - i,
        {
            let k = self.entries[i].0;
            ks.push(k);
            i = i + 1;
        }
        proof {
            assert forall|k: u32| ks@.contains(k) implies self.as_map().contains_key(k) by {
                let j = choose|j: int| 0 <= j < ks@.len() && ks@[j] == k;
                lemma_entry_list_map_index(self.entries@, j);
            }
            assert forall|k: u32| self.as_map().contains_key(k) implies ks@.contains(k) by {
                if !ks@.contains(k) {
                    assert forall|j: int|
                        0 <= j < self.entries@.len() implies (#[trigger] self.entries@[j]).0
                        != k by {
                        assert(ks@[j] == self.entries@[j].0);
                    }
                    lemma_entry_list_map_no_key(self.entries@, k);
                }
            }
            assert forall|p: int, q: int|
                0 <= p < ks@.len() && 0 <= q < ks@.len() && p != q implies ks@[p] != ks@[q] by {
                assert(ks@[p] == self.entries@[p].0);
                assert(ks@[q] == self.entries@[q].0);
            }
        }
        ks
    }
}

/// A key that appears in no entry is absent from the described map.
proof fn lemma_entry_list_map_no_key<V>(s: Seq<(u32, V)>, key: u32)
    requires
        forall|j: int| 0 <= j < s.len() ==> (#[trigger] s[j]).0 != key,
    ensures
        !entry_list_map(s).contains_key(key),
    decreases s.len(),
{
    if s.len() > 0 {
        lemma_entry_list_map_no_key(s.drop_last(), key);
    }
}

/// An entry with no later entry for the same key decides the described map
/// at its key.
proof fn lemma_entry_list_map_index<V>(s: Seq<(u32, V)>, i: int)
    requires
        0 <= i < s.len(),
        forall|j: int| i < j < s.len() ==> (#[trigger] s[j]).0 != s[i].0,
    ensures
        entry_list_map(s).contains_key(s[i].0),
        entry_list_map(s)[s[i].0] == s[i].1,
    decreases s.len(),
{
    if i < s.len() - 1 {
        lemma_entry_list_map_index(s.drop_last(), i);
    }
}

/// Overwriting the value of entry `i` in place updates the described map at
/// that entry's key.
proof fn lemma_entry_list_map_update<V>(s: Seq<(u32, V)>, i: int, value: V)
    requires
        0 <= i < s.len(),
        forall|p: int, q: int| 0 <= p < q < s.len() ==> (#[trigger] s[p]).0 != (#[trigger] s[q]).0,
    ensures
        entry_list_map(s.update(i, (s[i].0, value))) == entry_list_map(s).insert(s[i].0, value),
    decreases s.len(),
{
    let t = s.update(i, (s[i].0, value));
    if i == s.len() - 1 {
        assert(t.drop_last() =~= s.drop_last());
        assert(entry_list_map(t) =~= entry_list_map(s).insert(s[i].0, value));
    } else {
        assert(t.drop_last() =~= s.drop_last().update(i, (s[i].0, value)));
        assert(s.drop_last()[i] == s[i]);
        lemma_entry_list_map_update(s.drop_last(), i, value);
        assert(s[i].0 != s.last().0);
        assert(entry_list_map(t) =~= entry_list_map(s).insert(s[i].0, value));
    }
}

/// Removing entry `i` removes exactly that entry's key from the described
/// map.
proof fn lemma_entry_list_map_remove<V>(s: Seq<(u32, V)>, i: int)
    requires
        0 <= i < s.len(),
        forall|p: int, q: int| 0 <= p < q < s.len() ==> (#[trigger] s[p]).0 != (#[trigger] s[q]).0,
    ensures
        entry_list_map(s.remove(i)) == entry_list_map(s).remove(s[i].0),
    decreases s.len(),
{
    let t = s.remove(i);
    if i == s.len() - 1 {
        assert(t =~= s.drop_last());
        assert forall|j: int| 0 <= j < s.drop_last().len() implies (#[trigger] s.drop_last()[j]).0
            != s[i].0 by {
            assert(s.drop_last()[j] == s[j]);
        }
        lemma_entry_list_map_no_key(s.drop_last(), s[i].0);
        assert(entry_list_map(t) =~= entry_list_map(s).remove(s[i].0));
    } else {
        assert(t.drop_last() =~= s.drop_last().remove(i));
        assert(t.last() == s.last());
        assert(s.drop_last()[i] == s[i]);
        lemma_entry_list_map_remove(s.drop_last(), i);
        assert(s[i].0 != s.last().0);
        assert(entry_list_map(t) =~= entry_list_map(s).remove(s[i].0));
    }
}

} // verus!
