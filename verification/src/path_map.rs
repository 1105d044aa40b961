use vstd::prelude::*;

use crate::types::SuPath;

verus! {

/// A map keyed by path, keeping its entries in insertion order.
#[derive(Debug, Clone)]
pub struct PathMap<V> {
    entries: Vec<(SuPath, V)>,
}

/// No key occurs twice among the entries.
pub open spec fn keys_unique<V>(entries: Seq<(SuPath, V)>) -> bool {
    forall|i: int, j: int|
        0 <= i < entries.len() && 0 <= j < entries.len() && i != j ==> entries[i].0 != entries[j].0
}

/// The map that a list of unique-keyed entries stands for.
pub open spec fn entries_map<V>(entries: Seq<(SuPath, V)>) -> Map<SuPath, V>
    decreases entries.len(),
{
    if entries.len() == 0 {
        Map::empty()
    } else {
        entries_map(entries.drop_last()).insert(entries.last().0, entries.last().1)
    }
}

proof fn lemma_entries_map_index<V>(entries: Seq<(SuPath, V)>, i: int)
    requires
        keys_unique(entries),
        0 <= i < entries.len(),
    ensures
        entries_map(entries).contains_key(entries[i].0),
        entries_map(entries)[entries[i].0] == entries[i].1,
    decreases entries.len(),
{
    if i < entries.len() - 1 {
        lemma_entries_map_index(entries.drop_last(), i);
    }
}

proof fn lemma_entries_map_domain<V>(entries: Seq<(SuPath, V)>, k: SuPath)
    requires
        keys_unique(entries),
    ensures
        entries_map(entries).contains_key(k) <==> exists|i: int| 0 <= i < entries.len() && #[trigger] entries[i].0 == k,
    decreases entries.len(),
{
    if entries.len() > 0 {
        lemma_entries_map_domain(entries.drop_last(), k);
        if entries_map(entries).contains_key(k) && k != entries.last().0 {
            let i = choose|i: int| 0 <= i < entries.len() - 1 && #[trigger] entries.drop_last()[i].0 == k;
            assert(entries[i].0 == k);
        }
        if exists|i: int| 0 <= i < entries.len() && #[trigger] entries[i].0 == k {
            let i = choose|i: int| 0 <= i < entries.len() && #[trigger] entries[i].0 == k;
            if i < entries.len() - 1 {
                assert(entries.drop_last()[i].0 == k);
            }
        }
    }
}

proof fn lemma_entries_map_update<V>(entries: Seq<(SuPath, V)>, i: int, v: V)
    requires
        keys_unique(entries),
        0 <= i < entries.len(),
    ensures
        keys_unique(entries.update(i, (entries[i].0, v))),
        entries_map(entries.update(i, (entries[i].0, v))) == entries_map(entries).insert(entries[i].0, v),
    decreases entries.len(),
{
    let u = entries.update(i, (entries[i].0, v));
    assert(keys_unique(u));
    if i == entries.len() - 1 {
        assert(u.drop_last() =~= entries.drop_last());
        assert(entries_map(u) =~= entries_map(entries).insert(entries[i].0, v));
    } else {
        lemma_entries_map_update(entries.drop_last(), i, v);
        assert(u.drop_last() =~= entries.drop_last().update(i, (entries[i].0, v)));
        assert(entries_map(u) =~= entries_map(entries).insert(entries[i].0, v));
    }
}

impl<V> PathMap<V> {
    /// The entries, in insertion order.
    pub closed spec fn entries(self) -> Seq<(SuPath, V)> {
        self.entries@
    }

    /// The map of paths to values.
    pub open spec fn map(self) -> Map<SuPath, V> {
        entries_map(self.entries())
    }

    /// Keys are unique.
    pub open spec fn wf(self) -> bool {
        keys_unique(self.entries())
    }

    /// An empty map.
    pub fn new() -> (r: Self)
        ensures
            r.wf(),
            r.map() == Map::<SuPath, V>::empty(),
            r.entries() == Seq::<(SuPath, V)>::empty(),
    {
        PathMap { entries: Vec::new() }
    }

    fn find(&self, key: SuPath) -> (r: Option<usize>)
        requires
            self.wf(),
        ensures
            r matches Some(i) ==> i < self.entries().len() && self.entries()[i as int].0 == key,
            r is None ==> !self.map().contains_key(key),
    {
        let mut i: usize = 0;
        while i < self.entries.len()
            invariant
                0 <= i <= self.entries@.len(),
                forall|j: int| 0 <= j < i ==> self.entries@[j].0 != key,
            decreases self.entries@.len() - i,
        {
            if self.entries[i].0 == key {
                return Some(i);
            }
            i = i + 1;
        }
        proof {
            lemma_entries_map_domain(self.entries(), key);
        }
        None
    }

    /// The value at `key`, if any.
    pub fn get(&self, key: SuPath) -> (r: Option<&V>)
        requires
            self.wf(),
        ensures
            r is Some <==> self.map().contains_key(key),
            r matches Some(v) ==> self.map()[key] == *v,
    {
        match self.find(key) {
            Some(i) => {
                proof {
                    lemma_entries_map_index(self.entries(), i as int);
                }
                Some(&self.entries[i].1)
            },
            None => None,
        }
    }

    /// Whether `key` has a value.
    pub fn contains_key(&self, key: SuPath) -> (r: bool)
        requires
            self.wf(),
        ensures
            r == self.map().contains_key(key),
    {
        match self.find(key) {
            Some(i) => {
                proof {
                    lemma_entries_map_index(self.entries(), i as int);
                }
                true
            },
            None => false,
        }
    }

    /// Sets the value at `key`, replacing the previous one; a new key goes
    /// last.
    pub fn insert(&mut self, key: SuPath, value: V)
        requires
            old(self).wf(),
        ensures
            final(self).wf(),
            final(self).map() == old(self).map().insert(key, value),
            old(self).map().contains_key(key) ==> final(self).entries().len() == old(self).entries().len(),
            !old(self).map().contains_key(key) ==> final(self).entries() == old(self).entries().push((key, value)),
    {
        match self.find(key) {
            Some(i) => {
                proof {
                    lemma_entries_map_update(self.entries(), i as int, value);
                    lemma_entries_map_index(self.entries(), i as int);
                }
                self.entries.set(i, (key, value));
            },
            None => {
                proof {
                    lemma_entries_map_domain(self.entries(), key);
                }
                self.entries.push((key, value));
                assert(self.entries@.drop_last() =~= old(self).entries@);
            },
        }
    }

    /// The number of keys.
    pub fn len(&self) -> (n: usize)
        ensures
            n == self.entries().len(),
    {
        self.entries.len()
    }

    /// The entry at position `i`, in insertion order.
    pub fn entry(&self, i: usize) -> (r: &(SuPath, V))
        requires
            i < self.entries().len(),
        ensures
            *r == self.entries()[i as int],
    {
        &self.entries[i]
    }
}

impl<V: Copy> PathMap<V> {
    /// A copy of this map, with the same entries in the same order.
    pub fn duplicate(&self) -> (r: Self)
        ensures
            r.entries() == self.entries(),
    {
        let mut entries: Vec<(SuPath, V)> = Vec::new();
        let mut i: usize = 0;
        while i < self.entries.len()
            invariant
                0 <= i <= self.entries@.len(),
                entries@ == self.entries@.subrange(0, i as int),
            decreases self.entries@.len() - i,
        {
            entries.push(self.entries[i]);
            assert(entries@ =~= self.entries@.subrange(0, i + 1));
            i = i + 1;
        }
        assert(entries@ =~= self.entries@);
        PathMap { entries }
    }
}

/// A key that no entry holds is not in the map.
pub proof fn lemma_absent_key<V>(m: PathMap<V>, k: SuPath)
    requires
        m.wf(),
        forall|j: int| 0 <= j < m.entries().len() ==> (#[trigger] m.entries()[j]).0 != k,
    ensures
        !m.map().contains_key(k),
{
    lemma_entries_map_domain(m.entries(), k);
}

/// The entries with each value mapped by `f`.
pub open spec fn map_entry_values<V, W>(entries: Seq<(SuPath, V)>, f: spec_fn(V) -> W) -> Seq<(SuPath, W)> {
    entries.map_values(|e: (SuPath, V)| (e.0, f(e.1)))
}

/// Mapping the values of the entries maps the values of the map.
pub proof fn lemma_entries_map_values<V, W>(entries: Seq<(SuPath, V)>, f: spec_fn(V) -> W)
    ensures
        entries_map(map_entry_values(entries, f)) == entries_map(entries).map_values(f),
    decreases entries.len(),
{
    let m = map_entry_values(entries, f);
    if entries.len() == 0 {
        assert(entries_map(m) =~= entries_map(entries).map_values(f));
    } else {
        assert(m.drop_last() =~= map_entry_values(entries.drop_last(), f));
        lemma_entries_map_values(entries.drop_last(), f);
        assert(entries_map(m) =~= entries_map(entries).map_values(f));
    }
}

/// Every entry of a well-formed map is in its map.
pub proof fn lemma_entry_in_map<V>(m: PathMap<V>, i: int)
    requires
        m.wf(),
        0 <= i < m.entries().len(),
    ensures
        m.map().contains_key(m.entries()[i].0),
        m.map()[m.entries()[i].0] == m.entries()[i].1,
{
    lemma_entries_map_index(m.entries(), i);
}

/// Every key of a well-formed map is at some position of its entries.
pub proof fn lemma_key_has_entry<V>(m: PathMap<V>, k: SuPath)
    requires
        m.wf(),
        m.map().contains_key(k),
    ensures
        exists|i: int| 0 <= i < m.entries().len() && #[trigger] m.entries()[i].0 == k,
{
    lemma_entries_map_domain(m.entries(), k);
}

} // verus!
