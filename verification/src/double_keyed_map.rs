//! Tables keyed by two independent keys.

use crate::table::{lemma_entry_in_map, Duplicate, TableKey, VecMap};
use vstd::prelude::*;

verus! {

/// A table from pairs of keys to values. An entry is found by both keys
/// together, without a pair of keys having to be built for the search.
pub struct DoubleKeyedMap<K1: TableKey, K2: TableKey, V> {
    /// The entries, under their pairs of keys.
    pub table: VecMap<(K1, K2), V>,
}

impl<K1: TableKey + Duplicate, K2: TableKey + Duplicate, V: Duplicate> Clone for DoubleKeyedMap<
    K1,
    K2,
    V,
> {
    /// A table with copies of the entries, in the same order.
    fn clone(&self) -> (copy: Self)
        ensures
            copy.entries() == self.entries(),
    {
        DoubleKeyedMap { table: self.table.clone() }
    }
}

impl<K1: TableKey, K2: TableKey, V> View for DoubleKeyedMap<K1, K2, V> {
    type V = Map<(K1::V, K2::V), V>;

    open spec fn view(&self) -> Map<(K1::V, K2::V), V> {
        self.table@
    }
}

impl<K1: TableKey, K2: TableKey, V> DoubleKeyedMap<K1, K2, V> {
    /// The entries in the order in which they are stored.
    pub open spec fn entries(&self) -> Seq<((K1, K2), V)> {
        self.table.entries()
    }

    /// No pair of keys occurs twice.
    pub open spec fn wf(&self) -> bool {
        self.table.wf()
    }

    /// An empty table.
    pub fn new() -> (table: Self)
        ensures
            table.wf(),
            table@ == Map::<(K1::V, K2::V), V>::empty(),
    {
        DoubleKeyedMap { table: VecMap::new() }
    }

    /// The number of entries.
    pub fn len(&self) -> (n: usize)
        ensures
            n == self.entries().len(),
    {
        self.table.len()
    }

    /// The keys of the entry at position `i`.
    pub fn keys_at(&self, i: usize) -> (keys: &(K1, K2))
        requires
            i < self.entries().len(),
        ensures
            *keys == self.entries()[i as int].0,
    {
        self.table.key_at(i)
    }

    /// The value of the entry at position `i`.
    pub fn value_at(&self, i: usize) -> (value: &V)
        requires
            i < self.entries().len(),
        ensures
            *value == self.entries()[i as int].1,
    {
        self.table.value_at(i)
    }

    /// Replaces the value of the entry at position `i`, keeping its keys.
    pub fn set_value_at(&mut self, i: usize, value: V)
        requires
            old(self).wf(),
            i < old(self).entries().len(),
        ensures
            final(self).wf(),
            final(self).entries() == old(self).entries().update(
                i as int,
                (old(self).entries()[i as int].0, value),
            ),
            final(self)@ == old(self)@.insert(old(self).entries()[i as int].0@, value),
    {
        self.table.set_value_at(i, value);
    }

    /// The position of the entry for `(key1, key2)`, if there is one.
    pub fn position(&self, key1: &K1, key2: &K2) -> (found: Option<usize>)
        requires
            self.wf(),
        ensures
            found is Some <==> self@.contains_key((key1@, key2@)),
            found matches Some(i) ==> i < self.entries().len() && self.entries()[i as int].0@ == (
                key1@,
                key2@,
            ) && self@[(key1@, key2@)] == self.entries()[i as int].1,
    {
        let n = self.table.len();
        let mut i: usize = 0;
        while i < n
            invariant
                i <= n,
                n == self.entries().len(),
                self.wf(),
                forall|j: int| 0 <= j < i ==> (#[trigger] self.entries()[j]).0@ != (key1@, key2@),
            decreases n - i,
        {
            let keys = self.table.key_at(i);
            if keys.0.same_key(key1) && keys.1.same_key(key2) {
                proof {
                    lemma_entry_in_map(self.entries(), i as int);
                }
                return Some(i);
            }
            i += 1;
        }
        None
    }

    /// Whether the table holds an entry for `(key1, key2)`.
    pub fn contains_key(&self, key1: &K1, key2: &K2) -> (found: bool)
        requires
            self.wf(),
        ensures
            found == self@.contains_key((key1@, key2@)),
    {
        self.position(key1, key2).is_some()
    }

    /// The value stored for `(key1, key2)`, if there is one.
    pub fn get(&self, key1: &K1, key2: &K2) -> (found: Option<&V>)
        requires
            self.wf(),
        ensures
            found == (if self@.contains_key((key1@, key2@)) {
                Some(&self@[(key1@, key2@)])
            } else {
                None
            }),
    {
        match self.position(key1, key2) {
            Some(i) => Some(self.table.value_at(i)),
            None => None,
        }
    }

    /// Stores `value` for `(key1, key2)`, replacing the value of an entry
    /// that is already there.
    pub fn insert(&mut self, key1: K1, key2: K2, value: V)
        requires
            old(self).wf(),
        ensures
            final(self).wf(),
            final(self)@ == old(self)@.insert((key1@, key2@), value),
    {
        self.table.insert((key1, key2), value);
    }
}

} // verus!
