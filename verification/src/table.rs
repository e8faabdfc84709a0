//! Association tables with exact map models.
//!
//! A [`VecMap`] keeps its entries in a vector and never holds two entries
//! with the same key. Its view is the mathematical map from key views to
//! values, and every operation is specified over that map.

use vstd::prelude::*;

verus! {

/// A key of a table. Two keys name the same entry exactly when their views
/// are equal.
pub trait TableKey: View + Sized {
    /// Decides whether two keys name the same entry.
    fn same_key(&self, other: &Self) -> (same: bool)
        ensures
            same == (self@ == other@),
    ;
}

impl TableKey for u64 {
    fn same_key(&self, other: &Self) -> (same: bool) {
        *self == *other
    }
}

impl TableKey for usize {
    fn same_key(&self, other: &Self) -> (same: bool) {
        *self == *other
    }
}

impl TableKey for String {
    fn same_key(&self, other: &Self) -> (same: bool) {
        *self == *other
    }
}

impl<A: TableKey, B: TableKey> TableKey for (A, B) {
    fn same_key(&self, other: &Self) -> (same: bool) {
        self.0.same_key(&other.0) && self.1.same_key(&other.1)
    }
}

/// A value of which an exact copy can be made.
pub trait Duplicate: Sized {
    /// Makes a copy that is equal to the value.
    fn duplicated(&self) -> (copy: Self)
        ensures
            copy == *self,
    ;
}

impl Duplicate for u64 {
    fn duplicated(&self) -> (copy: Self) {
        *self
    }
}

impl Duplicate for usize {
    fn duplicated(&self) -> (copy: Self) {
        *self
    }
}

impl Duplicate for String {
    fn duplicated(&self) -> (copy: Self) {
        self.clone()
    }
}

impl<A: Duplicate, B: Duplicate> Duplicate for (A, B) {
    fn duplicated(&self) -> (copy: Self) {
        (self.0.duplicated(), self.1.duplicated())
    }
}

/// Some entry of `entries` has the key `key`.
pub open spec fn has_key<K: View, V>(entries: Seq<(K, V)>, key: K::V) -> bool {
    exists|i: int| 0 <= i < entries.len() && (#[trigger] entries[i]).0@ == key
}

/// The position of an entry with the key `key`, where there is one.
pub open spec fn index_of<K: View, V>(entries: Seq<(K, V)>, key: K::V) -> int {
    choose|i: int| 0 <= i < entries.len() && (#[trigger] entries[i]).0@ == key
}

/// No two entries share a key.
pub open spec fn distinct_keys<K: View, V>(entries: Seq<(K, V)>) -> bool {
    forall|i: int, j: int|
        0 <= i < j < entries.len() ==> (#[trigger] entries[i]).0@ != (#[trigger] entries[j]).0@
}

/// The map that a sequence of entries stands for.
pub open spec fn entries_map<K: View, V>(entries: Seq<(K, V)>) -> Map<K::V, V> {
    Map::new(|key: K::V| has_key(entries, key), |key: K::V| entries[index_of(entries, key)].1)
}

/// With distinct keys, the entry at position `i` is the one the map holds
/// for its key.
pub proof fn lemma_entry_in_map<K: View, V>(entries: Seq<(K, V)>, i: int)
    requires
        distinct_keys(entries),
        0 <= i < entries.len(),
    ensures
        has_key(entries, entries[i].0@),
        index_of(entries, entries[i].0@) == i,
        entries_map(entries).contains_key(entries[i].0@),
        entries_map(entries)[entries[i].0@] == entries[i].1,
{
    let key = entries[i].0@;
    assert(has_key(entries, key));
    let j = index_of(entries, key);
    assert(0 <= j < entries.len() && entries[j].0@ == key);
    if j < i {
        assert(entries[j].0@ != entries[i].0@);
    } else if i < j {
        assert(entries[i].0@ != entries[j].0@);
    }
}

/// Every key of the map is the key of some entry.
pub proof fn lemma_key_has_entry<K: View, V>(entries: Seq<(K, V)>, key: K::V)
    requires
        entries_map(entries).contains_key(key),
    ensures
        0 <= index_of(entries, key) < entries.len(),
        entries[index_of(entries, key)].0@ == key,
        entries_map(entries)[key] == entries[index_of(entries, key)].1,
{
    assert(has_key(entries, key));
}

/// Appending an entry with a new key inserts it into the map.
pub proof fn lemma_push_entry<K: View, V>(entries: Seq<(K, V)>, key: K, value: V)
    requires
        distinct_keys(entries),
        !has_key(entries, key@),
    ensures
        distinct_keys(entries.push((key, value))),
        entries_map(entries.push((key, value))) == entries_map(entries).insert(key@, value),
{
    let after = entries.push((key, value));
    assert forall|i: int, j: int| 0 <= i < j < after.len() implies (#[trigger] after[i]).0@ != (
    #[trigger] after[j]).0@ by {
        if j == entries.len() {
            assert(entries[i].0@ != key@);
        } else {
            assert(entries[i].0@ != entries[j].0@);
        }
    }
    let ghost before_map = entries_map(entries);
    let ghost after_map = entries_map(after);
    assert forall|k: K::V| after_map.contains_key(k) <==> before_map.insert(
        key@,
        value,
    ).contains_key(k) by {
        if has_key(after, k) {
            let i = index_of(after, k);
            if i < entries.len() {
                assert(entries[i].0@ == k);
            }
        }
        if has_key(entries, k) {
            let i = index_of(entries, k);
            assert(after[i].0@ == k);
        }
        if k == key@ {
            assert(after[entries.len() as int].0@ == k);
        }
    }
    assert forall|k: K::V| after_map.contains_key(k) implies after_map[k] == before_map.insert(
        key@,
        value,
    )[k] by {
        let i = index_of(after, k);
        lemma_entry_in_map(after, i);
        if i < entries.len() {
            lemma_entry_in_map(entries, i);
        }
    }
    assert(after_map =~= before_map.insert(key@, value));
}

/// Replacing the value of the entry at position `i` updates the map at that
/// entry's key.
pub proof fn lemma_update_entry<K: View, V>(entries: Seq<(K, V)>, i: int, key: K, value: V)
    requires
        distinct_keys(entries),
        0 <= i < entries.len(),
        entries[i].0@ == key@,
    ensures
        distinct_keys(entries.update(i, (key, value))),
        entries_map(entries.update(i, (key, value))) == entries_map(entries).insert(key@, value),
{
    let after = entries.update(i, (key, value));
    assert forall|a: int, b: int| 0 <= a < b < after.len() implies (#[trigger] after[a]).0@ != (
    #[trigger] after[b]).0@ by {
        assert(entries[a].0@ != entries[b].0@);
    }
    let ghost before_map = entries_map(entries);
    let ghost after_map = entries_map(after);
    assert forall|k: K::V| after_map.contains_key(k) <==> before_map.insert(
        key@,
        value,
    ).contains_key(k) by {
        if has_key(after, k) {
            let j = index_of(after, k);
            assert(entries[j].0@ == k);
        }
        if has_key(entries, k) {
            let j = index_of(entries, k);
            assert(after[j].0@ == k);
        }
        if k == key@ {
            assert(after[i].0@ == k);
        }
    }
    assert forall|k: K::V| after_map.contains_key(k) implies after_map[k] == before_map.insert(
        key@,
        value,
    )[k] by {
        let j = index_of(after, k);
        lemma_entry_in_map(after, j);
        lemma_entry_in_map(entries, j);
    }
    assert(after_map =~= before_map.insert(key@, value));
}

/// Entries that keep their keys and have each value `v` replaced by `f(v)`
/// stand for the map with each value replaced in that way.
pub proof fn lemma_mapped_entries<K: View, V, W>(
    before: Seq<(K, V)>,
    after: Seq<(K, W)>,
    f: spec_fn(V) -> W,
)
    requires
        distinct_keys(before),
        after.len() == before.len(),
        forall|i: int|
            0 <= i < before.len() ==> (#[trigger] after[i]).0@ == before[i].0@ && after[i].1 == f(
                before[i].1,
            ),
    ensures
        distinct_keys(after),
        entries_map(after) == entries_map(before).map_values(f),
{
    assert forall|i: int, j: int| 0 <= i < j < after.len() implies (#[trigger] after[i]).0@ != (
    #[trigger] after[j]).0@ by {
        assert(before[i].0@ != before[j].0@);
    }
    let ghost before_map = entries_map(before);
    let ghost after_map = entries_map(after);
    assert forall|k: K::V| after_map.contains_key(k) <==> before_map.map_values(f).contains_key(
        k,
    ) by {
        if has_key(after, k) {
            let i = index_of(after, k);
            assert(before[i].0@ == k);
        }
        if has_key(before, k) {
            let i = index_of(before, k);
            assert(after[i].0@ == k);
        }
    }
    assert forall|k: K::V| after_map.contains_key(k) implies after_map[k] == before_map.map_values(
        f,
    )[k] by {
        let i = index_of(after, k);
        lemma_entry_in_map(after, i);
        lemma_entry_in_map(before, i);
    }
    assert(after_map =~= before_map.map_values(f));
}

/// The first `i + 1` entries stand for the map of the first `i` entries
/// with the entry at position `i` inserted.
pub proof fn lemma_take_next<K: View, V>(entries: Seq<(K, V)>, i: int)
    requires
        distinct_keys(entries),
        0 <= i < entries.len(),
    ensures
        distinct_keys(entries.take(i)),
        !has_key(entries.take(i), entries[i].0@),
        entries_map(entries.take(i + 1)) == entries_map(entries.take(i)).insert(
            entries[i].0@,
            entries[i].1,
        ),
{
    let head = entries.take(i);
    assert forall|a: int, b: int| 0 <= a < b < head.len() implies (#[trigger] head[a]).0@ != (
    #[trigger] head[b]).0@ by {
        assert(entries[a].0@ != entries[b].0@);
    }
    if has_key(head, entries[i].0@) {
        let j = index_of(head, entries[i].0@);
        assert(entries[j].0@ != entries[i].0@);
    }
    assert(entries.take(i + 1) =~= head.push(entries[i]));
    lemma_push_entry(head, entries[i].0, entries[i].1);
}

/// No entries stand for the empty map, and all entries for the whole map.
pub proof fn lemma_take_ends<K: View, V>(entries: Seq<(K, V)>)
    ensures
        entries_map(entries.take(0)) == Map::<K::V, V>::empty(),
        entries.take(entries.len() as int) == entries,
{
    assert(entries_map(entries.take(0)) =~= Map::<K::V, V>::empty());
    assert(entries.take(entries.len() as int) =~= entries);
}

/// A table from keys to values, held as a vector of entries with distinct
/// keys.
pub struct VecMap<K: TableKey, V> {
    entries: Vec<(K, V)>,
}

impl<K: TableKey + Duplicate, V: Duplicate> Clone for VecMap<K, V> {
    /// A table with copies of the entries, in the same order.
    fn clone(&self) -> (copy: Self)
        ensures
            copy.entries() == self.entries(),
    {
        let mut entries: Vec<(K, V)> = Vec::new();
        let n = self.entries.len();
        let mut i: usize = 0;
        while i < n
            invariant
                i <= n,
                n == self.entries@.len(),
                entries@ == self.entries@.take(i as int),
            decreases n - i,
        {
            entries.push((self.entries[i].0.duplicated(), self.entries[i].1.duplicated()));
            assert(entries@ =~= self.entries@.take(i + 1));
            i += 1;
        }
        assert(entries@ =~= self.entries@);
        VecMap { entries }
    }
}

impl<K: TableKey, V> View for VecMap<K, V> {
    type V = Map<K::V, V>;

    open spec fn view(&self) -> Map<K::V, V> {
        entries_map(self.entries())
    }
}

impl<K: TableKey, V> VecMap<K, V> {
    /// The entries in the order in which they are stored.
    pub closed spec fn entries(&self) -> Seq<(K, V)> {
        self.entries@
    }

    /// No key occurs twice.
    pub open spec fn wf(&self) -> bool {
        distinct_keys(self.entries())
    }

    /// An empty table.
    pub fn new() -> (table: Self)
        ensures
            table.wf(),
            table.entries() == Seq::<(K, V)>::empty(),
            table@ == Map::<K::V, V>::empty(),
    {
        let table = VecMap { entries: Vec::new() };
        assert(table@ =~= Map::<K::V, V>::empty());
        table
    }

    /// The number of entries.
    pub fn len(&self) -> (n: usize)
        ensures
            n == self.entries().len(),
    {
        self.entries.len()
    }

    /// The key of the entry at position `i`.
    pub fn key_at(&self, i: usize) -> (key: &K)
        requires
            i < self.entries().len(),
        ensures
            *key == self.entries()[i as int].0,
    {
        &self.entries[i].0
    }

    /// The value of the entry at position `i`.
    pub fn value_at(&self, i: usize) -> (value: &V)
        requires
            i < self.entries().len(),
        ensures
            *value == self.entries()[i as int].1,
    {
        &self.entries[i].1
    }

    /// Replaces the value of the entry at position `i`, keeping its key.
    pub fn set_value_at(&mut self, i: usize, value: V)
        requires
            old(self).wf(),
            i < old(self).entries().len(),
        ensures
            final(self).wf(),
            final(self).entries() == old(self).entries().update(
                i as int,
                (old(self).entries()[i as int].0, value),
            ),
            final(self)@ == old(self)@.insert(old(self).entries()[i as int].0@, value),
    {
        proof {
            lemma_update_entry(self.entries@, i as int, self.entries@[i as int].0, value);
        }
        self.entries[i].1 = value;
    }

    /// The position of the entry for `key`, if there is one.
    pub fn position(&self, key: &K) -> (found: Option<usize>)
        requires
            self.wf(),
        ensures
            found is Some <==> self@.contains_key(key@),
            found matches Some(i) ==> i < self.entries().len() && self.entries()[i as int].0@
                == key@ && self@[key@] == self.entries()[i as int].1,
    {
        let mut i: usize = 0;
        while i < self.entries.len()
            invariant
                i <= self.entries@.len(),
                self.wf(),
                forall|j: int| 0 <= j < i ==> (#[trigger] self.entries@[j]).0@ != key@,
            decreases self.entries@.len() - i,
        {
            if self.entries[i].0.same_key(key) {
                proof {
                    lemma_entry_in_map(self.entries@, i as int);
                }
                return Some(i);
            }
            i += 1;
        }
        None
    }

    /// Whether the table holds an entry for `key`.
    pub fn contains_key(&self, key: &K) -> (found: bool)
        requires
            self.wf(),
        ensures
            found == self@.contains_key(key@),
    {
        self.position(key).is_some()
    }

    /// The value stored for `key`, if there is one.
    pub fn get(&self, key: &K) -> (found: Option<&V>)
        requires
            self.wf(),
        ensures
            found == (if self@.contains_key(key@) {
                Some(&self@[key@])
            } else {
                None
            }),
    {
        match self.position(key) {
            Some(i) => Some(&self.entries[i].1),
            None => None,
        }
    }

    /// Stores `value` for `key`, replacing the value of an entry that is
    /// already there.
    pub fn insert(&mut self, key: K, value: V)
        requires
            old(self).wf(),
        ensures
            final(self).wf(),
            final(self)@ == old(self)@.insert(key@, value),
    {
        match self.position(&key) {
            Some(i) => {
                proof {
                    lemma_update_entry(self.entries@, i as int, self.entries@[i as int].0, value);
                }
                self.entries[i].1 = value;
            },
            None => {
                proof {
                    lemma_push_entry(self.entries@, key, value);
                }
                self.entries.push((key, value));
            },
        }
    }
}

} // verus!
