//! A string-keyed table: `dashmap::DashMap` resolves a key to the slot that holds its value.

use dashmap::DashMap;
use vstd::prelude::*;

verus! {

#[verifier::external_type_specification]
#[verifier::external_body]
#[verifier::reject_recursive_types(K)]
#[verifier::reject_recursive_types(V)]
#[verifier::reject_recursive_types(S)]
pub struct ExDashMap<K, V, S>(DashMap<K, V, S>);

/// What a slot index holds: the slot number filed under each key.
pub uninterp spec fn slot_index(index: DashMap<String, usize>) -> Map<Seq<char>, usize>;

/// `DashMap::new`: the new map holds nothing.
#[verifier::external_body]
fn index_new() -> (index: DashMap<String, usize>)
    ensures
        forall|key: Seq<char>| !slot_index(index).contains_key(key),
{
    DashMap::new()
}

/// `DashMap::get`: the value under `key`, copied out of the guard, or `None` where there is none.
#[verifier::external_body]
fn index_get(index: &DashMap<String, usize>, key: &str) -> (slot: Option<usize>)
    ensures
        slot == (if slot_index(*index).contains_key(key@) {
            Some(slot_index(*index)[key@])
        } else {
            None::<usize>
        }),
{
    index.get(key).map(|guard| *guard)
}

/// `DashMap::insert`: `key` now holds `slot`, and every other key what it held.
#[verifier::external_body]
fn index_insert(index: &mut DashMap<String, usize>, key: String, slot: usize)
    ensures
        slot_index(*final(index)) == slot_index(*old(index)).insert(key@, slot),
{
    index.insert(key, slot);
}

/// `DashMap::remove`: `key` is gone, and every other key holds what it held.
#[verifier::external_body]
fn index_remove(index: &mut DashMap<String, usize>, key: &str)
    ensures
        slot_index(*final(index)) == slot_index(*old(index)).remove(key@),
{
    index.remove(key);
}

/// Mapping the values of a map commutes with an insertion.
pub broadcast proof fn lemma_map_values_insert<K, V, W>(
    map: Map<K, V>,
    f: spec_fn(V) -> W,
    key: K,
    value: V,
)
    ensures
        #[trigger] map.insert(key, value).map_values(f) == map.map_values(f).insert(key, f(value)),
{
    assert(map.insert(key, value).map_values(f) =~= map.map_values(f).insert(key, f(value)));
}

/// Mapping the values of a map commutes with a removal.
pub broadcast proof fn lemma_map_values_remove<K, V, W>(map: Map<K, V>, f: spec_fn(V) -> W, key: K)
    ensures
        #[trigger] map.remove(key).map_values(f) == map.map_values(f).remove(key),
{
    assert(map.remove(key).map_values(f) =~= map.map_values(f).remove(key));
}

pub broadcast group group_map_values {
    lemma_map_values_insert,
    lemma_map_values_remove,
}

/// Values filed under string keys. A `DashMap` hands its values out behind guards, from which no
/// plain reference can be taken; so the map resolves a key, and the values are borrowed from their
/// slots.
pub struct Table<V> {
    index: DashMap<String, usize>,
    entries: Vec<(String, V)>,
}

impl<V> View for Table<V> {
    type V = Map<Seq<char>, V>;

    closed spec fn view(&self) -> Map<Seq<char>, V> {
        Map::new(
            |key: Seq<char>| slot_index(self.index).contains_key(key),
            |key: Seq<char>| self.entries@[slot_index(self.index)[key] as int].1,
        )
    }
}

impl<V> Table<V> {
    /// The index and the slots agree.
    pub closed spec fn wf(&self) -> bool {
        let index = slot_index(self.index);
        &&& forall|i: int|
            0 <= i < self.entries@.len() ==> index.contains_key(#[trigger] self.entries@[i].0@)
                && index[self.entries@[i].0@] == i
        &&& forall|key: Seq<char>| #[trigger]
            index.contains_key(key) ==> index[key] < self.entries@.len()
                && self.entries@[index[key] as int].0@ == key
    }

    /// The keys of the table, each once, in slot order.
    pub closed spec fn keys(&self) -> Seq<Seq<char>> {
        self.entries@.map_values(|entry: (String, V)| entry.0@)
    }

    /// `keys` lists exactly the keys of the map, each once.
    pub proof fn lemma_keys(&self)
        requires
            self.wf(),
        ensures
            self.keys().no_duplicates(),
            forall|key: Seq<char>| #[trigger]
                self@.contains_key(key) <==> self.keys().contains(key),
            forall|i: int|
                0 <= i < self.keys().len() ==> self@.contains_key(#[trigger] self.keys()[i]),
    {
        let index = slot_index(self.index);
        assert forall|key: Seq<char>| #[trigger] self@.contains_key(key) implies self.keys().contains(
            key,
        ) by {
            assert(self.keys()[index[key] as int] == key);
        }
    }

    pub fn new() -> (table: Self)
        ensures
            table.wf(),
            table@ == Map::<Seq<char>, V>::empty(),
    {
        Table { index: index_new(), entries: Vec::new() }
    }

    /// How many keys the table holds.
    pub fn len(&self) -> (len: usize)
        ensures
            len == self.keys().len(),
    {
        self.entries.len()
    }

    /// The key in slot `i`.
    pub fn key_at(&self, i: usize) -> (key: &String)
        requires
            i < self.keys().len(),
        ensures
            key@ == self.keys()[i as int],
    {
        &self.entries[i].0
    }

    /// The value in slot `i`.
    pub fn value_at(&self, i: usize) -> (value: &V)
        requires
            self.wf(),
            i < self.keys().len(),
        ensures
            *value == self@[self.keys()[i as int]],
    {
        &self.entries[i].1
    }

    /// Whether the table holds `key`.
    pub fn contains_key(&self, key: &str) -> (held: bool)
        ensures
            held == self@.contains_key(key@),
    {
        index_get(&self.index, key).is_some()
    }

    pub fn get(&self, key: &str) -> (value: Option<&V>)
        requires
            self.wf(),
        ensures
            value == (if self@.contains_key(key@) {
                Some(&self@[key@])
            } else {
                None::<&V>
            }),
    {
        match index_get(&self.index, key) {
            Some(slot) => Some(&self.entries[slot].1),
            None => None,
        }
    }

    pub fn get_mut(&mut self, key: &str) -> (value: Option<&mut V>)
        requires
            old(self).wf(),
        ensures
            final(self).wf(),
            final(self).keys() == old(self).keys(),
            match value {
                Some(v) => old(self)@.contains_key(key@) && *v == old(self)@[key@] && final(self)@
                    == old(self)@.insert(key@, *final(v)),
                None => !old(self)@.contains_key(key@) && final(self)@ == old(self)@,
            },
    {
        match index_get(&self.index, key) {
            Some(slot) => Some(&mut self.entries[slot].1),
            None => None,
        }
    }

    pub fn insert(&mut self, key: String, value: V) -> (previous: Option<V>)
        requires
            old(self).wf(),
        ensures
            final(self).wf(),
            final(self)@ == old(self)@.insert(key@, value),
            previous == (if old(self)@.contains_key(key@) {
                Some(old(self)@[key@])
            } else {
                None::<V>
            }),
    {
        match index_get(&self.index, key.as_str()) {
            Some(slot) => {
                let mut value: V = value;
                let mut place = &mut self.entries[slot].1;
                std::mem::swap(place, &mut value);
                Some(value)
            },
            None => {
                let slot: usize = self.entries.len();
                index_insert(&mut self.index, key.clone(), slot);
                self.entries.push((key, value));
                None
            },
        }
    }

    pub fn remove(&mut self, key: &str) -> (removed: Option<V>)
        requires
            old(self).wf(),
        ensures
            final(self).wf(),
            final(self)@ == old(self)@.remove(key@),
            removed == (if old(self)@.contains_key(key@) {
                Some(old(self)@[key@])
            } else {
                None::<V>
            }),
    {
        match index_get(&self.index, key) {
            Some(slot) => {
                index_remove(&mut self.index, key);
                let removed = self.entries.swap_remove(slot);
                if slot < self.entries.len() {
                    let moved: String = self.entries[slot].0.clone();
                    index_insert(&mut self.index, moved, slot);
                }
                Some(removed.1)
            },
            None => None,
        }
    }
}

} // verus!
