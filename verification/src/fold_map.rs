//! Maps keyed by `u64` that hash with the `foldhash` crate.
//!
//! `std`'s `HashMap` with `foldhash::fast::RandomState` as its hasher builder.
//! A `RandomState` draws its seed once, when it is created, so every hasher that one map
//! builds hashes a key the same way; the map then behaves as a map of keys to values.
use std::collections::HashMap;
use vstd::prelude::*;

verus! {

#[verifier::external_type_specification]
#[verifier::external_body]
pub struct ExFoldRandomState(foldhash::fast::RandomState);

/// A `std` hash map keyed by `u64`, hashed by `foldhash`.
pub type FoldMap<V> = HashMap<u64, V, foldhash::fast::RandomState>;

/// Calls `HashMap::get` on a map hashed by `foldhash`:
/// the value stored under `key`, if any.
#[verifier::external_body]
pub(crate) fn fold_map_get<V>(m: &FoldMap<V>, key: u64) -> (r: Option<&V>)
    ensures
        r == (if m@.contains_key(key) { Some(&m@[key]) } else { None }),
{
    m.get(&key)
}

/// Calls `HashMap::contains_key` on a map hashed by `foldhash`:
/// whether a value is stored under `key`.
#[verifier::external_body]
pub(crate) fn fold_map_contains_key<V>(m: &FoldMap<V>, key: u64) -> (r: bool)
    ensures
        r == m@.contains_key(key),
{
    m.contains_key(&key)
}

/// Calls `HashMap::insert` on a map hashed by `foldhash`:
/// stores `value` under `key` and hands back the value stored there before, if any.
#[verifier::external_body]
pub(crate) fn fold_map_insert<V>(m: &mut FoldMap<V>, key: u64, value: V) -> (r: Option<V>)
    ensures
        final(m)@ == old(m)@.insert(key, value),
        r == old(m)@.get(key),
{
    m.insert(key, value)
}

/// Calls `HashMap::remove` on a map hashed by `foldhash`:
/// takes the value stored under `key` out of the map, if any.
#[verifier::external_body]
pub(crate) fn fold_map_remove<V>(m: &mut FoldMap<V>, key: u64) -> (r: Option<V>)
    ensures
        final(m)@ == old(m)@.remove(key),
        r == old(m)@.get(key),
{
    m.remove(&key)
}

/// `entries` lists the entries of `m`, each exactly once, in some order.
pub open spec fn lists_entries<V>(entries: Seq<(u64, V)>, m: Map<u64, V>) -> bool {
    &&& forall|i: int| 0 <= i < entries.len() ==> m.contains_key(#[trigger] entries[i].0) && m[entries[i].0] == entries[i].1
    &&& forall|k: u64| #[trigger] m.contains_key(k) ==> exists|i: int| 0 <= i < entries.len() && #[trigger] entries[i].0 == k
    &&& forall|i: int, j: int| 0 <= i < j < entries.len() ==> (#[trigger] entries[i]).0 != (#[trigger] entries[j]).0
}

/// Calls `IntoIterator::into_iter` on a map hashed by `foldhash` and collects what it yields:
/// every entry of the map, each once, in the map's own order.
#[verifier::external_body]
pub(crate) fn fold_map_into_entries<V>(m: FoldMap<V>) -> (r: Vec<(u64, V)>)
    ensures
        lists_entries(r@, m@),
{
    m.into_iter().collect()
}

} // verus!
