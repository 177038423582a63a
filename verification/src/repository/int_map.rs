//! Hash maps keyed by an integer that is its own hash.
//!
//! The maps are `nohash_hasher::IntMap`s: `std::collections::HashMap` with the
//! hasher of `nohash_hasher`. What each map holds is its view, a `Map` from
//! keys to values.
//!
//! The contracts that `vstd` gives to the methods of `HashMap` hold for the
//! hashers it knows. This hasher is not among them, so the same contracts are
//! stated here for it, on the methods that the library calls, and taken on
//! trust: the hasher returns the key it was given, the same every time, as a
//! hash table needs it.

use vstd::prelude::*;
use vstd::std_specs::hash::{spec_hash_map_iter, EntrySpecFns};
use vstd::std_specs::iter::IteratorSpec;
use std::collections::hash_map::{Entry, Iter};
use nohash_hasher::{BuildNoHashHasher, IntMap};

verus! {

/// `nohash_hasher::NoHashHasher`, the hasher that hands an integer key back as
/// its own hash. Nothing is said of what is inside.
#[verifier::external_type_specification]
#[verifier::external_body]
#[verifier::reject_recursive_types(T)]
pub struct ExNoHashHasher<T>(nohash_hasher::NoHashHasher<T>);

/// `std::hash::BuildHasherDefault`, which makes the hashers for a map.
/// Nothing is said of what is inside.
#[verifier::external_type_specification]
#[verifier::external_body]
#[verifier::reject_recursive_types(H)]
pub struct ExBuildHasherDefault<H>(std::hash::BuildHasherDefault<H>);

/// Calls `HashMap::get` on a map keyed by transaction identifiers. The
/// hasher takes the identifier itself as its hash, so the map finds a value
/// exactly under the key it was inserted with.
#[verifier::external_body]
pub(crate) fn get_u32<'a, V>(map: &'a IntMap<u32, V>, key: u32) -> (value: Option<&'a V>)
    ensures
        match value {
            Some(v) => map@.contains_key(key) && *v == map@[key],
            None => !map@.contains_key(key),
        },
{
    map.get(&key)
}

/// Calls `HashMap::contains_key` on a map keyed by transaction identifiers.
#[verifier::external_body]
pub(crate) fn contains_key_u32<V>(map: &IntMap<u32, V>, key: u32) -> (found: bool)
    ensures
        found == map@.contains_key(key),
{
    map.contains_key(&key)
}

/// Calls `HashMap::insert` on a map keyed by transaction identifiers: the
/// value stands under the key afterwards, replacing what stood there.
#[verifier::external_body]
pub(crate) fn insert_u32<V>(map: &mut IntMap<u32, V>, key: u32, value: V)
    ensures
        final(map)@ == old(map)@.insert(key, value),
{
    map.insert(key, value);
}

/// Calls `HashMap::remove` on a map keyed by transaction identifiers: the
/// key is absent afterwards and every other entry is as before.
#[verifier::external_body]
pub(crate) fn remove_u32<V>(map: &mut IntMap<u32, V>, key: u32)
    ensures
        final(map)@ == old(map)@.remove(key),
{
    map.remove(&key);
}

/// Calls `HashMap::with_capacity_and_hasher` with the hasher of
/// `nohash_hasher`: the map is empty, whatever room it was made with. Room
/// for more entries than there are keys is never asked for.
#[verifier::external_body]
pub(crate) fn with_capacity_u16<V>(capacity: usize) -> (made: IntMap<u16, V>)
    requires
        capacity <= 0x1_0000,
    ensures
        made@ == (Map::<u16, V>::empty()),
{
    IntMap::with_capacity_and_hasher(capacity, BuildNoHashHasher::default())
}

/// Calls `HashMap::entry` on a map keyed by client identifiers. The entry
/// stands for the key's place in the map: it holds the value found there, if
/// any, and what the entry is left with is what the map holds under the key
/// afterwards.
#[verifier::external_body]
pub(crate) fn entry_u16<'a, V>(map: &'a mut IntMap<u16, V>, key: u16) -> (entry: Entry<'a, u16, V>)
    ensures
        entry.spec_key() == key,
        entry.value() == old(map)@.get(key),
        final(map)@ == (match entry.final_value() {
            Some(value) => old(map)@.insert(key, value),
            None => old(map)@.remove(key),
        }),
{
    map.entry(key)
}

/// Calls `HashMap::iter` on a map keyed by client identifiers: the iterator
/// yields every entry of the map once, in an order of its own.
#[verifier::external_body]
pub(crate) fn iter_u16<'a, V>(map: &'a IntMap<u16, V>) -> (iter: Iter<'a, u16, V>)
    ensures
        iter == spec_hash_map_iter(map),
        iter.remaining().no_duplicates(),
        IteratorSpec::decrease(&iter) is Some,
        IteratorSpec::initial_value_relation(&iter, &iter),
{
    map.iter()
}

} // verus!
