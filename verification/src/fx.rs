//! rustc-hash's maps and sets, keyed by 64-bit values.
//!
//! They are std's `HashMap` and `HashSet` with the hasher of rustc-hash, which is the same in every
//! process: what they hold is known, the order in which they hand it out is not.

use rustc_hash::{FxBuildHasher, FxHashMap, FxHashSet};
use vstd::prelude::*;

verus! {

/// rustc-hash's `FxBuildHasher`.
#[verifier::external_type_specification]
#[verifier::external_body]
pub struct ExFxBuildHasher(FxBuildHasher);

/// `FxHashMap::insert`: the map then holds `value` under `key`, and what it held under other keys.
#[verifier::external_body]
pub(crate) fn map_insert<Value>(map: &mut FxHashMap<u64, Value>, key: u64, value: Value)
    ensures
        final(map)@ == old(map)@.insert(key, value),
{
    map.insert(key, value);
}

/// `FxHashMap::get`: what the map holds under `key`.
#[verifier::external_body]
pub(crate) fn map_get<'a, Value>(map: &'a FxHashMap<u64, Value>, key: u64) -> (found: Option<
    &'a Value,
>)
    ensures
        match found {
            Some(value) => map@.contains_key(key) && *value == map@[key],
            None => !map@.contains_key(key),
        },
{
    map.get(&key)
}

/// `FxHashMap::contains_key`: whether the map holds something under `key`.
#[verifier::external_body]
pub(crate) fn map_contains<Value>(map: &FxHashMap<u64, Value>, key: u64) -> (found: bool)
    ensures
        found == map@.contains_key(key),
{
    map.contains_key(&key)
}

/// `FxHashSet::insert`: the set then holds `value` too.
#[verifier::external_body]
pub(crate) fn set_insert(set: &mut FxHashSet<u64>, value: u64)
    ensures
        final(set)@ == old(set)@.insert(value),
{
    set.insert(value);
}

/// `FxHashSet::contains`: whether the set holds `value`.
#[verifier::external_body]
pub(crate) fn set_contains(set: &FxHashSet<u64>, value: u64) -> (found: bool)
    ensures
        found == set@.contains(value),
{
    set.contains(&value)
}

/// `FxHashSet::iter`: each value that the set holds, once, in an order that is not known.
#[verifier::external_body]
pub(crate) fn set_values(set: &FxHashSet<u64>) -> (values: Vec<u64>)
    ensures
        values@.no_duplicates(),
        values@.to_set() == set@,
{
    set.iter().copied().collect()
}

} // verus!
