//! The Fx-hashed sets and maps the keyboard state and the link table are kept in, keyed by integers.
//!
//! `rustc_hash::FxHashSet` and `FxHashMap` are std's `HashSet` and `HashMap` built with `rustc_hash::FxBuildHasher`, whose hasher is deterministic: the same key always hashes the same, so for `u64` keys the set and the map behave as the mathematical set and map of their contents. The items below say so of each method this crate calls; that is what is trusted here.

use vstd::prelude::*;

use rustc_hash::{FxBuildHasher, FxHashMap, FxHashSet};

verus! {

/// `rustc_hash::FxBuildHasher`, carried through as an opaque value.
#[verifier::external_type_specification]
#[verifier::external_body]
pub struct ExFxBuildHasher(FxBuildHasher);

/// `HashSet::insert` on an Fx-hashed set of integers. Claims the key is in the set afterwards, nothing else changed, and the answer is whether it was absent before.
#[verifier::external_body]
pub(crate) fn fx_set_insert(s: &mut FxHashSet<u64>, key: u64) -> (added: bool)
    ensures
        final(s)@ == old(s)@.insert(key),
        added == !old(s)@.contains(key),
{
    s.insert(key)
}

/// `HashSet::remove` on an Fx-hashed set of integers. Claims the key is gone afterwards, nothing else changed, and the answer is whether it was there.
#[verifier::external_body]
pub(crate) fn fx_set_remove(s: &mut FxHashSet<u64>, key: u64) -> (removed: bool)
    ensures
        final(s)@ == old(s)@.remove(key),
        removed == old(s)@.contains(key),
{
    s.remove(&key)
}

/// `HashSet::contains` on an Fx-hashed set of integers. Claims the answer is membership.
#[verifier::external_body]
pub(crate) fn fx_set_contains(s: &FxHashSet<u64>, key: u64) -> (found: bool)
    ensures
        found == s@.contains(key),
{
    s.contains(&key)
}

/// `HashMap::insert` on an Fx-hashed map of integers. Claims the key maps to the value afterwards, nothing else changed, and the answer is what it mapped to before.
#[verifier::external_body]
pub(crate) fn fx_map_insert(m: &mut FxHashMap<u64, u64>, key: u64, value: u64) -> (previous: Option<
    u64,
>)
    ensures
        final(m)@ == old(m)@.insert(key, value),
        previous == (if old(m)@.contains_key(key) {
            Some(old(m)@[key])
        } else {
            None
        }),
{
    m.insert(key, value)
}

/// `HashMap::remove` on an Fx-hashed map of integers. Claims the key is gone afterwards, nothing else changed, and the answer is what it mapped to.
#[verifier::external_body]
pub(crate) fn fx_map_remove(m: &mut FxHashMap<u64, u64>, key: u64) -> (previous: Option<u64>)
    ensures
        final(m)@ == old(m)@.remove(key),
        previous == (if old(m)@.contains_key(key) {
            Some(old(m)@[key])
        } else {
            None
        }),
{
    m.remove(&key)
}

/// `HashMap::get` on an Fx-hashed map of integers, copied out. Claims the answer is what the key maps to, if anything.
#[verifier::external_body]
pub(crate) fn fx_map_get(m: &FxHashMap<u64, u64>, key: u64) -> (found: Option<u64>)
    ensures
        found == (if m@.contains_key(key) {
            Some(m@[key])
        } else {
            None
        }),
{
    m.get(&key).copied()
}

} // verus!
