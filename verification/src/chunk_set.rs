//! Sets of keys, kept in `rustc_hash`'s `FxHashSet`.
//!
//! The set is std's `HashSet` with `rustc_hash::FxHasher` as its hasher. What
//! it holds is its view, a `Set` of keys. The functions here are the only ones
//! that touch such a set; their contracts are taken on trust.

use rustc_hash::FxHashSet;
use rustc_hash::FxHasher;
use std::hash::BuildHasherDefault;
use vstd::prelude::*;

verus! {

/// `rustc_hash::FxHasher`, the hasher state of an `FxHashSet`. Opaque here.
#[verifier::external_type_specification]
#[verifier::external_body]
pub struct ExFxHasher(FxHasher);

/// `std::hash::BuildHasherDefault`, which makes a default hasher for each
/// lookup. Opaque here.
#[verifier::external_type_specification]
#[verifier::external_body]
#[verifier::reject_recursive_types(H)]
pub struct ExBuildHasherDefault<H>(BuildHasherDefault<H>);

/// Calls `FxHashSet::insert`. Trusted: afterwards the set holds what it held
/// and `key`, and the result tells whether `key` was new. `FxHasher` hashes a
/// `usize` as a function of its value alone, so equal keys meet in the table.
#[verifier::external_body]
pub(crate) fn set_insert(set: &mut FxHashSet<usize>, key: usize) -> (fresh: bool)
    ensures
        final(set)@ == old(set)@.insert(key),
        fresh == !old(set)@.contains(key),
{
    set.insert(key)
}

/// Calls `FxHashSet::iter` and hands the keys out in the order in which the
/// table is walked. Trusted: each key of the set comes exactly once and
/// nothing else comes. Nothing is claimed of the order.
#[verifier::external_body]
pub(crate) fn set_members(set: &FxHashSet<usize>) -> (members: Vec<usize>)
    ensures
        members@.no_duplicates(),
        members@.to_set() == set@,
{
    set.iter().copied().collect()
}

} // verus!
