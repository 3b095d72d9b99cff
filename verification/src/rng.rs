//! Trusted boundary to the process-wide random number generator. Nothing
//! can be promised about which values come back, only about their range and
//! about the shuffled slice being a rearrangement of what went in.

use crate::catalog::CatalogEntry;
use rand::seq::SliceRandom;
use vstd::prelude::*;

verus! {

/// Relies on `rand::random_range` over `0..n`: the drawn value lies in the
/// given (non-empty) range, hence below `n`.
#[verifier::external_body]
pub fn random_index(n: usize) -> (r: usize)
    requires
        n > 0,
    ensures
        r < n,
{
    rand::random_range(0..n)
}

/// Relies on `rand::seq::SliceRandom::shuffle`: it permutes the slice in
/// place by element swaps, so the new contents are the old contents
/// rearranged, occurrence for occurrence.
#[verifier::external_body]
pub(crate) fn shuffle_entries(v: &mut Vec<CatalogEntry>)
    ensures
        final(v)@.len() == old(v)@.len(),
        final(v)@.to_multiset() == old(v)@.to_multiset(),
{
    v.shuffle(&mut rand::rng());
}

} // verus!
