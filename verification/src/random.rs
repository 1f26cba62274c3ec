//! Chance. What is drawn here differs from call to call: the contracts say
//! only what holds of every draw.

use rand::seq::SliceRandom;
use rand::Rng;
use vstd::prelude::*;

verus! {

/// Calls `rand::thread_rng` and, on what it returns, `Rng::gen_range` with
/// the range `0..n`. Claimed: the result lies in that range. `gen_range`
/// panics on an empty range, which `n > 0` leaves out.
#[verifier::external_body]
pub(crate) fn random_below(n: usize) -> (r: usize)
    requires
        n > 0,
    ensures
        r < n,
{
    rand::thread_rng().gen_range(0..n)
}

/// Calls `rand::thread_rng` and, with what it returns, `SliceRandom::shuffle`
/// on the items of `v`. Claimed: afterwards `v` holds the same items, each
/// as often as before.
#[verifier::external_body]
pub(crate) fn shuffle(v: &mut Vec<u32>)
    ensures
        final(v)@.to_multiset() == old(v)@.to_multiset(),
{
    v.shuffle(&mut rand::thread_rng());
}

} // verus!
