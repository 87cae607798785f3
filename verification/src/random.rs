//! Random draws. Each function here hands its work to the `rand` crate, on
//! the generator of the calling thread: what its contract says is taken on
//! trust, and that a draw is uniform is not stated anywhere.

use rand::seq::SliceRandom;
use rand::Rng;
use vstd::prelude::*;

verus! {

/// `Rng::gen_range` over the inclusive range `low..=high`. It is taken on
/// trust that the value drawn lies in that range. The range is not empty,
/// so the call does not panic.
#[verifier::external_body]
pub(crate) fn random_between(low: u64, high: u64) -> (r: u64)
    requires
        low <= high,
    ensures
        low <= r <= high,
{
    rand::thread_rng().gen_range(low..=high)
}

/// `SliceRandom::choose` on the items of `items`. It is taken on trust that
/// the call yields nothing for an empty slice and else a reference to one of
/// the items.
#[verifier::external_body]
pub(crate) fn pick<T>(items: &Vec<T>) -> (r: Option<&T>)
    ensures
        items.len() == 0 ==> r is None,
        items.len() > 0 ==> r is Some && items@.contains(*r.unwrap()),
{
    items.as_slice().choose(&mut rand::thread_rng())
}

} // verus!
