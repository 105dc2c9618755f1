//! The random draws of the kernel.

use vstd::prelude::*;
use rand::Rng;
use crate::components::player::Item;

verus! {

/// Draws a number from `low` up to, not including, `high` with
/// `rand::Rng::gen_range` on the generator that `rand::thread_rng` gives.
/// Nothing is claimed of the draw but that it lies in this range, which is
/// what the sampling of `rand` for machine words computes: `low` plus a
/// remainder by `high - low`. `gen_range` panics on an empty range, which
/// the precondition rules out; `thread_rng` panics where the system has no
/// entropy to seed it, which nothing here can rule out.
#[verifier::external_body]
pub(crate) fn random_in(low: usize, high: usize) -> (r: usize)
    requires
        low < high,
    ensures
        low <= r < high,
{
    rand::thread_rng().gen_range(low, high)
}

/// Picks one of `items` with `rand::Rng::choose` on the generator that
/// `rand::thread_rng` gives. The pick is none where there is nothing to
/// pick from, and one of the items otherwise, as `choose` indexes the slice
/// with a draw below its length; which one is not said.
#[verifier::external_body]
pub(crate) fn pick_item(items: &Vec<Item>) -> (r: Option<&Item>)
    ensures
        r is Some <==> items@.len() > 0,
        r is Some ==> exists|k: int| 0 <= k < items@.len() && *r.unwrap() == #[trigger] items@[k],
{
    rand::thread_rng().choose(items)
}

} // verus!
