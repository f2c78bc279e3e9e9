use rand::Rng;
use vstd::prelude::*;

verus! {

/// Draws a number with `rand::thread_rng().gen_range(0..bound)`: uniform in
/// `0..bound` from the thread's random generator. `gen_range` panics on an
/// empty range, hence `bound > 0`. Which number comes is chance: the contract
/// states only its range.
#[verifier::external_body]
pub(crate) fn random_below(bound: u64) -> (r: u64)
    requires
        bound > 0,
    ensures
        r < bound,
{
    rand::thread_rng().gen_range(0..bound)
}

} // verus!
