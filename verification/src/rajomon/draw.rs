//! Uniform random draws for token spending and price propagation.
use rand::Rng;
use vstd::prelude::*;

verus! {

/// `rand::Rng::gen_range` on `0..=max`, drawn from `rand::thread_rng()`: a
/// uniformly random integer between 0 and `max` inclusive. Which one comes
/// out is chance, so the contract states only the range.
#[verifier::external_body]
pub(crate) fn random_at_most(max: u64) -> (r: u64)
    ensures
        r <= max,
{
    rand::thread_rng().gen_range(0..=max)
}

} // verus!
