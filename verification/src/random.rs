//! The source of chance.

use vstd::prelude::*;
use rand::rngs::StdRng;

verus! {

/// The generator of `rand` that a simulation draws its lots from. Nothing
/// is known of its state.
#[verifier::external_type_specification]
#[verifier::external_body]
pub struct ExStdRng(rand::rngs::StdRng);

/// Calls `rand::SeedableRng::seed_from_u64` for `StdRng`: a generator
/// made from `seed`. Nothing is claimed of it.
#[verifier::external_body]
pub(crate) fn seeded(seed: u64) -> StdRng {
    rand::SeedableRng::seed_from_u64(seed)
}

/// Calls `rand::Rng::gen_ratio`: a lot that comes out `true` with the
/// probability `numerator / denominator`. The call panics on a zero
/// denominator and on a numerator above the denominator, which are left
/// out here. Of the outcome only the two certain cases are claimed: never
/// `true` for a zero numerator, always `true` for a numerator equal to
/// the denominator.
#[verifier::external_body]
pub(crate) fn draw_ratio(rng: &mut StdRng, numerator: u32, denominator: u32) -> (hit: bool)
    requires
        denominator > 0,
        numerator <= denominator,
    ensures
        numerator == 0 ==> !hit,
        numerator == denominator ==> hit,
{
    rand::Rng::gen_ratio(rng, numerator, denominator)
}

} // verus!
