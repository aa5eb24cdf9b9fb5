//! Trusted boundary to the `rand` crate.
//!
//! The library seeds grids from a pseudo-random generator. Nothing can be
//! promised of a random draw, so the wrappers here carry no postconditions:
//! every caller is verified to behave correctly whatever value comes back.

use rand::Rng;
use rand::distributions::Distribution;
use vstd::prelude::*;

verus! {

#[verifier::external_type_specification]
#[verifier::external_body]
pub struct ExSmallRng(rand::rngs::SmallRng);

#[verifier::external_type_specification]
#[verifier::external_body]
pub struct ExBernoulli(rand::distributions::Bernoulli);

/// Relies on `rand::Rng::gen::<bool>`: one draw from the generator's stream,
/// advancing its state; the draw never panics.
#[verifier::external_body]
pub(crate) fn coin_flip(rng: &mut rand::rngs::SmallRng) -> bool
    no_unwind
{
    rng.gen()
}

/// Relies on `Distribution::<bool>::sample` for
/// `rand::distributions::Bernoulli`: one draw that is true with the
/// distribution's probability, advancing the generator; the draw never
/// panics.
#[verifier::external_body]
pub(crate) fn bernoulli_draw(
    distr: &rand::distributions::Bernoulli,
    rng: &mut rand::rngs::SmallRng,
) -> bool
    no_unwind
{
    distr.sample(rng)
}

} // verus!
