//! The random source threaded through every operation that needs chance.
use vstd::prelude::*;

verus! {

/// The seedable generator that every random operation of the library reads.
pub type Random = rand_chacha::ChaCha8Rng;

#[verifier::external_type_specification]
#[verifier::external_body]
pub struct ExChaCha8Rng(rand_chacha::ChaCha8Rng);

/// Relies on `rand::Rng::gen_ratio`: `true` with probability
/// `numerator / denominator`; a ratio of zero never yields `true` and a ratio
/// of one always does (without consuming randomness).
#[verifier::external_body]
pub(crate) fn gen_ratio(rng: &mut Random, numerator: u32, denominator: u32) -> (r: bool)
    requires
        0 < denominator,
        numerator <= denominator,
    ensures
        numerator == 0 ==> !r,
        numerator == denominator ==> r,
{
    rand::Rng::gen_ratio(rng, numerator, denominator)
}

/// Relies on `rand::RngCore::next_u32`: the next 32 random bits.
#[verifier::external_body]
pub(crate) fn next_u32(rng: &mut Random) -> (r: u32) {
    rand::RngCore::next_u32(rng)
}

} // verus!
