//! The engine's only sources of nondeterminism: a seeded random number
//! generator and fresh program identifiers.  Each outside call sits behind a
//! single trusted wrapper; everything that consumes a sampled value is
//! verified for every value the wrapper may hand back.

use vstd::prelude::*;

verus! {

#[verifier::external_type_specification]
#[verifier::external_body]
pub struct ExStdRng(rand::rngs::StdRng);

/// Relies on rand's `SeedableRng::seed_from_u64`: derives a generator from a
/// 64-bit seed.  Nothing is stated of the generator's state.
#[verifier::external_body]
pub fn rng_from_seed(seed: u64) -> rand::rngs::StdRng {
    <rand::rngs::StdRng as rand::SeedableRng>::seed_from_u64(seed)
}

/// Relies on rand's `Rng::gen_range`: a sample from `0..n` lies below `n`.
/// The call panics on an empty range, so `n` must be positive.
#[verifier::external_body]
pub fn rand_below(rng: &mut rand::rngs::StdRng, n: usize) -> (r: usize)
    requires
        n >= 1,
    ensures
        r < n,
{
    rand::Rng::gen_range(rng, 0..n)
}

/// Relies on uuid's `Uuid::new_v4` and `Uuid::as_u128`: a fresh random 128-bit
/// identifier.  Nothing is stated of its value.
#[verifier::external_body]
pub fn fresh_id() -> u128 {
    uuid::Uuid::new_v4().as_u128()
}

} // verus!
