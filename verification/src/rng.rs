//! The seedable pseudo-random byte source behind the `Rand` instruction.
//!
//! Nothing can be promised of a random value, so none of these trusted items
//! carries an `ensures`: every caller must state what holds of its own state
//! whatever byte comes back.

use vstd::prelude::*;

verus! {

#[verifier::external_type_specification]
#[verifier::external_body]
pub struct ExSmallRng(rand::rngs::SmallRng);

#[verifier::external_type_specification]
#[verifier::external_body]
pub struct ExThreadRng(rand::rngs::ThreadRng);

/// Relies on rand::rng: a handle to the thread-local entropy source.
#[verifier::external_body]
pub(crate) fn entropy_handle() -> rand::rngs::ThreadRng {
    rand::rng()
}

/// Relies on rand::SeedableRng::from_rng: a small generator seeded from a
/// parent generator.
#[verifier::external_body]
pub(crate) fn small_rng_from(parent: &mut rand::rngs::ThreadRng) -> rand::rngs::SmallRng {
    <rand::rngs::SmallRng as rand::SeedableRng>::from_rng(parent)
}

/// Relies on rand::SeedableRng::seed_from_u64: a small generator in the fixed
/// state derived from the seed, for reproducible sequences.
#[verifier::external_body]
pub(crate) fn small_rng_seeded(seed: u64) -> rand::rngs::SmallRng {
    <rand::rngs::SmallRng as rand::SeedableRng>::seed_from_u64(seed)
}

/// Relies on rand::Rng::random_range over 0..=255: one uniformly distributed
/// byte, advancing the generator. The range is never empty, so the call never
/// panics.
#[verifier::external_body]
pub(crate) fn next_byte(rng: &mut rand::rngs::SmallRng) -> u8
    no_unwind
{
    rand::Rng::random_range(rng, 0x0..=0xFFu8)
}

} // verus!
