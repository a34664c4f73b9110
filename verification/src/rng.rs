//! Trusted boundary around the `rand` crate.
//!
//! Every random draw the simulation makes goes through one of the wrappers
//! below. Their contracts state only what holds of every outcome; the
//! verified callers take it from there.
use vstd::prelude::*;
use rand::Rng;
use rand::RngCore;
use rand::SeedableRng;
use rand::seq::SliceRandom;

verus! {

#[verifier::external_type_specification]
#[verifier::external_body]
pub struct ExSmallRng(rand::rngs::SmallRng);

/// Relies on rand's `SeedableRng::seed_from_u64`: builds a generator from a
/// seed; equal seeds give equal streams.
#[verifier::external_body]
pub fn seed_rng(seed: u64) -> rand::rngs::SmallRng {
    rand::rngs::SmallRng::seed_from_u64(seed)
}

/// A generator seeded from a number; equal seeds give equal streams, so
/// chains and whole sessions are reproducible.
pub fn entropy_from_seed(seed: u64) -> rand::rngs::SmallRng {
    seed_rng(seed)
}

/// Relies on rand's `Clone` for `SmallRng`: a generator in the same state,
/// handed to the event a hit emits.
#[verifier::external_body]
pub fn clone_rng(rng: &rand::rngs::SmallRng) -> rand::rngs::SmallRng {
    rng.clone()
}

/// Relies on rand's `RngCore::next_u64`: some 64-bit value, used here to
/// seed a forked generator.
#[verifier::external_body]
pub fn next_seed(rng: &mut rand::rngs::SmallRng) -> u64 {
    rng.next_u64()
}

/// Relies on rand's `Rng::random_range` over `lo..=hi`: a value of the
/// inclusive range, which is nonempty since `lo <= hi`.
#[verifier::external_body]
pub fn draw_inclusive(rng: &mut rand::rngs::SmallRng, lo: u64, hi: u64) -> (r: u64)
    requires
        lo <= hi,
    ensures
        lo <= r <= hi,
{
    rng.random_range(lo..=hi)
}

/// Relies on rand's `SliceRandom::shuffle`: permutes the slice in place, so
/// the entries afterwards are the same multiset as before.
#[verifier::external_body]
pub fn shuffle_indices(xs: &mut Vec<usize>, rng: &mut rand::rngs::SmallRng)
    ensures
        final(xs)@.to_multiset() == old(xs)@.to_multiset(),
        final(xs)@.len() == old(xs)@.len(),
{
    xs.as_mut_slice().shuffle(rng);
}

} // verus!
