//! The random number generator, which is the `rand` crate's.

use rand::rngs::{SmallRng, ThreadRng};
use rand::{Rng, RngCore, SeedableRng};
use vstd::prelude::*;

verus! {

/// `rand::rngs::SmallRng`, the generator: a value that is carried to the
/// calls that draw from it and never looked into.
#[verifier::external_type_specification]
#[verifier::external_body]
pub struct ExSmallRng(rand::rngs::SmallRng);

/// `rand::rngs::ThreadRng`, the generator of the thread: a value that is
/// carried to the call that draws a seed from it and never looked into.
#[verifier::external_type_specification]
#[verifier::external_body]
pub struct ExThreadRng(rand::rngs::ThreadRng);

/// `rand::rng`: a handle to the generator of the thread. Nothing is claimed
/// of it.
#[verifier::external_body]
pub(crate) fn thread_generator() -> (source: ThreadRng) {
    rand::rng()
}

/// `RngCore::next_u64` on the generator of the thread: a seed. Nothing is
/// claimed of the seed.
#[verifier::external_body]
pub(crate) fn fresh_seed(source: &mut ThreadRng) -> (seed: u64) {
    source.next_u64()
}

/// `SmallRng::seed_from_u64`: a generator made from a seed. Nothing is
/// claimed of the generator.
#[verifier::external_body]
pub(crate) fn generator(seed: u64) -> (rng: SmallRng) {
    SmallRng::seed_from_u64(seed)
}

/// `Rng::random_range` on the half-open range `min..max`, which panics on an
/// empty range: trusted to draw a number of the range.
#[verifier::external_body]
pub(crate) fn random_between(rng: &mut SmallRng, min: i64, max: i64) -> (drawn: i64)
    requires
        min < max,
    ensures
        min <= drawn < max,
{
    rng.random_range(min..max)
}

} // verus!
