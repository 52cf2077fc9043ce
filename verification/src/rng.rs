//! The seeded random stream that every spawn draws from.

use vstd::prelude::*;
use rand::Rng;
use rand::SeedableRng;

verus! {

/// `rand::rngs::StdRng`, carried through as an opaque value.
#[verifier::external_type_specification]
#[verifier::external_body]
pub struct ExStdRng(rand::rngs::StdRng);

/// Calls `rand::SeedableRng::seed_from_u64` for `rand::rngs::StdRng`.
/// Nothing is claimed of the generator it returns.
#[verifier::external_body]
fn seeded_generator(seed: u64) -> (generator: rand::rngs::StdRng) {
    rand::rngs::StdRng::seed_from_u64(seed)
}

/// Calls `rand::Rng::gen_range` on the half-open range from `low` to
/// `high`. The range must not be empty, since the call panics on an empty
/// one; the value drawn lies in the range.
#[verifier::external_body]
fn draw_from(generator: &mut rand::rngs::StdRng, low: i64, high: i64) -> (value: i64)
    requires
        low < high,
    ensures
        low <= value < high,
{
    generator.gen_range(low..high)
}

/// An explicit, seeded source of random integers: the generator is made
/// from a seed and from nothing else, and is never reseeded.
pub struct RandomStream {
    generator: rand::rngs::StdRng,
}

impl RandomStream {
    /// A stream determined by `seed`.
    pub fn from_seed(seed: u64) -> (stream: RandomStream) {
        RandomStream { generator: seeded_generator(seed) }
    }

    /// Draws an integer from the half-open range from `low` to `high`.
    pub(crate) fn range(&mut self, low: i64, high: i64) -> (value: i64)
        requires
            low < high,
        ensures
            low <= value < high,
    {
        draw_from(&mut self.generator, low, high)
    }

    /// Draws an integer of magnitude below `bound`: from `-bound` up to, but
    /// not including, `bound`.
    pub(crate) fn symmetric(&mut self, bound: i64) -> (value: i64)
        requires
            0 < bound,
        ensures
            -bound <= value < bound,
    {
        self.range(-bound, bound)
    }
}

} // verus!
