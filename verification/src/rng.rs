//! The random number source used by the wave director's spawner. The
//! generator is outside code; nothing is assumed of the values it yields
//! beyond the requested range.

use vstd::prelude::*;
use bracket_random::prelude::RandomNumberGenerator;

verus! {

#[verifier::external_type_specification]
#[verifier::external_body]
pub struct ExRandomNumberGenerator(RandomNumberGenerator);

/// Relies on bracket_random's `RandomNumberGenerator::new`: a generator
/// seeded from entropy. Nothing is promised of the values it will yield.
#[verifier::external_body]
pub(crate) fn rng_new() -> RandomNumberGenerator {
    RandomNumberGenerator::new()
}

/// Relies on bracket_random's `RandomNumberGenerator::range`: a value at
/// least `min` and strictly below `max`. Which value comes back depends on
/// the generator's state, so no two calls need agree. The underlying
/// sampler panics on an empty range, which `requires` rules out.
#[verifier::external_body]
pub(crate) fn rng_range(rng: &mut RandomNumberGenerator, min: usize, max: usize) -> (r: usize)
    requires
        min < max,
    ensures
        min <= r < max,
{
    rng.range(min, max)
}

} // verus!
