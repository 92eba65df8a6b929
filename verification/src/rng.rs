//! The injectable random number generator the dungeon generator and the
//! spawners draw from. The generator itself comes from an outside crate and
//! its state is opaque here: every caller's contract holds for every value a
//! draw can return, and reproducibility under a fixed seed is the outside
//! generator's own documented behaviour.

use vstd::prelude::*;

use bracket_lib::random::RandomNumberGenerator;

verus! {

#[verifier::external_type_specification]
#[verifier::external_body]
pub struct ExRandomNumberGenerator(RandomNumberGenerator);

/// Relies on bracket_lib's RandomNumberGenerator::range: a draw from
/// `min..max`, inclusive of `min` and exclusive of `max`; the call panics on
/// an empty range, so one is required nonempty here.
#[verifier::external_body]
pub(crate) fn rng_range(rng: &mut RandomNumberGenerator, min: i32, max: i32) -> (r: i32)
    requires
        min < max,
    ensures
        min <= r < max,
{
    rng.range(min, max)
}

} // verus!
