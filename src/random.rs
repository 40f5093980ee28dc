//! The random source of obstacle generation, from bracket-lib.
use vstd::prelude::*;
use bracket_lib::prelude::RandomNumberGenerator;

verus! {

/// The random number generator of bracket-lib, carried through opaquely.
#[verifier::external_type_specification]
#[verifier::external_body]
pub struct ExRandomNumberGenerator(RandomNumberGenerator);

/// Relies on `RandomNumberGenerator::range` of bracket-lib: a value drawn from
/// `lo` inclusive to `hi` exclusive (it panics on an empty range, hence the
/// `requires`).
#[verifier::external_body]
pub(crate) fn draw_in(rng: &mut RandomNumberGenerator, lo: i32, hi: i32) -> (r: i32)
    requires
        lo < hi,
    ensures
        lo <= r < hi,
{
    rng.range(lo, hi)
}

} // verus!
