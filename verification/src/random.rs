//! The random source that sampling draws from.

use vstd::prelude::*;
use rand::rngs::StdRng;
use rand::Rng;

verus! {

/// `rand::rngs::StdRng`, the generator that draws are made from. Nothing is known of what
/// it holds.
#[verifier::external_type_specification]
#[verifier::external_body]
pub struct ExStdRng(StdRng);

/// Draws a whole number below `bound` by `Rng::gen_range(0, bound)` of `rand`.
///
/// Not proved: that the number drawn is less than `bound`. `gen_range` documents that it
/// returns a value of the half-open range from its lower to its upper limit, and that it
/// panics when that range is empty, which `requires` excludes.
#[verifier::external_body]
pub(crate) fn draw_below(rng: &mut StdRng, bound: usize) -> (drawn: usize)
    requires
        bound > 0,
    ensures
        drawn < bound,
{
    rng.gen_range(0, bound)
}

} // verus!
