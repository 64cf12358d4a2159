//! The random choices of the sample games, drawn from the `rand` crate's
//! thread-local generator.

use rand::Rng;
use vstd::prelude::*;

verus! {

/// `rand::rngs::ThreadRng`, the handle to the generator of the current thread.
/// Nothing is known of what it holds.
#[verifier::external_type_specification]
#[verifier::external_body]
pub struct ExThreadRng(rand::rngs::ThreadRng);

/// `rand::thread_rng` returns the handle to the current thread's generator.
/// Nothing is claimed of it.
pub assume_specification[ rand::thread_rng ]() -> (rng: rand::rngs::ThreadRng)
;

/// `rand::Rng::gen_range` for `u32` with the lower bound 0: a number from 0
/// up to, but not including, `bound`. The call panics where the range is
/// empty, so `bound` must be positive. Which number comes out is left open.
#[verifier::external_body]
pub(crate) fn random_below(rng: &mut rand::rngs::ThreadRng, bound: u32) -> (r: u32)
    requires
        bound > 0,
    ensures
        r < bound,
{
    rng.gen_range(0u32, bound)
}

/// `rand::Rng::gen` for `bool`: either truth value. Which one is left open.
#[verifier::external_body]
pub(crate) fn random_bool(rng: &mut rand::rngs::ThreadRng) -> (b: bool)
{
    rng.gen::<bool>()
}

} // verus!
