//! The random source that seeds a new grid.
use rand::Rng;
use vstd::prelude::*;

verus! {

/// rand::rngs::ThreadRng, the thread's generator, carried as an opaque value.
#[verifier::external_type_specification]
#[verifier::external_body]
pub struct ExThreadRng(rand::rngs::ThreadRng);

/// Relies on rand::thread_rng: hands out the thread's generator. Nothing is
/// promised of its state.
pub assume_specification[ rand::thread_rng ]() -> rand::rngs::ThreadRng;

/// Relies on rand::Rng::gen_ratio: true with probability
/// `numerator / denominator`; certainly false for a zero numerator and
/// certainly true for a numerator equal to the denominator. It panics on a
/// zero denominator or a numerator above the denominator.
#[verifier::external_body]
pub(crate) fn gen_ratio(rng: &mut rand::rngs::ThreadRng, numerator: u32, denominator: u32) -> (r: bool)
    requires
        0 < denominator,
        numerator <= denominator,
    ensures
        numerator == 0 ==> !r,
        numerator == denominator ==> r,
{
    rng.gen_ratio(numerator, denominator)
}

} // verus!
