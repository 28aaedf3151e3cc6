use rand::rngs::StdRng;
use rand::Rng;
use vstd::prelude::*;

verus! {

/// The seedable generator that every random choice of the simulation draws from.
#[verifier::external_type_specification]
#[verifier::external_body]
pub struct ExStdRng(StdRng);

/// Relies on rand::Rng::gen_range: a value of the half-open range `low..high`
/// (it panics on an empty range, which `requires` rules out).
#[verifier::external_body]
pub(crate) fn gen_range_u32(rng: &mut StdRng, low: u32, high: u32) -> (r: u32)
    requires
        low < high,
    ensures
        low <= r < high,
{
    rng.gen_range(low..high)
}

/// Relies on rand::Rng::gen for `bool`: a fair coin, of which nothing can be promised.
#[verifier::external_body]
pub(crate) fn gen_bool(rng: &mut StdRng) -> (r: bool) {
    rng.gen::<bool>()
}

} // verus!
