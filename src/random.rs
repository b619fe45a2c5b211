//! The random numbers the algorithms draw, taken from the rand crate.
use vstd::prelude::*;

verus! {

/// The generator a simulator draws from.
#[verifier::external_type_specification]
#[verifier::external_body]
pub struct ExStdRng(rand::rngs::StdRng);

/// Relies on rand's `FromEntropy::from_entropy` for `StdRng`: a generator
/// seeded from the operating system.
#[verifier::external_body]
pub(crate) fn entropy_rng() -> rand::rngs::StdRng {
    <rand::rngs::StdRng as rand::FromEntropy>::from_entropy()
}

/// Relies on rand's `Rng::gen_range` on `usize`: a value in `[0, n)` for `n > 0`.
#[verifier::external_body]
pub(crate) fn draw_below(rng: &mut rand::rngs::StdRng, n: usize) -> (r: usize)
    requires
        n > 0,
    ensures
        r < n,
{
    rand::Rng::gen_range(rng, 0, n)
}

/// Relies on rand's `Rng::gen_range` on `i128`: a value in `[low, high)` for
/// `low < high`.
#[verifier::external_body]
pub(crate) fn draw_between(rng: &mut rand::rngs::StdRng, low: i128, high: i128) -> (r: i128)
    requires
        low < high,
    ensures
        low <= r < high,
{
    rand::Rng::gen_range(rng, low, high)
}

} // verus!
