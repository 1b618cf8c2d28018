//! The seeded pseudo-random generator that the builders draw from.
//!
//! Of a draw only its range is stated: which value of the range comes is left
//! to the generator.
use rand::rngs::StdRng;
use rand::Rng;
use rand::SeedableRng;
use vstd::prelude::*;

verus! {

/// The standard generator of the `rand` crate. Nothing inside it is visible
/// here.
#[verifier::external_type_specification]
#[verifier::external_body]
pub struct ExStdRng(StdRng);

/// `SeedableRng::seed_from_u64`: a fresh generator made from `seed`.
#[verifier::external_body]
pub(crate) fn seeded(seed: u64) -> StdRng {
    StdRng::seed_from_u64(seed)
}

/// `Rng::gen_range` on the half-open range from `low` to `high` of sizes: some
/// value of the range. The call panics on an empty range, which `requires`
/// leaves out.
#[verifier::external_body]
pub(crate) fn draw_between(rng: &mut StdRng, low: usize, high: usize) -> (drawn: usize)
    requires
        low < high,
    ensures
        low <= drawn < high,
{
    rng.gen_range(low..high)
}

/// `Rng::gen_range` on the half-open range from 0 to `options` of `i32`: some
/// value of the range. The call panics on an empty range, which `requires`
/// leaves out.
#[verifier::external_body]
pub(crate) fn draw_choice(rng: &mut StdRng, options: i32) -> (drawn: i32)
    requires
        0 < options,
    ensures
        0 <= drawn < options,
{
    rng.gen_range(0..options)
}

/// `Rng::gen` for `bool`: either value.
#[verifier::external_body]
pub(crate) fn draw_bool(rng: &mut StdRng) -> (drawn: bool) {
    rng.gen::<bool>()
}

/// `Rng::gen` for `usize`: any value.
#[verifier::external_body]
pub(crate) fn draw_word(rng: &mut StdRng) -> (drawn: usize) {
    rng.gen::<usize>()
}

} // verus!
