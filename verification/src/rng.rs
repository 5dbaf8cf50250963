use rand::rngs::StdRng;
use rand::Rng;
use vstd::prelude::*;

verus! {

#[verifier::external_type_specification]
#[verifier::external_body]
pub struct ExStdRng(StdRng);

/// Calls `Rng::gen_range` on an `i32` range. rand documents that the value lies in
/// `low..high` and that the call panics on an empty range; which value comes back is left
/// to chance, so nothing more is stated.
#[verifier::external_body]
pub(crate) fn gen_range_i32(rng: &mut StdRng, low: i32, high: i32) -> (r: i32)
    requires
        low < high,
    ensures
        low <= r < high,
{
    rng.gen_range(low..high)
}

/// Calls `Rng::gen_range` on a `usize` range: a value of `low..high`, left to chance.
#[verifier::external_body]
pub(crate) fn gen_range_usize(rng: &mut StdRng, low: usize, high: usize) -> (r: usize)
    requires
        low < high,
    ensures
        low <= r < high,
{
    rng.gen_range(low..high)
}

/// Calls `Rng::gen_range` on a `u8` range: a value of `low..high`, left to chance.
#[verifier::external_body]
pub(crate) fn gen_range_u8(rng: &mut StdRng, low: u8, high: u8) -> (r: u8)
    requires
        low < high,
    ensures
        low <= r < high,
{
    rng.gen_range(low..high)
}

/// Calls `Rng::gen_range` on an `i16` range: a value of `low..high`, left to chance.
#[verifier::external_body]
pub(crate) fn gen_range_i16(rng: &mut StdRng, low: i16, high: i16) -> (r: i16)
    requires
        low < high,
    ensures
        low <= r < high,
{
    rng.gen_range(low..high)
}

/// Calls `Rng::gen_ratio`. rand documents a panic when `denominator == 0` or
/// `numerator > denominator`, a certain `true` when both are equal and a certain `false`
/// when `numerator == 0`; otherwise the outcome is left to chance.
#[verifier::external_body]
pub(crate) fn gen_ratio(rng: &mut StdRng, numerator: u32, denominator: u32) -> (r: bool)
    requires
        0 < denominator,
        numerator <= denominator,
    ensures
        numerator == 0 ==> !r,
        numerator == denominator ==> r,
{
    rng.gen_ratio(numerator, denominator)
}

/// The game's source of randomness, shared by its systems.
pub struct RogueRng(pub StdRng);

impl std::ops::Deref for RogueRng {
    type Target = StdRng;

    fn deref(&self) -> (r: &StdRng)
        ensures
            *r == self.0,
    {
        &self.0
    }
}

} // verus!
