use rand::Rng;
use rand_core::{OsRng, SeedableRng};
use rand_isaac::Isaac64Rng;
use vstd::prelude::*;

verus! {

/// Declares the ISAAC-64 generator of `rand_isaac`; its state stays opaque.
#[verifier::external_type_specification]
#[verifier::external_body]
pub struct ExIsaac64Rng(Isaac64Rng);

/// Calls `rand_core::SeedableRng::from_rng` for `Isaac64Rng` with the
/// operating system's generator `rand_core::OsRng`: a generator seeded from the
/// system, or `None` when the system gives no entropy. Nothing is claimed of
/// the seed, nor of when the system fails.
#[verifier::external_body]
pub(crate) fn seeded_rng() -> Option<Isaac64Rng> {
    Isaac64Rng::from_rng(OsRng).ok()
}

/// Calls `rand::Rng::gen_range` with the range `low..=high`. Claimed: the
/// result lies in that range (the range is not empty, else the call panics).
/// Which value comes, and how the state moves on, is left unsaid.
#[verifier::external_body]
fn random_between(rng: &mut Isaac64Rng, low: u32, high: u32) -> (r: u32)
    requires
        low <= high,
    ensures
        low <= r <= high,
{
    rng.gen_range(low..=high)
}

/// A number drawn at random, with the inclusive range it was drawn from.
/// Only `draw` makes one (the private field keeps other modules from
/// writing one down), so a recorded draw is always the value the generator
/// gave for that range.
pub struct Draw {
    pub value: u32,
    pub low: u32,
    pub high: u32,
    sealed: (),
}

impl Draw {
    /// The number drawn.
    pub closed spec fn drawn_value(&self) -> u32 {
        self.value
    }

    /// The lowest number the draw could give.
    pub closed spec fn range_low(&self) -> u32 {
        self.low
    }

    /// The highest number the draw could give.
    pub closed spec fn range_high(&self) -> u32 {
        self.high
    }

    /// The number drawn.
    pub fn value(&self) -> (v: u32)
        ensures
            v == self.drawn_value(),
    {
        self.value
    }
}

/// Draws a number in `low..=high`, and records that range with it.
pub(crate) fn draw(rng: &mut Isaac64Rng, low: u32, high: u32) -> (d: Draw)
    requires
        low <= high,
    ensures
        d.range_low() == low,
        d.range_high() == high,
        low <= d.drawn_value() <= high,
{
    let value = random_between(rng, low, high);
    Draw { value, low, high, sealed: () }
}

} // verus!
