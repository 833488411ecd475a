//! Random numbers for the stress workload.
//!
//! `SmallRng` picks its algorithm by platform, so nothing is said here of which numbers a seed
//! leads to: only what holds of all of them.
use rand::rngs::SmallRng;
use rand::{Rng, SeedableRng};
use vstd::prelude::*;

verus! {

/// The small, fast generator of the `rand` crate.
#[verifier::external_type_specification]
#[verifier::external_body]
pub struct ExSmallRng(SmallRng);

/// A question to a generator, with the answer.
pub enum Draw {
    /// A number from `low` up to `high`, without `high`.
    Number { low: u64, high: u64, number: u64 },
    /// Whether something happened whose chance is `numerator` in `denominator`.
    Chance { numerator: u32, denominator: u32, yes: bool },
}

/// A random number generator, with the seed that it was made from and the record of what it was
/// asked and what it answered, in order.
pub struct Generator {
    rng: SmallRng,
    seed: Ghost<u64>,
    draws: Ghost<Seq<Draw>>,
}

impl Generator {
    /// The seed that the generator was made from. It stays the same however many numbers have been
    /// drawn.
    pub closed spec fn seed(&self) -> u64 {
        self.seed@
    }

    /// What the generator was asked and what it answered.
    pub closed spec fn draws(&self) -> Seq<Draw> {
        self.draws@
    }

    /// `SeedableRng::seed_from_u64` makes a generator from a seed. Nothing has been drawn from it.
    #[verifier::external_body]
    pub(crate) fn seeded(seed: u64) -> (generator: Generator)
        ensures
            generator.seed() == seed,
            generator.draws() == Seq::<Draw>::empty(),
    {
        Generator {
            rng: SmallRng::seed_from_u64(seed),
            seed: Ghost(seed),
            draws: Ghost(Seq::empty()),
        }
    }

    /// `Rng::gen_range` returns a number from a range without its upper end. It panics on an empty
    /// range. The range and the number go on record.
    #[verifier::external_body]
    pub(crate) fn between(&mut self, low: u64, high: u64) -> (number: u64)
        requires
            low < high,
        ensures
            low <= number < high,
            final(self).seed() == old(self).seed(),
            final(self).draws() == old(self).draws().push(Draw::Number { low, high, number }),
    {
        self.rng.gen_range(low..high)
    }

    /// `Rng::gen_ratio` returns `true` with a chance of `numerator` in `denominator`. It panics if
    /// the chance is not one. The chance and the answer go on record.
    #[verifier::external_body]
    pub(crate) fn chance(&mut self, numerator: u32, denominator: u32) -> (yes: bool)
        requires
            0 < denominator,
            numerator <= denominator,
        ensures
            numerator == 0 ==> !yes,
            numerator == denominator ==> yes,
            final(self).seed() == old(self).seed(),
            final(self).draws() == old(self).draws().push(
                Draw::Chance { numerator, denominator, yes },
            ),
    {
        self.rng.gen_ratio(numerator, denominator)
    }
}

} // verus!
