use vstd::prelude::*;
use rand::rngs::{OsRng, StdRng};
use rand::Rng;
use rand::SeedableRng;

verus! {

/// rand's `StdRng`, carried as an opaque value inside `RandomSource`.
#[verifier::external_type_specification]
#[verifier::external_body]
pub struct ExStdRng(StdRng);

/// The source of randomness that every generation step draws from. Seeding it makes a
/// generation run reproducible.
pub struct RandomSource {
    rng: StdRng,
}

/// Relies on rand's `SeedableRng::seed_from_u64` for `StdRng`: a generator whose stream is a
/// function of the seed.
#[verifier::external_body]
fn seeded_rng(seed: u64) -> StdRng {
    StdRng::seed_from_u64(seed)
}

/// Relies on rand's `SeedableRng::from_rng` for `StdRng`, fed by `OsRng`: a generator seeded by
/// the operating system, or `None` when the system supplies no entropy.
#[verifier::external_body]
fn entropy_rng() -> Option<StdRng> {
    StdRng::from_rng(OsRng).ok()
}

impl RandomSource {
    /// A reproducible source: two sources made from one seed yield the same draws.
    pub fn from_seed(seed: u64) -> RandomSource {
        RandomSource { rng: seeded_rng(seed) }
    }

    /// A source seeded by the operating system, or `None` when it supplies no entropy.
    pub fn from_entropy() -> Option<RandomSource> {
        match entropy_rng() {
            Some(rng) => Some(RandomSource { rng }),
            None => None,
        }
    }

    /// Relies on rand's `Rng::gen_range` over `0..bound`: a value below `bound` (it panics on
    /// an empty range, which `requires` excludes).
    #[verifier::external_body]
    pub(crate) fn below(&mut self, bound: u32) -> (r: u32)
        requires
            0 < bound,
        ensures
            r < bound,
    {
        self.rng.gen_range(0..bound)
    }

    /// Relies on rand's `Rng::gen_ratio`: `true` with probability `numerator / denominator`,
    /// never for a numerator of 0, always when numerator and denominator are equal (it panics
    /// when the numerator exceeds the denominator or the denominator is 0, which `requires`
    /// excludes).
    #[verifier::external_body]
    pub(crate) fn ratio(&mut self, numerator: u32, denominator: u32) -> (r: bool)
        requires
            0 < denominator,
            numerator <= denominator,
        ensures
            numerator == 0 ==> !r,
            numerator == denominator ==> r,
    {
        self.rng.gen_ratio(numerator, denominator)
    }
}

} // verus!
