//! The random number generators behind the toxics' randomness: `rand`'s `StdRng`.
use vstd::prelude::*;

use rand::distributions::Uniform;
use rand::rngs::{OsRng, StdRng};
use rand::{Rng, SeedableRng};

verus! {

#[verifier::external_type_specification]
#[verifier::external_body]
pub struct ExStdRng(rand::rngs::StdRng);

/// `SeedableRng::seed_from_u64`: a generator seeded with `seed`. What its draws
/// give is stated by the drawing wrappers, over the seed recorded with it.
#[verifier::external_body]
pub(crate) fn rng_from_seed(seed: u64) -> (r: StdRng) {
    StdRng::seed_from_u64(seed)
}

/// The error of the operating system's source of randomness
#[verifier::external_type_specification]
#[verifier::external_body]
pub struct ExRandError(rand::Error);

/// `SeedableRng::from_rng(OsRng)`: a generator seeded with bytes from the
/// operating system, or the error that the operating system's source of
/// randomness reported. It does not panic. Nothing is stated of the numbers the
/// generator produces, nor of when the operating system fails.
#[verifier::external_body]
pub(crate) fn rng_from_os() -> (r: Result<StdRng, rand::Error>) {
    StdRng::from_rng(OsRng)
}

/// The operating system gave no randomness to seed a generator with
#[derive(Debug, Clone, Copy, PartialEq, Eq, Structural)]
pub struct EntropyError;

/// The number that `Rng::sample` of `Uniform::from(low..high)` gives on a
/// `StdRng` made by `seed_from_u64(seed)`, when `draws` lists the ranges
/// `(low, high)` of all the draws of that kind the generator has made, this one
/// last. rand's `StdRng` of the version used here is ChaCha12, whose output,
/// like that of `Uniform` on `u64`, depends on the seed and the draws alone.
pub uninterp spec fn seeded_uniform_sample(seed: u64, draws: Seq<(u64, u64)>) -> u64;

/// The number that `Rng::gen_range(low..=high)` on `u64` gives on a `StdRng`
/// made by `seed_from_u64(seed)`, when `draws` lists the ranges `(low, high)`
/// of all the draws of that kind the generator has made, this one last.
pub uninterp spec fn seeded_range_inclusive(seed: u64, draws: Seq<(u64, u64)>) -> u64;

/// A generator of random numbers for the toxics: rand's `StdRng`, with the
/// seed it was made from, when it was made from one, and the ranges of the
/// draws it has made so far, of each kind
pub struct ToxicRng {
    rng: StdRng,
    seed: Ghost<Option<u64>>,
    uniform_draws: Ghost<Seq<(u64, u64)>>,
    inclusive_draws: Ghost<Seq<(u64, u64)>>,
}

impl ToxicRng {
    /// The seed the generator was made from; `None` when it was seeded by the
    /// operating system
    pub closed spec fn seed(&self) -> Option<u64> {
        self.seed@
    }

    /// The ranges of the `Uniform` draws made so far, in order
    pub closed spec fn uniform_draws(&self) -> Seq<(u64, u64)> {
        self.uniform_draws@
    }

    /// The ranges of the inclusive `gen_range` draws made so far, in order
    pub closed spec fn inclusive_draws(&self) -> Seq<(u64, u64)> {
        self.inclusive_draws@
    }
}

/// A generator seeded from `seed` when there is one; from the operating system
/// otherwise, which fails only when the operating system gives no randomness
pub(crate) fn rng_for_seed(seed: Option<u64>) -> (r: Result<ToxicRng, EntropyError>)
    ensures
        r is Err ==> seed is None,
        match r {
            Ok(g) => {
                &&& g.seed() == seed
                &&& g.uniform_draws().len() == 0
                &&& g.inclusive_draws().len() == 0
            },
            Err(_) => true,
        },
{
    match seed {
        Some(s) => Ok(
            ToxicRng {
                rng: rng_from_seed(s),
                seed: Ghost(Some(s)),
                uniform_draws: Ghost(Seq::empty()),
                inclusive_draws: Ghost(Seq::empty()),
            },
        ),
        None => match rng_from_os() {
            Ok(rng) => Ok(
                ToxicRng {
                    rng,
                    seed: Ghost(None),
                    uniform_draws: Ghost(Seq::empty()),
                    inclusive_draws: Ghost(Seq::empty()),
                },
            ),
            Err(_) => Err(EntropyError),
        },
    }
}

/// `Rng::gen_range(low..=high)` on `u64`: a number of the closed range. The
/// outside function panics on an empty range, which `requires` leaves out. On
/// a seeded generator that has made only draws of this kind, the number is
/// `seeded_range_inclusive` of the seed and the ranges drawn so far; otherwise
/// which number of the range comes out is left unsaid. The draw is recorded.
#[verifier::external_body]
pub(crate) fn rng_gen_range_inclusive(rng: &mut ToxicRng, low: u64, high: u64) -> (r: u64)
    requires
        low <= high,
    ensures
        low <= r <= high,
        final(rng).seed() == old(rng).seed(),
        final(rng).inclusive_draws() == old(rng).inclusive_draws().push((low, high)),
        final(rng).uniform_draws() == old(rng).uniform_draws(),
        old(rng).uniform_draws().len() == 0 ==> (old(rng).seed() matches Some(s) ==> r
            == seeded_range_inclusive(s, old(rng).inclusive_draws().push((low, high)))),
{
    rng.rng.gen_range(low..=high)
}

/// `Rng::sample` of `Uniform::from(low..high)`: a number of the half-open range.
/// `Uniform::new` panics on an empty range, which `requires` leaves out. On a
/// seeded generator that has made only draws of this kind, the number is
/// `seeded_uniform_sample` of the seed and the ranges drawn so far; otherwise
/// which number of the range comes out is left unsaid. The draw is recorded.
#[verifier::external_body]
pub(crate) fn rng_sample_uniform(rng: &mut ToxicRng, low: u64, high: u64) -> (r: u64)
    requires
        low < high,
    ensures
        low <= r < high,
        final(rng).seed() == old(rng).seed(),
        final(rng).uniform_draws() == old(rng).uniform_draws().push((low, high)),
        final(rng).inclusive_draws() == old(rng).inclusive_draws(),
        old(rng).inclusive_draws().len() == 0 ==> (old(rng).seed() matches Some(s) ==> r
            == seeded_uniform_sample(s, old(rng).uniform_draws().push((low, high)))),
{
    rng.rng.sample(Uniform::from(low..high))
}

} // verus!
