use vstd::prelude::*;

use crate::rng::{rng_for_seed, rng_sample_uniform, seeded_uniform_sample, EntropyError, ToxicRng};

verus! {

/// The delay for the draw `k`: `latency + k - jitter`, and zero where that
/// would fall below zero
pub open spec fn jittered_delay(latency: int, k: int, jitter: int) -> int {
    if latency + k >= jitter {
        latency + k - jitter
    } else {
        0
    }
}

/// The delay for a draw `k` is the latency moved by the distance of the draw
/// from the jitter, one millisecond per unit, and never below zero: the draw
/// equal to the jitter gives the latency itself, draws above it add to it, and
/// draws below it take from it.
pub proof fn law_jittered_delay(latency: int, k: int, jitter: int)
    requires
        0 <= latency,
        0 <= k,
        0 <= jitter,
    ensures
        jittered_delay(latency, k, jitter) >= 0,
        latency + k >= jitter ==> jittered_delay(latency, k, jitter) == latency + k - jitter,
        latency + k < jitter ==> jittered_delay(latency, k, jitter) == 0,
        jittered_delay(latency, jitter, jitter) == latency,
{
}

/// A larger draw never gives a shorter delay; and when the jitter is at most the
/// latency, two draws give delays exactly as far apart as the draws are.
pub proof fn law_jittered_delay_grows(latency: int, k1: int, k2: int, jitter: int)
    requires
        0 <= latency,
        0 <= k1 <= k2,
        0 <= jitter,
    ensures
        jittered_delay(latency, k1, jitter) <= jittered_delay(latency, k2, jitter),
        jitter <= latency ==> jittered_delay(latency, k2, jitter) - jittered_delay(latency, k1, jitter)
            == k2 - k1,
{
}

/// The delays that the latency toxic adds to the chunks that pass through it:
/// `latency` milliseconds, plus or minus a random jitter.
pub struct LatencyDelays {
    latency: u64,
    jitter: u64,
    rand_gen: Option<ToxicRng>,
}

impl LatencyDelays {
    /// The latency, in milliseconds
    pub closed spec fn latency(&self) -> u64 {
        self.latency
    }

    /// The jitter, in milliseconds
    pub closed spec fn jitter(&self) -> u64 {
        self.jitter
    }

    /// The seed of the generator of the jitter; `None` when there is no jitter
    /// or the operating system seeded it
    pub closed spec fn seed(&self) -> Option<u64> {
        match self.rand_gen {
            Some(g) => g.seed(),
            None => None,
        }
    }

    /// The ranges of the draws of jitter made so far
    pub closed spec fn draws(&self) -> Seq<(u64, u64)> {
        match self.rand_gen {
            Some(g) => g.uniform_draws(),
            None => Seq::empty(),
        }
    }

    /// A generator of random numbers is at hand when there is jitter, and it
    /// makes draws of one kind only
    pub closed spec fn wf(&self) -> bool {
        &&& self.jitter > 0 ==> self.rand_gen is Some
        &&& self.rand_gen matches Some(g) ==> g.inclusive_draws().len() == 0
    }

    /// No step of the computation of a delay overflows: twice the jitter, and
    /// the latency plus any draw below twice the jitter, fit in `u64`
    pub open spec fn delays_fit(latency: int, jitter: int) -> bool {
        jitter == 0 || (2 * jitter <= u64::MAX && latency + 2 * jitter - 1 <= u64::MAX)
    }

    /// Whether the delays for this latency and jitter fit
    pub fn delays_fit_check(latency: u64, jitter: u64) -> (r: bool)
        ensures
            r == Self::delays_fit(latency as int, jitter as int),
    {
        jitter == 0 || (2 * (jitter as u128) <= u64::MAX as u128 && (latency as u128) + 2 * (
        jitter as u128) - 1 <= u64::MAX as u128)
    }

    /// The delays for this latency and jitter; the random jitter comes from a
    /// generator seeded with `rand_seed` when there is one, from the operating
    /// system otherwise. Only that seeding from the operating system can fail.
    pub fn new(latency: u64, jitter: u64, rand_seed: Option<u64>) -> (r: Result<Self, EntropyError>)
        ensures
            match r {
                Ok(d) => {
                    &&& d.wf()
                    &&& d.latency() == latency
                    &&& d.jitter() == jitter
                    &&& jitter > 0 ==> d.seed() == rand_seed
                    &&& d.draws().len() == 0
                },
                Err(_) => jitter > 0 && rand_seed is None,
            },
    {
        let rand_gen = if jitter == 0 {
            None
        } else {
            match rng_for_seed(rand_seed) {
                Ok(rand_gen) => Some(rand_gen),
                Err(e) => {
                    return Err(e);
                },
            }
        };
        Ok(LatencyDelays { latency, jitter, rand_gen })
    }

    /// The delay for the next chunk, in milliseconds: the latency when there is no
    /// jitter, else `latency + k - jitter` for a random `k` from 0 up to (not
    /// including) twice the jitter, and zero where that would fall below zero.
    /// On a seeded generator, `k` is the draw that the seed and the draws made
    /// before give, so a seed makes the delays repeatable.
    pub fn next_delay(&mut self) -> (r: u64)
        requires
            old(self).wf(),
            Self::delays_fit(old(self).latency() as int, old(self).jitter() as int),
        ensures
            final(self).wf(),
            final(self).latency() == old(self).latency(),
            final(self).jitter() == old(self).jitter(),
            old(self).jitter() == 0 ==> r == old(self).latency(),
            old(self).jitter() > 0 ==> exists|k: int|
                0 <= k < 2 * old(self).jitter() && r == #[trigger] jittered_delay(
                    old(self).latency() as int,
                    k,
                    old(self).jitter() as int,
                ),
            old(self).jitter() > 0 ==> r < old(self).latency() + old(self).jitter(),
            final(self).seed() == old(self).seed(),
            old(self).jitter() == 0 ==> final(self).draws() == old(self).draws(),
            old(self).jitter() > 0 ==> final(self).draws() == old(self).draws().push(
                (0u64, (2 * old(self).jitter()) as u64),
            ),
            old(self).jitter() > 0 ==> (old(self).seed() matches Some(s) ==> r == jittered_delay(
                old(self).latency() as int,
                seeded_uniform_sample(
                    s,
                    old(self).draws().push((0u64, (2 * old(self).jitter()) as u64)),
                ) as int,
                old(self).jitter() as int,
            )),
            old(self).jitter() > 0 && old(self).jitter() <= old(self).latency() ==> old(
                self,
            ).latency() - old(self).jitter() <= r,
            old(self).jitter() > 0 ==> (old(self).seed() matches Some(s) ==> ({
                let k = seeded_uniform_sample(
                    s,
                    old(self).draws().push((0u64, (2 * old(self).jitter()) as u64)),
                ) as int;
                let latency = old(self).latency() as int;
                let jitter = old(self).jitter() as int;
                &&& 0 <= k < 2 * jitter
                &&& r == if latency + k >= jitter {
                    latency + k - jitter
                } else {
                    0
                }
            })),
    {
        if self.jitter == 0 {
            return self.latency;
        }
        let jitter = self.jitter;
        let latency = self.latency;
        match &mut self.rand_gen {
            Some(rand_gen) => {
                let add = rng_sample_uniform(rand_gen, 0, jitter * 2);
                let delay = latency + add;
                let r = if delay >= jitter {
                    delay - jitter
                } else {
                    0
                };
                assert(r == jittered_delay(latency as int, add as int, jitter as int));
                r
            },
            None => latency,
        }
    }
}

} // verus!
