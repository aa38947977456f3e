use vstd::prelude::*;
use rand::RngCore;
use rand::SeedableRng;

verus! {

#[verifier::external_type_specification]
#[verifier::external_body]
/// rand's standard generator, carried opaquely inside `RandomSource`.
pub struct ExStdRng(rand::rngs::StdRng);

/// The word at the given position of the pseudo-random stream that
/// `rand::rngs::StdRng` produces for the given seed. StdRng runs the ChaCha
/// block cipher with twelve rounds, so for a fixed seed the stream is the
/// same in every run and on every machine.
pub uninterp spec fn std_rng_word(seed: u64, index: nat) -> u64;

/// Relies on rand's `StdRng::seed_from_u64`: builds the generator whose
/// output stream `std_rng_word(seed, _)` names, as a function of the seed
/// alone.
#[verifier::external_body]
fn new_std_rng(seed: u64) -> rand::rngs::StdRng {
    rand::rngs::StdRng::seed_from_u64(seed)
}

/// An explicitly seeded pseudo-random word source.
///
/// The engine owns one of these and advances it by one word per
/// probabilistic rule selection, which keeps every run with a fixed seed
/// reproducible. The fields stay private: a source is only ever a freshly
/// seeded generator that has emitted `drawn()` words.
pub struct RandomSource {
    rng: rand::rngs::StdRng,
    seed: Ghost<u64>,
    drawn: Ghost<nat>,
}

impl RandomSource {
    /// The seed this source was created from.
    pub closed spec fn seed(self) -> u64 {
        self.seed@
    }

    /// How many words have been drawn so far.
    pub closed spec fn drawn(self) -> nat {
        self.drawn@
    }

    /// A fresh source for the given seed.
    pub fn from_seed(seed: u64) -> (r: RandomSource)
        ensures
            r.seed() == seed,
            r.drawn() == 0,
    {
        RandomSource { rng: new_std_rng(seed), seed: Ghost(seed), drawn: Ghost(0) }
    }

    /// Relies on rand's `RngCore::next_u64` for `StdRng`: together with
    /// `StdRng::seed_from_u64` it emits the deterministic word stream of
    /// this source's seed, one word per call.
    #[verifier::external_body]
    pub fn next_word(&mut self) -> (r: u64)
        ensures
            r == std_rng_word(old(self).seed(), old(self).drawn()),
            final(self).seed() == old(self).seed(),
            final(self).drawn() == old(self).drawn() + 1,
    {
        self.rng.next_u64()
    }

    /// The next word of the stream, reduced below the given bound.
    pub fn next_below(&mut self, bound: u64) -> (r: u64)
        requires
            bound > 0,
        ensures
            r == std_rng_word(old(self).seed(), old(self).drawn()) % bound,
            r < bound,
            final(self).seed() == old(self).seed(),
            final(self).drawn() == old(self).drawn() + 1,
    {
        let w = self.next_word();
        w % bound
    }
}

} // verus!
