//! Where the coin comes from that decides whether a column turns over.

use rand::rngs::StdRng;
use rand::Rng;
use rand::SeedableRng;
use vstd::prelude::*;

verus! {

/// The generator `rand::rngs::StdRng`, carried about and never looked into.
#[verifier::external_type_specification]
#[verifier::external_body]
pub struct ExStdRng(rand::rngs::StdRng);

/// The source of a game's coin flips.
pub enum SpinSource {
    /// The generator that `rand` keeps for each thread, seeded by the system.
    Thread,
    /// A generator of its own, seeded by the caller, so that the same moves
    /// meet the same coin flips again.
    Seeded(StdRng),
}

/// Calls `rand::random::<bool>()`, which draws from the thread's generator
/// and gives `true` and `false` with probability one half each. Nothing is
/// claimed of the outcome. (`rand` gives up with a panic where the system's
/// source of entropy fails: when the thread's generator is first seeded,
/// and when it is seeded anew after it has given out its share of numbers.)
#[verifier::external_body]
fn thread_flip() -> (heads: bool) {
    rand::random::<bool>()
}

/// Calls `Rng::gen::<bool>()` on the generator, which advances it and gives
/// `true` and `false` with probability one half each. Nothing is claimed of
/// the outcome or of the generator afterwards.
#[verifier::external_body]
fn seeded_flip(rng: &mut StdRng) -> (heads: bool) {
    rng.gen::<bool>()
}

/// Calls `SeedableRng::seed_from_u64` for `StdRng`. Nothing is claimed of the
/// generator that comes back.
#[verifier::external_body]
fn seeded_rng(seed: u64) -> (rng: StdRng) {
    StdRng::seed_from_u64(seed)
}

impl SpinSource {
    /// A source with a generator of its own that starts from `seed`, so that
    /// a program meets the same flips again when it starts from the same seed.
    pub fn seeded(seed: u64) -> (source: SpinSource)
        ensures
            source is Seeded,
    {
        SpinSource::Seeded(seeded_rng(seed))
    }

    /// Flips the coin. Either side may come up: callers are verified for
    /// both. The source stays of its kind: the source of the thread stays as
    /// it is, and a seeded one moves its own generator on.
    pub fn flip(&mut self) -> (heads: bool)
        ensures
            *old(self) is Thread <==> *final(self) is Thread,
            *old(self) is Thread ==> *final(self) == *old(self),
    {
        match self {
            SpinSource::Thread => thread_flip(),
            SpinSource::Seeded(rng) => seeded_flip(rng),
        }
    }
}

} // verus!
