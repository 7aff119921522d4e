use vstd::prelude::*;
use rand::rngs::StdRng;
use rand::Rng;
use rand::SeedableRng;

verus! {

#[verifier::external_type_specification]
#[verifier::external_body]
pub struct ExStdRng(StdRng);

/// The value that a `StdRng` seeded from `seed` returns from
/// `gen_range(0..bound)` once it has already served one `gen_range` call for
/// each bound in `history`, in that order. A seeded `StdRng` is a fixed
/// ChaCha-based generator, so this value depends on nothing else.
pub uninterp spec fn draw_of(seed: u64, history: Seq<u64>, bound: u64) -> u64;

/// A random source seeded from a single `u64`. The same seed always yields
/// the same sequence of draws, so a computation that consumes draws from it
/// is a function of the seed; callers that want fresh randomness per run
/// seed it from entropy.
pub struct SeededRng {
    inner: StdRng,
    seed: Ghost<u64>,
    history: Ghost<Seq<u64>>,
}

/// Relies on rand_core::SeedableRng::seed_from_u64: it derives the
/// generator's state from the `u64` seed alone.
#[verifier::external_body]
fn seed_std_rng(seed: u64) -> StdRng {
    StdRng::seed_from_u64(seed)
}

impl SeededRng {
    /// The seed this source was created from.
    pub closed spec fn seed_val(&self) -> u64 {
        self.seed@
    }

    /// The bounds of the draws served so far, oldest first.
    pub closed spec fn drawn(&self) -> Seq<u64> {
        self.history@
    }

    /// A fresh source seeded from `seed`, with no draws served yet.
    pub fn from_seed(seed: u64) -> (r: SeededRng)
        ensures
            r.seed_val() == seed,
            r.drawn() == Seq::<u64>::empty(),
    {
        SeededRng { inner: seed_std_rng(seed), seed: Ghost(seed), history: Ghost(Seq::empty()) }
    }

    /// Relies on rand::Rng::gen_range over `0..bound`: it returns a value
    /// below `bound`, panics only on an empty range, and on a seeded
    /// `StdRng` of the pinned rand version its value is a function of the
    /// seed and of the bounds of the earlier draws alone.
    #[verifier::external_body]
    pub fn draw_below(&mut self, bound: u64) -> (r: u64)
        requires
            bound >= 1,
        ensures
            final(self).seed_val() == old(self).seed_val(),
            final(self).drawn() == old(self).drawn().push(bound),
            r == draw_of(old(self).seed_val(), old(self).drawn(), bound),
            r < bound,
    {
        self.inner.gen_range(0..bound)
    }

    /// A uniformly random index below `len`, as a `usize`.
    pub fn pick_index(&mut self, len: usize) -> (i: usize)
        requires
            len >= 1,
        ensures
            final(self).seed_val() == old(self).seed_val(),
            final(self).drawn() == old(self).drawn().push(len as u64),
            i == draw_of(old(self).seed_val(), old(self).drawn(), len as u64),
            i < len,
    {
        let d = self.draw_below(len as u64);
        d as usize
    }
}

} // verus!
