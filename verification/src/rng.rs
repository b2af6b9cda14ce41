//! Randomness handles.
//!
//! `GameRng` wraps a seedable pseudorandom generator from the `rand` crate
//! and is threaded explicitly through every operation that consumes
//! randomness; there is no hidden global entropy source. Only uniform
//! integer draws are taken from it, and nothing beyond the documented range
//! of a draw is assumed.
//!
//! Normally distributed draws (used by the stat generator and the
//! difficulty controller) are not produced here: they reach the library as
//! plain scaled integers through `NormalSource`, so that everything done
//! with a sample is verified.

use vstd::prelude::*;

use crate::creature::NORMAL_SAMPLE_LIMIT;
use crate::clamp_i64;
use crate::clamp_spec;

verus! {

#[verifier::external_type_specification]
#[verifier::external_body]
pub struct ExStdRng(rand::rngs::StdRng);

/// A pseudorandom stream for uniform integer draws.
pub struct GameRng {
    inner: rand::rngs::StdRng,
}

impl GameRng {
    /// Relies on rand::rngs::StdRng::seed_from_u64 to build a generator
    /// deterministically from a seed.
    #[verifier::external_body]
    pub fn from_seed(seed: u64) -> (r: GameRng) {
        GameRng { inner: <rand::rngs::StdRng as rand::SeedableRng>::seed_from_u64(seed) }
    }

    /// Relies on rand::Rng::gen_range over an inclusive integer range: it
    /// panics only on an empty range and returns a value within the range.
    #[verifier::external_body]
    pub fn gen_range_i64(&mut self, lo: i64, hi: i64) -> (r: i64)
        requires
            lo <= hi,
        ensures
            lo <= r <= hi,
    {
        rand::Rng::gen_range(&mut self.inner, lo..=hi)
    }
}

/// A store of standard-normal samples, scaled by 1000 and rounded to
/// integers, consumed front to back. Callers fill it from whatever
/// distribution source they use; each stored sample is clamped into
/// `[-NORMAL_SAMPLE_LIMIT, NORMAL_SAMPLE_LIMIT]`, far outside any
/// realistic draw, so that downstream arithmetic stays in bounds.
pub struct NormalSource {
    samples: Vec<i64>,
    next: usize,
}

impl NormalSource {
    /// The samples not yet consumed, in order.
    pub closed spec fn pending(&self) -> Seq<i64> {
        self.samples@.skip(self.next as int)
    }

    pub closed spec fn wf(&self) -> bool {
        &&& self.next <= self.samples@.len()
        &&& forall|i: int|
            0 <= i < self.samples@.len() ==> -NORMAL_SAMPLE_LIMIT <= #[trigger] self.samples@[i]
                <= NORMAL_SAMPLE_LIMIT
    }

    /// Build a source from raw samples, clamping each into the accepted
    /// magnitude range.
    pub fn new(raw: Vec<i64>) -> (r: NormalSource)
        ensures
            r.wf(),
            r.pending().len() == raw@.len(),
            forall|i: int|
                0 <= i < raw@.len() ==> #[trigger] r.pending()[i] == clamp_spec(
                    raw@[i] as int,
                    -NORMAL_SAMPLE_LIMIT as int,
                    NORMAL_SAMPLE_LIMIT as int,
                ),
    {
        let mut samples: Vec<i64> = Vec::new();
        let mut k: usize = 0;
        while k < raw.len()
            invariant
                k <= raw@.len(),
                samples@.len() == k,
                forall|i: int|
                    0 <= i < k ==> #[trigger] samples@[i] == clamp_spec(
                        raw@[i] as int,
                        -NORMAL_SAMPLE_LIMIT as int,
                        NORMAL_SAMPLE_LIMIT as int,
                    ),
            decreases raw@.len() - k,
        {
            samples.push(clamp_i64(raw[k], -NORMAL_SAMPLE_LIMIT, NORMAL_SAMPLE_LIMIT));
            k = k + 1;
        }
        let r = NormalSource { samples, next: 0 };
        assert(r.pending() =~= r.samples@);
        r
    }

    /// How many samples are left.
    pub fn remaining(&self) -> (r: usize)
        requires
            self.wf(),
        ensures
            r == self.pending().len(),
    {
        self.samples.len() - self.next
    }

    /// Read the next sample without consuming it.
    pub fn peek(&self) -> (r: i64)
        requires
            self.wf(),
            self.pending().len() > 0,
        ensures
            r == self.pending()[0],
            -NORMAL_SAMPLE_LIMIT <= r <= NORMAL_SAMPLE_LIMIT,
    {
        assert(self.pending().len() == self.samples@.len() - self.next);
        let len = self.samples.len();
        assert(self.next < len);
        self.samples[self.next]
    }

    /// Consume the next sample.
    pub fn take(&mut self) -> (r: i64)
        requires
            old(self).wf(),
            old(self).pending().len() > 0,
        ensures
            final(self).wf(),
            r == old(self).pending()[0],
            -NORMAL_SAMPLE_LIMIT <= r <= NORMAL_SAMPLE_LIMIT,
            final(self).pending() == old(self).pending().skip(1),
    {
        assert(self.pending().len() == self.samples@.len() - self.next);
        let len = self.samples.len();
        assert(self.next < len);
        let r = self.samples[self.next];
        self.next = self.next + 1;
        assert(final(self).pending() =~= old(self).pending().skip(1));
        r
    }
}

} // verus!
