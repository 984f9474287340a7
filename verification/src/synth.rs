//! The synthetic source: a deterministic generator driven by a single
//! counter, with no external input.

use vstd::prelude::*;

use crate::buffer::WeightsBuffer;
use crate::buffer::WeightsError;

verus! {

/// The generator's formula at counter position `x`: the integer floor of
/// `(x * 37 mod 29) / 100`. Because `x * 37 mod 29` is always below 29, the
/// division by 100 floors every value to zero; that degenerate output is the
/// documented behaviour of the formula and is kept as it stands (see
/// `lemma_synth_degenerate`).
pub open spec fn synth_value(x: int) -> int {
    ((x * 37) % 29) / 100
}

/// The weight word produced at counter position `x`. The word carries the
/// 32-bit IEEE-754 encoding of `synth_value(x)`; since the value is always
/// the integer zero and zero's encoding is the all-zero word, the word
/// equals the value itself.
pub open spec fn synth_word(x: int) -> u32 {
    synth_value(x) as u32
}

/// The batch produced by a request for `n` words at counter position `i`:
/// one word for each position in `[i, i + n)`.
pub open spec fn synth_batch(i: int, n: int) -> Seq<u32> {
    Seq::new(n as nat, |j: int| synth_word(i + j))
}

/// Generates a deterministic pseudo-sequence of weight words; the counter is
/// the only state, so output is a pure function of it.
pub struct RandomWeightsBuffer {
    /// The counter position of the next word to produce.
    pub index: usize,
}

impl RandomWeightsBuffer {
    /// Builds a generator with its counter at the fixed starting position 1.
    pub fn new() -> (r: Self)
        ensures
            r.wf(),
            r.index == 1,
    {
        RandomWeightsBuffer { index: 1 }
    }
}

impl WeightsBuffer for RandomWeightsBuffer {
    open spec fn wf(&self) -> bool {
        1 <= self.index
    }

    /// A request is served whenever the counter can advance without leaving
    /// the machine's range; the generator itself is unbounded.
    open spec fn ok_on(&self, n: int) -> bool {
        self.index + n <= usize::MAX
    }

    open spec fn words_out(&self, n: int) -> Seq<u32> {
        synth_batch(self.index as int, n)
    }

    open spec fn advanced(&self, post: Self, n: int) -> bool {
        post.index == self.index + n
    }

    fn getn(&mut self, n: usize) -> (r: Result<Vec<u32>, WeightsError>) {
        if n > usize::MAX - self.index {
            return Err(WeightsError::Exhausted);
        }
        let i = self.index;
        self.index = i + n;
        let mut out: Vec<u32> = Vec::new();
        let mut k: usize = 0;
        while k < n
            invariant
                k <= n,
                i + n <= usize::MAX,
                out@ == synth_batch(i as int, k as int),
            decreases n - k,
        {
            let x = i + k;
            // reducing x modulo 29 before the multiplication keeps the
            // product inside usize without changing the formula's value
            let w = x % 29 * 37 % 29 / 100;
            proof {
                vstd::arithmetic::div_mod::lemma_mul_mod_noop_left(x as int, 37, 29);
                assert(w == synth_value(x as int));
            }
            out.push(w as u32);
            k = k + 1;
            assert(out@ =~= synth_batch(i as int, k as int));
        }
        Ok(out)
    }
}

/// Synthetic degeneracy: the formula yields the integer zero, and hence the
/// all-zero word, at every counter position and for any request size.
pub proof fn lemma_synth_degenerate(x: int)
    ensures
        synth_value(x) == 0,
        synth_word(x) == 0,
{
    vstd::arithmetic::div_mod::lemma_mod_bound(x * 37, 29);
}

/// Synthetic determinism: two generators with equal counters return the same
/// batch for the same request size and advance to equal counters, so two
/// instances driven by the same sequence of request sizes stay in lockstep
/// and produce identical output sequences.
pub proof fn lemma_synth_deterministic(a: RandomWeightsBuffer, b: RandomWeightsBuffer, n: int)
    requires
        a.index == b.index,
    ensures
        a.words_out(n) == b.words_out(n),
        forall|a2: RandomWeightsBuffer, b2: RandomWeightsBuffer|
            #[trigger] a.advanced(a2, n) && #[trigger] b.advanced(b2, n) ==> a2.index == b2.index,
{
}

} // verus!
