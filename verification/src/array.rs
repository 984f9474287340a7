//! The fixed-array source: serves a pre-supplied sequence of weight words,
//! consuming it destructively from the front.

use vstd::prelude::*;

use crate::buffer::WeightsBuffer;
use crate::buffer::WeightsError;

verus! {

/// Serves weight words from a caller-supplied vector; each served request
/// removes the returned words, so the remaining length always equals the
/// original length minus the total retrieved.
pub struct TestWeightsBuffer {
    /// The words not yet handed out, in source order.
    pub weights: Vec<u32>,
}

impl TestWeightsBuffer {
    /// Builds a source that owns `weights` and hands them out in order.
    pub fn new(weights: Vec<u32>) -> (r: Self)
        ensures
            r.wf(),
            r.weights@ == weights@,
    {
        TestWeightsBuffer { weights }
    }
}

impl WeightsBuffer for TestWeightsBuffer {
    open spec fn wf(&self) -> bool {
        true
    }

    /// A request is served exactly when it does not overrun the remainder.
    open spec fn ok_on(&self, n: int) -> bool {
        n <= self.weights@.len()
    }

    open spec fn words_out(&self, n: int) -> Seq<u32> {
        self.weights@.subrange(0, n)
    }

    open spec fn advanced(&self, post: Self, n: int) -> bool {
        post.weights@ == self.weights@.subrange(n, self.weights@.len() as int)
    }

    fn getn(&mut self, n: usize) -> (r: Result<Vec<u32>, WeightsError>) {
        let len = self.weights.len();
        if n > len {
            return Err(WeightsError::Exhausted);
        }
        let mut out: Vec<u32> = Vec::new();
        let mut k: usize = 0;
        while k < n
            invariant
                k <= n <= self.weights@.len(),
                out@ == self.weights@.subrange(0, k as int),
            decreases n - k,
        {
            out.push(self.weights[k]);
            k = k + 1;
            assert(out@ =~= self.weights@.subrange(0, k as int));
        }
        let mut rest: Vec<u32> = Vec::new();
        let mut j: usize = n;
        while j < len
            invariant
                n <= j <= len,
                len == self.weights@.len(),
                rest@ == self.weights@.subrange(n as int, j as int),
            decreases len - j,
        {
            rest.push(self.weights[j]);
            j = j + 1;
            assert(rest@ =~= self.weights@.subrange(n as int, j as int));
        }
        self.weights = rest;
        Ok(out)
    }
}

/// The sum of a sequence of request sizes.
pub open spec fn batch_sizes_sum(ns: Seq<int>) -> int
    decreases ns.len(),
{
    if ns.len() == 0 {
        0
    } else {
        ns[0] + batch_sizes_sum(ns.drop_first())
    }
}

/// The concatenation of the batches a fixed-array source returns when its
/// remaining words are `s` and it serves requests of sizes `ns` in order:
/// each request takes the first `ns[i]` words and leaves the rest, exactly
/// as `TestWeightsBuffer::getn` ensures.
pub open spec fn drained_words(s: Seq<u32>, ns: Seq<int>) -> Seq<u32>
    decreases ns.len(),
{
    if ns.len() == 0 {
        Seq::empty()
    } else {
        s.subrange(0, ns[0]) + drained_words(
            s.subrange(ns[0], s.len() as int),
            ns.drop_first(),
        )
    }
}

proof fn lemma_batch_sizes_sum_nonneg(ns: Seq<int>)
    requires
        forall|i: int| 0 <= i < ns.len() ==> 0 <= #[trigger] ns[i],
    ensures
        0 <= batch_sizes_sum(ns),
    decreases ns.len(),
{
    if ns.len() > 0 {
        lemma_batch_sizes_sum_nonneg(ns.drop_first());
    }
}

/// Array exactness: a run of requests whose sizes add up to exactly the
/// length of the stored sequence returns every word of it, in order.
pub proof fn lemma_array_exactness(s: Seq<u32>, ns: Seq<int>)
    requires
        forall|i: int| 0 <= i < ns.len() ==> 0 <= #[trigger] ns[i],
        batch_sizes_sum(ns) == s.len(),
    ensures
        drained_words(s, ns) == s,
    decreases ns.len(),
{
    if ns.len() == 0 {
        assert(drained_words(s, ns) =~= s);
    } else {
        let n0 = ns[0];
        let rest = s.subrange(n0, s.len() as int);
        lemma_batch_sizes_sum_nonneg(ns.drop_first());
        lemma_array_exactness(rest, ns.drop_first());
        assert(drained_words(s, ns) =~= s);
    }
}

} // verus!
