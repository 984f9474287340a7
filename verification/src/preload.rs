//! The preloaded socket source: the whole stream is materialized up front
//! and then served from memory, cycling back to the start whenever a request
//! consumes the buffer exactly.

use vstd::prelude::*;

use crate::buffer::WeightsBuffer;
use crate::buffer::WeightsError;
use crate::codec::decode_all_words;
use crate::codec::decoded_words;

verus! {

/// Where the cursor stands after serving `n` words from position `c` of a
/// buffer of `l` words: it advances by `n`, and resets to the start when the
/// buffer is consumed exactly.
pub open spec fn cursor_step(l: int, c: int, n: int) -> int {
    if c + n == l {
        0
    } else {
        c + n
    }
}

/// The cursor after `j` served requests of `m` words each, starting from the
/// buffer's start: `cursor_step` iterated `j` times, as
/// `MemTcpWeightsBuffer::getn` moves it.
pub open spec fn cursor_after(l: int, m: int, j: nat) -> int
    decreases j,
{
    if j == 0 {
        0
    } else {
        cursor_step(l, cursor_after(l, m, (j - 1) as nat), m)
    }
}

/// Serves weight words from a buffer drained in full from a connection at
/// construction, advancing a cursor that wraps to the start on exact
/// exhaustion. A request that would run past the end of the buffer without
/// landing exactly on it is refused as exhaustion rather than read out of
/// range or wrapped mid-batch.
pub struct MemTcpWeightsBuffer {
    /// The words drained from the connection, in arrival order.
    pub weights: Vec<u32>,
    /// The position of the next word to serve.
    pub cursor: usize,
}

impl MemTcpWeightsBuffer {
    /// Builds the source from the bytes drained from a connection: every
    /// complete 4-byte group becomes one word, and a trailing incomplete
    /// group — however the stream came to end — is dropped. The cursor
    /// starts at the front.
    pub fn new(stream_bytes: &[u8]) -> (r: Self)
        ensures
            r.wf(),
            r.weights@ == decoded_words(stream_bytes@),
            r.cursor == 0,
    {
        MemTcpWeightsBuffer { weights: decode_all_words(stream_bytes), cursor: 0 }
    }
}

impl WeightsBuffer for MemTcpWeightsBuffer {
    /// The cursor stands inside the buffer, or at the start of an empty one.
    open spec fn wf(&self) -> bool {
        self.cursor == 0 || self.cursor < self.weights@.len()
    }

    /// A request is served exactly when it ends on or before the end of the
    /// buffer.
    open spec fn ok_on(&self, n: int) -> bool {
        self.cursor + n <= self.weights@.len()
    }

    open spec fn words_out(&self, n: int) -> Seq<u32> {
        self.weights@.subrange(self.cursor as int, self.cursor + n)
    }

    open spec fn advanced(&self, post: Self, n: int) -> bool {
        post.weights@ == self.weights@ && post.cursor == cursor_step(
            self.weights@.len() as int,
            self.cursor as int,
            n,
        )
    }

    fn getn(&mut self, n: usize) -> (r: Result<Vec<u32>, WeightsError>) {
        let len = self.weights.len();
        if n > len - self.cursor {
            return Err(WeightsError::Exhausted);
        }
        let mut out: Vec<u32> = Vec::new();
        let mut k: usize = 0;
        while k < n
            invariant
                k <= n,
                self.cursor + n <= self.weights@.len() <= usize::MAX,
                out@ == self.weights@.subrange(self.cursor as int, self.cursor + k),
            decreases n - k,
        {
            out.push(self.weights[self.cursor + k]);
            k = k + 1;
            assert(out@ =~= self.weights@.subrange(self.cursor as int, self.cursor + k as int));
        }
        self.cursor = self.cursor + n;
        if self.cursor == len {
            self.cursor = 0;
        }
        Ok(out)
    }
}

/// Preload-and-cycle: when every request takes `m` words and `m` evenly
/// divides the buffer length `l`, the cursor runs through the multiples of
/// `m` below `l` and returns to the start every `l / m` requests. Since a
/// batch depends only on the buffer and the cursor, the batches repeat with
/// exactly that period.
pub proof fn lemma_preload_cycle(l: int, m: int, j: nat)
    requires
        0 < m <= l,
        l % m == 0,
    ensures
        cursor_after(l, m, j) == m * ((j as int) % (l / m)),
    decreases j,
{
    let q = l / m;
    vstd::arithmetic::div_mod::lemma_fundamental_div_mod(l, m);
    assert(l == m * q);
    assert(1 <= q) by {
        vstd::arithmetic::div_mod::lemma_div_non_zero(l, m);
    }
    if j == 0 {
        vstd::arithmetic::div_mod::lemma_small_mod(0, q as nat);
        assert(cursor_after(l, m, j) == 0);
        assert((j as int) % q == 0);
    } else {
        lemma_preload_cycle(l, m, (j - 1) as nat);
        let r = (j - 1) % q;
        let prev = cursor_after(l, m, (j - 1) as nat);
        assert(cursor_after(l, m, j) == cursor_step(l, prev, m));
        assert(prev == m * r);
        vstd::arithmetic::div_mod::lemma_mod_bound(j - 1, q);
        vstd::arithmetic::div_mod::lemma_add_mod_noop(j - 1, 1, q);
        assert(((j - 1) % q + 1int % q) % q == (j as int) % q);
        if r == q - 1 {
            assert(m * r + m == m * q) by {
                vstd::arithmetic::mul::lemma_mul_is_distributive_add(m, r, 1);
            }
            assert((j as int) % q == 0) by {
                if q == 1 {
                    vstd::arithmetic::div_mod::lemma_mod_self_0(q);
                    vstd::arithmetic::div_mod::lemma_small_mod(0, q as nat);
                } else {
                    vstd::arithmetic::div_mod::lemma_small_mod(1, q as nat);
                    vstd::arithmetic::div_mod::lemma_mod_self_0(q);
                }
            }
            assert(cursor_step(l, prev, m) == 0);
            assert(cursor_after(l, m, j) == m * ((j as int) % q));
        } else {
            assert(m * r + m == m * (r + 1)) by {
                vstd::arithmetic::mul::lemma_mul_is_distributive_add(m, r, 1);
            }
            assert(m * (r + 1) < m * q) by {
                vstd::arithmetic::mul::lemma_mul_strict_inequality(r + 1, q, m);
            }
            assert((j as int) % q == r + 1) by {
                vstd::arithmetic::div_mod::lemma_small_mod(1, q as nat);
                vstd::arithmetic::div_mod::lemma_small_mod((r + 1) as nat, q as nat);
            }
            assert(cursor_step(l, prev, m) == m * (r + 1));
            assert(cursor_after(l, m, j) == m * ((j as int) % q));
        }
    }
}

/// The cycle repeats: after any further `l / m` evenly dividing requests the
/// cursor is back where it was, so the run of batches from there on is the
/// same as before — in particular, the request after a full pass over the
/// buffer reproduces the first batch.
pub proof fn lemma_preload_cycle_repeats(l: int, m: int, j: nat)
    requires
        0 < m <= l,
        l % m == 0,
    ensures
        cursor_after(l, m, j + (l / m) as nat) == cursor_after(l, m, j),
{
    let q = l / m;
    assert(1 <= q) by {
        vstd::arithmetic::div_mod::lemma_div_non_zero(l, m);
    }
    lemma_preload_cycle(l, m, j);
    lemma_preload_cycle(l, m, j + q as nat);
    vstd::arithmetic::div_mod::lemma_mod_add_multiples_vanish(j as int, q);
}

/// A batch depends only on the buffer and the cursor: two preloaded sources
/// holding the same words with their cursors at the same position serve the
/// same batch. With `lemma_preload_cycle_repeats` this closes the cycle: once
/// the cursor is back at a position it held before, the batches from there
/// on repeat.
pub proof fn lemma_preload_batch_depends_on_cursor(
    a: MemTcpWeightsBuffer,
    b: MemTcpWeightsBuffer,
    n: int,
)
    requires
        a.weights@ == b.weights@,
        a.cursor == b.cursor,
    ensures
        a.words_out(n) == b.words_out(n),
        a.ok_on(n) == b.ok_on(n),
{
}

} // verus!
