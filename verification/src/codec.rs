//! The byte codec shared by the file- and socket-backed sources: a flat,
//! unframed run of 32-bit words, each stored as 4 little-endian bytes.

use vstd::prelude::*;

use vstd::bytes::lemma_auto_spec_u32_to_from_le_bytes;
use vstd::bytes::spec_u32_from_le_bytes;
use vstd::bytes::spec_u32_to_le_bytes;
use vstd::bytes::u32_from_le_bytes;
use vstd::bytes::u32_to_le_bytes;
use vstd::slice::slice_subrange;

use crate::buffer::WeightsError;

verus! {

/// The word stored little-endian in the `i`-th 4-byte group of `b`.
pub open spec fn word_at(b: Seq<u8>, i: int) -> u32 {
    spec_u32_from_le_bytes(b.subrange(4 * i, 4 * i + 4))
}

/// The words stored in `b`, one per complete 4-byte group, in order; bytes
/// past the last complete group carry no word.
pub open spec fn decoded_words(b: Seq<u8>) -> Seq<u32> {
    Seq::new(b.len() / 4, |i: int| word_at(b, i))
}

/// The little-endian bytes of the words of `ws`, in order.
pub open spec fn encoded_bytes(ws: Seq<u32>) -> Seq<u8> {
    Seq::new(ws.len() * 4, |j: int| spec_u32_to_le_bytes(ws[j / 4])[j % 4])
}

proof fn lemma_group_index(i: int, k: int)
    requires
        0 <= i,
        0 <= k < 4,
    ensures
        (4 * i + k) / 4 == i,
        (4 * i + k) % 4 == k,
{
    vstd::arithmetic::div_mod::lemma_fundamental_div_mod_converse(4 * i + k, 4, i, k);
}

proof fn lemma_byte_split(j: int)
    requires
        0 <= j,
    ensures
        j == 4 * (j / 4) + j % 4,
        0 <= j % 4 < 4,
{
    vstd::arithmetic::div_mod::lemma_fundamental_div_mod(j, 4);
    vstd::arithmetic::div_mod::lemma_mod_bound(j, 4);
}

/// Decodes every complete 4-byte group of `bytes` into a word. A trailing
/// incomplete group marks the end of the stream and is dropped: this is the
/// preloading source's uniform treatment of a stream that ends mid-value.
pub fn decode_all_words(bytes: &[u8]) -> (r: Vec<u32>)
    ensures
        r@ == decoded_words(bytes@),
{
    let n = bytes.len() / 4;
    proof {
        vstd::arithmetic::div_mod::lemma_fundamental_div_mod(bytes@.len() as int, 4);
        vstd::arithmetic::div_mod::lemma_mod_bound(bytes@.len() as int, 4);
    }
    let mut out: Vec<u32> = Vec::new();
    let mut i: usize = 0;
    while i < n
        invariant
            i <= n,
            n == bytes@.len() / 4,
            4 * n <= bytes@.len() <= usize::MAX,
            out@ == decoded_words(bytes@).subrange(0, i as int),
        decreases n - i,
    {
        let chunk = slice_subrange(bytes, 4 * i, 4 * i + 4);
        let w = u32_from_le_bytes(chunk);
        out.push(w);
        i = i + 1;
        assert(out@ =~= decoded_words(bytes@).subrange(0, i as int));
    }
    assert(out@ =~= decoded_words(bytes@));
    out
}

/// Decodes the bytes read for one request of `n` words. The byte count must
/// be exactly `4 * n`: anything else does not form the requested whole
/// values and is malformed.
pub fn decode_batch(bytes: &[u8], n: usize) -> (r: Result<Vec<u32>, WeightsError>)
    ensures
        (r is Ok) <==> bytes@.len() == 4 * n,
        (r matches Ok(v) ==> v@ == decoded_words(bytes@) && v@.len() == n),
        (r matches Err(e) ==> e == WeightsError::Malformed),
{
    let len = bytes.len();
    if len % 4 == 0 && len / 4 == n {
        proof {
            vstd::arithmetic::div_mod::lemma_fundamental_div_mod(len as int, 4);
        }
        Ok(decode_all_words(bytes))
    } else {
        proof {
            if bytes@.len() == 4 * n {
                vstd::arithmetic::div_mod::lemma_fundamental_div_mod_converse(
                    len as int,
                    4,
                    n as int,
                    0,
                );
            }
        }
        Err(WeightsError::Malformed)
    }
}

/// Encodes words as little-endian bytes, 4 per word: the write side of the
/// wire and file format, and the inverse of `decoded_words`.
pub fn encode_words(words: &[u32]) -> (r: Vec<u8>)
    ensures
        r@ == encoded_bytes(words@),
{
    let mut out: Vec<u8> = Vec::new();
    let mut i: usize = 0;
    while i < words.len()
        invariant
            i <= words@.len(),
            out@ == encoded_bytes(words@.subrange(0, i as int)),
        decreases words@.len() - i,
    {
        let b = u32_to_le_bytes(words[i]);
        out.push(b[0]);
        out.push(b[1]);
        out.push(b[2]);
        out.push(b[3]);
        i = i + 1;
        proof {
            assert forall|j: int| 0 <= j < 4 * i implies out@[j] == encoded_bytes(
                words@.subrange(0, i as int),
            )[j] by {
                lemma_byte_split(j);
            }
            assert(out@ =~= encoded_bytes(words@.subrange(0, i as int)));
        }
    }
    assert(out@ =~= encoded_bytes(words@));
    out
}

/// Codec round trip: decoding the encoding of any word sequence returns the
/// sequence exactly, in order; writing weights to a file or a wire and
/// reading them back is the identity.
pub proof fn lemma_codec_round_trip(ws: Seq<u32>)
    ensures
        decoded_words(encoded_bytes(ws)) == ws,
{
    lemma_auto_spec_u32_to_from_le_bytes();
    let e = encoded_bytes(ws);
    vstd::arithmetic::div_mod::lemma_div_multiples_vanish(ws.len() as int, 4);
    assert(e.len() / 4 == ws.len());
    assert forall|i: int| 0 <= i < ws.len() implies decoded_words(e)[i] == ws[i] by {
        assert forall|k: int| 0 <= k < 4 implies e[4 * i + k] == spec_u32_to_le_bytes(
            ws[i],
        )[k] by {
            lemma_group_index(i, k);
        }
        assert(e.subrange(4 * i, 4 * i + 4) =~= spec_u32_to_le_bytes(ws[i]));
    }
    assert(decoded_words(e) =~= ws);
}

} // verus!
