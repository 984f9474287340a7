//! Behaviour of the three in-memory weight sources, exercised on concrete
//! values through the public `getn` capability.

use weights_buffer::MemTcpWeightsBuffer;
use weights_buffer::RandomWeightsBuffer;
use weights_buffer::TestWeightsBuffer;
use weights_buffer::WeightsBuffer;
use weights_buffer::WeightsError;
use weights_buffer::codec::encode_words;

fn bits_of(values: &[f32]) -> Vec<u32> {
    values.iter().map(|v| v.to_bits()).collect()
}

fn floats_of(words: Vec<u32>) -> Vec<f32> {
    words.into_iter().map(f32::from_bits).collect()
}

fn stream_of(values: &[f32]) -> Vec<u8> {
    encode_words(&bits_of(values))
}

#[test]
fn array_reconstructs_source_in_order() {
    let source: Vec<f32> = vec![1.5, -2.25, 3.5, 0.125];
    let mut buf = TestWeightsBuffer::new(bits_of(&source));
    let mut got: Vec<f32> = Vec::new();
    got.extend(floats_of(buf.getn(1).unwrap()));
    got.extend(floats_of(buf.getn(3).unwrap()));
    assert_eq!(got, source);
}

#[test]
fn array_getn_zero_returns_empty_batch() {
    let mut buf = TestWeightsBuffer::new(bits_of(&[4.0, 5.0]));
    assert_eq!(buf.getn(0).unwrap(), Vec::<u32>::new());
    assert_eq!(floats_of(buf.getn(2).unwrap()), vec![4.0, 5.0]);
}

#[test]
fn array_overflow_signals_exhaustion_without_truncating() {
    let mut buf = TestWeightsBuffer::new(bits_of(&[1.0, 2.0, 3.0, 4.0]));
    assert_eq!(buf.getn(5), Err(WeightsError::Exhausted));
    // the refused request took nothing: all four values are still there
    assert_eq!(floats_of(buf.getn(4).unwrap()), vec![1.0, 2.0, 3.0, 4.0]);
    assert_eq!(buf.getn(1), Err(WeightsError::Exhausted));
}

#[test]
fn synthetic_instances_in_lockstep_produce_identical_output() {
    let mut a = RandomWeightsBuffer::new();
    let mut b = RandomWeightsBuffer::new();
    let sizes: Vec<usize> = vec![3, 2, 4, 1];
    for n in sizes {
        assert_eq!(a.getn(n).unwrap(), b.getn(n).unwrap());
    }
}

#[test]
fn synthetic_output_is_all_zeros() {
    let mut gen = RandomWeightsBuffer::new();
    let batch = floats_of(gen.getn(10).unwrap());
    assert_eq!(batch, vec![0.0f32; 10]);
    // the formula floors (x * 37 mod 29) / 100 to zero at every position,
    // so a later batch is zero as well
    let later = floats_of(gen.getn(7).unwrap());
    assert_eq!(later, vec![0.0f32; 7]);
}

#[test]
fn preload_cycles_back_on_exact_division() {
    let values: Vec<f32> = vec![1.0, 2.0, 3.0, 4.0, 5.0, 6.0];
    let stream = stream_of(&values);
    let mut buf = MemTcpWeightsBuffer::new(&stream);
    let first = floats_of(buf.getn(3).unwrap());
    assert_eq!(first, vec![1.0, 2.0, 3.0]);
    assert_eq!(floats_of(buf.getn(3).unwrap()), vec![4.0, 5.0, 6.0]);
    // two requests of 3 consume the six values exactly: the cursor is back
    // at the start and the next batch repeats the first one
    assert_eq!(floats_of(buf.getn(3).unwrap()), first);
}

#[test]
fn preload_misaligned_request_signals_exhaustion() {
    let stream = stream_of(&[1.0, 2.0, 3.0, 4.0, 5.0]);
    let mut buf = MemTcpWeightsBuffer::new(&stream);
    assert_eq!(floats_of(buf.getn(3).unwrap()), vec![1.0, 2.0, 3.0]);
    // 3 does not divide 5: the next request of 3 would run past the end
    // without landing on it, and is refused rather than wrapped mid-batch
    assert_eq!(buf.getn(3), Err(WeightsError::Exhausted));
    // a request that ends exactly on the boundary is still served, and wraps
    assert_eq!(floats_of(buf.getn(2).unwrap()), vec![4.0, 5.0]);
    assert_eq!(floats_of(buf.getn(1).unwrap()), vec![1.0]);
}

#[test]
fn preload_empty_stream_serves_only_empty_batches() {
    let mut buf = MemTcpWeightsBuffer::new(&[]);
    assert_eq!(buf.getn(0).unwrap(), Vec::<u32>::new());
    assert_eq!(buf.getn(1), Err(WeightsError::Exhausted));
}

#[test]
fn preload_drops_trailing_partial_value() {
    let mut stream = stream_of(&[7.0, 8.0]);
    stream.push(0xAA);
    // nine bytes hold two complete values; the odd byte is where the
    // stream ended and carries no value
    let mut buf = MemTcpWeightsBuffer::new(&stream);
    assert_eq!(floats_of(buf.getn(2).unwrap()), vec![7.0, 8.0]);
}
