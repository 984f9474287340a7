//! The byte codec: the flat little-endian file and wire format that the
//! file- and socket-backed sources share.

use weights_buffer::WeightsError;
use weights_buffer::codec::decode_all_words;
use weights_buffer::codec::decode_batch;
use weights_buffer::codec::encode_words;

fn word_bits(values: &[f32]) -> Vec<u32> {
    values.iter().map(|v| v.to_bits()).collect()
}

#[test]
fn file_round_trip_returns_written_values() {
    let written: Vec<f32> = vec![0.5, -1.0, 3.25, 100.0, -0.0078125];
    let file_image = encode_words(&word_bits(&written));
    assert_eq!(file_image.len(), 4 * written.len());
    let read = decode_batch(&file_image, written.len()).unwrap();
    let values: Vec<f32> = read.into_iter().map(f32::from_bits).collect();
    assert_eq!(values, written);
}

#[test]
fn single_value_round_trip() {
    let image = encode_words(&word_bits(&[42.0]));
    assert_eq!(decode_batch(&image, 1).unwrap(), word_bits(&[42.0]));
}

#[test]
fn encoding_is_little_endian() {
    let word: u32 = 1.5f32.to_bits();
    assert_eq!(encode_words(&[word]), word.to_le_bytes().to_vec());
    let decoded = decode_batch(&word.to_le_bytes(), 1).unwrap();
    assert_eq!(f32::from_bits(decoded[0]), 1.5);
}

#[test]
fn exact_read_decodes_every_sent_value() {
    // a peer that sends exactly 4 * k bytes and closes: the bytes decode to
    // the k values, in order
    let sent: Vec<f32> = vec![9.0, -8.5, 7.75];
    let wire = encode_words(&word_bits(&sent));
    let got = decode_batch(&wire, sent.len()).unwrap();
    let values: Vec<f32> = got.into_iter().map(f32::from_bits).collect();
    assert_eq!(values, sent);
}

#[test]
fn short_read_is_malformed() {
    let wire = encode_words(&word_bits(&[1.0, 2.0, 3.0]));
    // the peer closed after 8 of the 12 requested bytes
    assert_eq!(decode_batch(&wire[..8], 3), Err(WeightsError::Malformed));
}

#[test]
fn ragged_byte_count_is_malformed() {
    let mut wire = encode_words(&word_bits(&[1.0]));
    wire.push(0x01);
    assert_eq!(decode_batch(&wire, 1), Err(WeightsError::Malformed));
    assert_eq!(decode_batch(&wire, 2), Err(WeightsError::Malformed));
}

#[test]
fn decode_all_takes_only_complete_groups() {
    let wire = encode_words(&word_bits(&[5.0, 6.0]));
    assert_eq!(decode_all_words(&wire), word_bits(&[5.0, 6.0]));
    assert_eq!(decode_all_words(&wire[..7]), word_bits(&[5.0]));
    assert_eq!(decode_all_words(&wire[..3]), Vec::<u32>::new());
    assert_eq!(decode_all_words(&[]), Vec::<u32>::new());
}

#[test]
fn error_kinds_are_distinct() {
    assert_ne!(WeightsError::Exhausted, WeightsError::Malformed);
    assert_ne!(WeightsError::Exhausted, WeightsError::IoFailure);
    assert_ne!(WeightsError::Malformed, WeightsError::IoFailure);
}
