//! Streaming sources of 32-bit weight words.
//!
//! A weights source hands out fixed-size batches of 32-bit IEEE-754 values,
//! here carried as their bit patterns (`u32` words) so that the chunking
//! logic can be verified; callers that want floats reinterpret each word
//! with `f32::from_bits`. Three in-memory backends live here in full; the
//! byte codec that the file- and socket-backed variants share lives in
//! `codec`, so that an I/O shell only has to move raw bytes.

pub mod array;
pub mod buffer;
pub mod codec;
pub mod preload;
pub mod synth;

pub use array::TestWeightsBuffer;
pub use buffer::WeightsBuffer;
pub use buffer::WeightsError;
pub use preload::MemTcpWeightsBuffer;
pub use synth::RandomWeightsBuffer;
