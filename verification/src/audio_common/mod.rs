//! PCM format arithmetic and the single-producer, single-consumer PCM ring.

pub mod frame;
pub mod ring_buffer;
