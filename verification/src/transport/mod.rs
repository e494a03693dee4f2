//! QUIC helpers: errors, control-stream framing, datagram sizing,
//! certificate fingerprints and pairing URIs.

pub mod error;
pub mod fingerprint;
pub mod control;
pub mod datagram;
pub mod pairing;
pub mod identity;
