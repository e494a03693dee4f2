//! Soundwave: the verified core of a LAN audio streamer.
//!
//! The crate holds the wire formats (audio datagrams, control-stream framing,
//! certificate fingerprints, pairing URIs), the receiver's jitter buffer and
//! PCM rings, the connection state that the user interface reads, and the
//! sender's packetizing and pairing decisions.

pub mod text;
pub mod endian;
pub mod protocol;
pub mod audio_common;
pub mod client;
pub mod transport;
pub mod server;
