//! The receiving side: jitter handling, the PCM ring, and connection state.

pub mod jitter;
pub mod ring_buffer;
pub mod error;
pub mod state;
pub mod packet;
pub mod player;
pub mod receiver;
pub mod session;
pub mod native;
