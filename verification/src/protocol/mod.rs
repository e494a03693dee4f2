//! Platform-independent wire protocol: audio datagrams and control messages.

pub mod audio;
pub mod control;
