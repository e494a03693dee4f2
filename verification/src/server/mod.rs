//! The sending side: assembling captured PCM into blocks, packetizing blocks
//! for the negotiated packet duration, the server's handshake, and the choice
//! of the address that the pairing QR code advertises.

pub mod capture;
pub mod network;
pub mod pairing;
pub mod qr;
pub mod device;
pub mod ui;
