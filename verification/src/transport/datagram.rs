//! Sizing and coding of audio datagrams on a QUIC connection.

use vstd::prelude::*;
use crate::protocol::audio::{
    packet_error_text, packet_wire_bytes, AudioPacket, PacketError, AUDIO_PACKET_HEADER_LEN,
};
use crate::endian::{u32_from_be, u64_from_be};
use crate::transport::error::TransportError;

verus! {

/// A connection carries audio datagrams only when its peer advertises a
/// maximum datagram size.
pub fn check_datagram_support(max_datagram_size: Option<usize>) -> (result: Result<(), TransportError>)
    ensures
        max_datagram_size is Some <==> result is Ok,
        max_datagram_size is None ==> result == Err::<(), TransportError>(TransportError::DatagramUnsupported),
{
    match max_datagram_size {
        Some(_) => Ok(()),
        None => Err(TransportError::DatagramUnsupported),
    }
}

/// The audio payload that fits one datagram after the packet header.
pub fn max_payload_len(max_datagram_size: Option<usize>) -> (n: usize)
    ensures
        n == match max_datagram_size {
            Some(m) => if m >= AUDIO_PACKET_HEADER_LEN { (m - AUDIO_PACKET_HEADER_LEN) as usize } else { 0 },
            None => 0,
        },
{
    let size = match max_datagram_size {
        Some(m) => m,
        None => 0,
    };
    size.saturating_sub(AUDIO_PACKET_HEADER_LEN)
}

/// Encodes a packet for sending, refusing it when the connection has no
/// datagram support or the encoding exceeds the maximum datagram size.
pub fn encode_datagram(packet: &AudioPacket, max_datagram_size: Option<usize>) -> (result: Result<Vec<u8>, TransportError>)
    ensures
        ({
            let wire = packet_wire_bytes(packet.sequence, packet.timestamp, packet.payload@);
            match max_datagram_size {
                None => result == Err::<Vec<u8>, TransportError>(TransportError::DatagramUnsupported),
                Some(m) => if wire.len() > m {
                    result == Err::<Vec<u8>, TransportError>(
                        TransportError::DatagramTooLarge { actual: wire.len() as usize, maximum: m },
                    )
                } else {
                    result matches Ok(bytes) && bytes@ == wire
                },
            }
        }),
{
    let encoded = packet.encode();
    let allowed = match max_datagram_size {
        Some(m) => m,
        None => return Err(TransportError::DatagramUnsupported),
    };
    if encoded.len() > allowed {
        return Err(TransportError::DatagramTooLarge { actual: encoded.len(), maximum: allowed });
    }
    Ok(encoded)
}

/// Decodes a received datagram; a malformed one becomes a transport error
/// that carries the packet error's message.
pub fn decode_datagram(encoded: &[u8]) -> (result: Result<AudioPacket, TransportError>)
    ensures
        encoded@.len() < AUDIO_PACKET_HEADER_LEN ==> (result matches Err(TransportError::Quinn(m))
            && m@ == packet_error_text(
            PacketError::TooShort { actual: encoded@.len() as usize, minimum: AUDIO_PACKET_HEADER_LEN },
        )),
        encoded@.len() >= AUDIO_PACKET_HEADER_LEN ==> (result matches Ok(packet) && {
            &&& packet.sequence == u32_from_be(encoded@.subrange(0, 4))
            &&& packet.timestamp == u64_from_be(encoded@.subrange(4, 12))
            &&& packet.payload@ == encoded@.subrange(12, encoded@.len() as int)
        }),
{
    match AudioPacket::decode(encoded) {
        Ok(packet) => Ok(packet),
        Err(error) => Err(TransportError::Quinn(error.message())),
    }
}

} // verus!
