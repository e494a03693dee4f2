//! The audio datagram: a fixed 12-byte network-order header and PCM bytes.

use vstd::prelude::*;
use crate::text::{decimal_digits, push_decimal, push_str};
use crate::endian::{
    lemma_u32_be_bytes_of_value, lemma_u32_be_round_trip, lemma_u64_be_bytes_of_value,
    lemma_u64_be_round_trip, push_u32_be, push_u64_be, u32_be_bytes, u32_from_be, u64_be_bytes,
    u64_from_be,
};

verus! {

/// Bytes occupied by the fixed audio datagram header.
pub const AUDIO_PACKET_HEADER_LEN: usize = 12;

/// A single real-time audio datagram.
///
/// `sequence` increments once per PCM frame. `timestamp` is the source sample
/// position, not wall-clock time. Header integers are encoded in network byte
/// order (big endian); the payload holds little-endian signed 16-bit samples.
#[derive(Clone, Debug, PartialEq, Eq)]
pub struct AudioPacket {
    pub sequence: u32,
    pub timestamp: u64,
    pub payload: Vec<u8>,
}

/// Why a datagram could not be parsed as an audio packet.
#[derive(Clone, Debug, PartialEq, Eq)]
pub enum PacketError {
    TooShort { actual: usize, minimum: usize },
    Malformed,
}

/// The text of a packet error, as its display shows it.
pub open spec fn packet_error_text(e: PacketError) -> Seq<char> {
    match e {
        PacketError::TooShort { actual, minimum } => "audio packet is "@ + decimal_digits(actual as nat)
            + " bytes, but needs at least "@ + decimal_digits(minimum as nat) + " bytes"@,
        PacketError::Malformed => "audio packet header is malformed"@,
    }
}

impl PacketError {
    /// The error's message.
    pub fn message(&self) -> (text: String)
        ensures
            text@ == packet_error_text(*self),
    {
        let mut text = String::new();
        match self {
            PacketError::TooShort { actual, minimum } => {
                push_str(&mut text, "audio packet is ");
                push_decimal(&mut text, *actual as u64);
                push_str(&mut text, " bytes, but needs at least ");
                push_decimal(&mut text, *minimum as u64);
                push_str(&mut text, " bytes");
            },
            PacketError::Malformed => push_str(&mut text, "audio packet header is malformed"),
        }
        assert(text@ =~= packet_error_text(*self));
        text
    }
}

/// The wire bytes of a packet: sequence, timestamp, then the payload.
pub open spec fn packet_wire_bytes(sequence: u32, timestamp: u64, payload: Seq<u8>) -> Seq<u8> {
    u32_be_bytes(sequence) + u64_be_bytes(timestamp) + payload
}

impl AudioPacket {
    pub fn new(sequence: u32, timestamp: u64, payload: Vec<u8>) -> (packet: Self)
        ensures
            packet.sequence == sequence,
            packet.timestamp == timestamp,
            packet.payload@ == payload@,
    {
        AudioPacket { sequence, timestamp, payload }
    }

    /// Serializes this packet into the exact wire format used in QUIC datagrams.
    pub fn encode(&self) -> (encoded: Vec<u8>)
        ensures
            encoded@ == packet_wire_bytes(self.sequence, self.timestamp, self.payload@),
    {
        let mut encoded: Vec<u8> = Vec::new();
        push_u32_be(&mut encoded, self.sequence);
        push_u64_be(&mut encoded, self.timestamp);
        let ghost header = encoded@;
        let n = self.payload.len();
        let mut i: usize = 0;
        while i < n
            invariant
                n == self.payload@.len(),
                i <= n,
                header == u32_be_bytes(self.sequence) + u64_be_bytes(self.timestamp),
                encoded@ == header + self.payload@.subrange(0, i as int),
            decreases n - i,
        {
            encoded.push(self.payload[i]);
            i += 1;
            assert(encoded@ =~= header + self.payload@.subrange(0, i as int));
        }
        assert(self.payload@.subrange(0, n as int) =~= self.payload@);
        encoded
    }

    /// Parses a packet from its wire format.
    pub fn decode(encoded: &[u8]) -> (result: Result<AudioPacket, PacketError>)
        ensures
            encoded@.len() < AUDIO_PACKET_HEADER_LEN <==> result == Err::<AudioPacket, PacketError>(
                PacketError::TooShort { actual: encoded@.len() as usize, minimum: AUDIO_PACKET_HEADER_LEN },
            ),
            encoded@.len() >= AUDIO_PACKET_HEADER_LEN ==> (result matches Ok(packet) && {
                &&& packet.sequence == u32_from_be(encoded@.subrange(0, 4))
                &&& packet.timestamp == u64_from_be(encoded@.subrange(4, 12))
                &&& packet.payload@ == encoded@.subrange(12, encoded@.len() as int)
            }),
    {
        if encoded.len() < AUDIO_PACKET_HEADER_LEN {
            return Err(PacketError::TooShort { actual: encoded.len(), minimum: AUDIO_PACKET_HEADER_LEN });
        }
        let sequence: u32 = ((encoded[0] as u32) << 24) | ((encoded[1] as u32) << 16)
            | ((encoded[2] as u32) << 8) | (encoded[3] as u32);
        let timestamp: u64 = ((encoded[4] as u64) << 56) | ((encoded[5] as u64) << 48)
            | ((encoded[6] as u64) << 40) | ((encoded[7] as u64) << 32) | ((encoded[8] as u64) << 24)
            | ((encoded[9] as u64) << 16) | ((encoded[10] as u64) << 8) | (encoded[11] as u64);
        let n = encoded.len();
        let mut payload: Vec<u8> = Vec::new();
        let mut i: usize = AUDIO_PACKET_HEADER_LEN;
        while i < n
            invariant
                n == encoded@.len(),
                AUDIO_PACKET_HEADER_LEN <= i <= n,
                payload@ == encoded@.subrange(12, i as int),
            decreases n - i,
        {
            payload.push(encoded[i]);
            i += 1;
            assert(payload@ =~= encoded@.subrange(12, i as int));
        }
        Ok(AudioPacket { sequence, timestamp, payload })
    }
}

/// Decoding the encoding of any packet gives back that packet.
pub proof fn lemma_decode_encode(sequence: u32, timestamp: u64, payload: Seq<u8>)
    ensures
        ({
            let wire = packet_wire_bytes(sequence, timestamp, payload);
            &&& wire.len() == AUDIO_PACKET_HEADER_LEN + payload.len()
            &&& u32_from_be(wire.subrange(0, 4)) == sequence
            &&& u64_from_be(wire.subrange(4, 12)) == timestamp
            &&& wire.subrange(12, wire.len() as int) == payload
        }),
{
    lemma_u32_be_round_trip(sequence);
    lemma_u64_be_round_trip(timestamp);
    let wire = packet_wire_bytes(sequence, timestamp, payload);
    assert(wire.subrange(0, 4) =~= u32_be_bytes(sequence));
    assert(wire.subrange(4, 12) =~= u64_be_bytes(timestamp));
    assert(wire.subrange(12, wire.len() as int) =~= payload);
}

/// Encoding the packet decoded from any datagram of at least a header's length
/// gives back that datagram.
pub proof fn lemma_encode_decode(wire: Seq<u8>)
    requires
        wire.len() >= AUDIO_PACKET_HEADER_LEN,
    ensures
        packet_wire_bytes(
            u32_from_be(wire.subrange(0, 4)),
            u64_from_be(wire.subrange(4, 12)),
            wire.subrange(12, wire.len() as int),
        ) == wire,
{
    lemma_u32_be_bytes_of_value(wire.subrange(0, 4));
    lemma_u64_be_bytes_of_value(wire.subrange(4, 12));
    assert(packet_wire_bytes(
        u32_from_be(wire.subrange(0, 4)),
        u64_from_be(wire.subrange(4, 12)),
        wire.subrange(12, wire.len() as int),
    ) =~= wire);
}

} // verus!
