//! Length-delimited framing of control messages on the reliable stream.

use vstd::prelude::*;
use crate::endian::{lemma_u16_be_round_trip, push_u16_be, u16_be_bytes, u16_from_be};
use crate::transport::error::TransportError;

verus! {

/// The largest encoded control message either side sends or accepts.
pub const MAX_CONTROL_MESSAGE_BYTES: usize = 4096;

/// The frame that carries an encoded message: its length as a big-endian
/// `u16`, then the message.
pub open spec fn control_frame(encoded: Seq<u8>) -> Seq<u8> {
    u16_be_bytes(encoded.len() as u16) + encoded
}

/// Frames an encoded control message for the stream, refusing one longer
/// than `MAX_CONTROL_MESSAGE_BYTES`.
pub fn frame_control_message(encoded: &[u8]) -> (result: Result<Vec<u8>, TransportError>)
    ensures
        encoded@.len() > MAX_CONTROL_MESSAGE_BYTES ==> result == Err::<Vec<u8>, TransportError>(
            TransportError::ControlMessageTooLarge {
                actual: encoded@.len() as usize,
                maximum: MAX_CONTROL_MESSAGE_BYTES,
            },
        ),
        encoded@.len() <= MAX_CONTROL_MESSAGE_BYTES ==> (result matches Ok(frame) && frame@
            == control_frame(encoded@)),
{
    let n = encoded.len();
    if n > MAX_CONTROL_MESSAGE_BYTES || n > 65535 {
        return Err(TransportError::ControlMessageTooLarge { actual: n, maximum: MAX_CONTROL_MESSAGE_BYTES });
    }
    let mut frame: Vec<u8> = Vec::new();
    push_u16_be(&mut frame, n as u16);
    let ghost header = frame@;
    let mut i: usize = 0;
    while i < n
        invariant
            n == encoded@.len(),
            i <= n,
            header == u16_be_bytes(n as u16),
            frame@ == header + encoded@.subrange(0, i as int),
        decreases n - i,
    {
        frame.push(encoded[i]);
        i += 1;
        assert(frame@ =~= header + encoded@.subrange(0, i as int));
    }
    assert(encoded@.subrange(0, n as int) =~= encoded@);
    Ok(frame)
}

/// Reads the length header of the next control message, refusing a length
/// over `MAX_CONTROL_MESSAGE_BYTES`.
pub fn control_message_length(header: [u8; 2]) -> (result: Result<usize, TransportError>)
    ensures
        u16_from_be(header@) > MAX_CONTROL_MESSAGE_BYTES ==> result == Err::<usize, TransportError>(
            TransportError::ControlMessageTooLarge {
                actual: u16_from_be(header@) as usize,
                maximum: MAX_CONTROL_MESSAGE_BYTES,
            },
        ),
        u16_from_be(header@) <= MAX_CONTROL_MESSAGE_BYTES ==> result == Ok::<usize, TransportError>(
            u16_from_be(header@) as usize,
        ),
{
    let length = (((header[0] as u16) << 8) | (header[1] as u16)) as usize;
    if length > MAX_CONTROL_MESSAGE_BYTES {
        return Err(TransportError::ControlMessageTooLarge { actual: length, maximum: MAX_CONTROL_MESSAGE_BYTES });
    }
    Ok(length)
}

/// The length header of a frame reads back as the length of the framed
/// message, and the message follows it unchanged.
pub proof fn lemma_control_frame_round_trip(encoded: Seq<u8>)
    requires
        encoded.len() <= MAX_CONTROL_MESSAGE_BYTES,
    ensures
        u16_from_be(control_frame(encoded).subrange(0, 2)) == encoded.len(),
        control_frame(encoded).subrange(2, control_frame(encoded).len() as int) == encoded,
{
    lemma_u16_be_round_trip(encoded.len() as u16);
    let f = control_frame(encoded);
    assert(f.subrange(0, 2) =~= u16_be_bytes(encoded.len() as u16));
    assert(f.subrange(2, f.len() as int) =~= encoded);
}

} // verus!
