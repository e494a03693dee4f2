//! Packet sizing derived from the negotiated stream format.

use vstd::prelude::*;
use crate::audio_common::frame::{CHANNELS, SAMPLE_RATE};
use crate::client::error::ClientError;
use crate::protocol::control::{push_stream_info_debug, stream_info_debug, SampleFormat, StreamInfo};
use crate::text::push_str;

verus! {

/// Packet sizing derived from negotiated `StreamInfo`.
#[derive(Clone, Copy, Debug, PartialEq, Eq)]
pub struct PacketLayout {
    pub samples_per_packet: usize,
    pub samples_per_channel: u64,
    pub expected_packet_bytes: usize,
}

/// Whether the receiver can play a stream of this format.
pub open spec fn supported_stream(stream: StreamInfo) -> bool {
    stream.sample_rate == SAMPLE_RATE && stream.channels == CHANNELS && stream.frame_duration_ms != 0
}

/// The layout of a 48 kHz stereo i16 stream with frames of `stream.frame_duration_ms`;
/// any other format is refused with a message that names it.
pub fn pcm_packet_layout(stream: StreamInfo) -> (result: Result<PacketLayout, ClientError>)
    ensures
        supported_stream(stream) ==> (result matches Ok(layout) && {
            &&& layout.samples_per_channel == 48 * stream.frame_duration_ms
            &&& layout.samples_per_packet == 96 * stream.frame_duration_ms
            &&& layout.expected_packet_bytes == 192 * stream.frame_duration_ms
        }),
        !supported_stream(stream) ==> (result matches Err(ClientError::UnsupportedStream(message))
            && message@ == "expected 48000 Hz stereo i16, received "@ + stream_info_debug(stream)),
{
    if stream.sample_rate != SAMPLE_RATE || stream.channels != CHANNELS
        || !matches!(stream.sample_format, SampleFormat::I16Le) || stream.frame_duration_ms == 0 {
        let mut message = String::new();
        push_str(&mut message, "expected 48000 Hz stereo i16, received ");
        push_stream_info_debug(&mut message, stream);
        return Err(ClientError::UnsupportedStream(message));
    }
    let samples_per_channel = match (SAMPLE_RATE as usize).checked_mul(stream.frame_duration_ms as usize) {
        Some(n) => n,
        None => {
            let mut message = String::new();
            push_str(&mut message, "frame size overflow");
            return Err(ClientError::UnsupportedStream(message));
        },
    };
    if samples_per_channel == 0 || samples_per_channel % 1_000 != 0 {
        let mut message = String::new();
        push_str(&mut message, "frame duration does not align to 48 kHz samples");
        return Err(ClientError::UnsupportedStream(message));
    }
    assert(samples_per_channel == 48000 * stream.frame_duration_ms);
    let samples_per_channel = samples_per_channel / 1_000;
    assert(samples_per_channel == 48 * stream.frame_duration_ms);
    assert(samples_per_channel <= 12240);
    let channels = CHANNELS as usize;
    assert(samples_per_channel * channels == 96 * stream.frame_duration_ms) by (nonlinear_arith)
        requires
            samples_per_channel == 48 * stream.frame_duration_ms,
            channels == 2,
    ;
    let samples_per_packet = samples_per_channel * channels;
    let expected_packet_bytes = samples_per_packet * 2;
    Ok(PacketLayout {
        samples_per_packet,
        samples_per_channel: samples_per_channel as u64,
        expected_packet_bytes,
    })
}

} // verus!
