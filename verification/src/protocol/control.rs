//! Control messages exchanged over the reliable QUIC stream.

use vstd::prelude::*;
use crate::text::{decimal_digits, push_decimal, push_str};

verus! {

/// The protocol version that both ends announce in `Hello`.
pub const PROTOCOL_VERSION: u16 = 1;

/// Audio sample representation advertised before streaming begins.
#[derive(Clone, Copy, Debug, PartialEq, Eq, Structural)]
pub enum SampleFormat {
    I16Le,
}

/// Immutable format information for an audio stream.
#[derive(Clone, Copy, Debug, PartialEq, Eq, Structural)]
pub struct StreamInfo {
    pub sample_rate: u32,
    pub channels: u8,
    pub sample_format: SampleFormat,
    pub frame_duration_ms: u8,
}

/// Control messages travel over a reliable, length-delimited QUIC bidirectional stream.
#[derive(Clone, Copy, Debug, PartialEq, Eq, Structural)]
pub enum ControlMessage {
    Hello { protocol_version: u16 },
    StreamInfo(StreamInfo),
    Start,
    Stop,
    Ping { timestamp: u64 },
    Pong { timestamp: u64 },
}

/// The text that `{:?}` gives for a `StreamInfo`.
pub open spec fn stream_info_debug(stream: StreamInfo) -> Seq<char> {
    "StreamInfo { sample_rate: "@ + decimal_digits(stream.sample_rate as nat) + ", channels: "@
        + decimal_digits(stream.channels as nat) + ", sample_format: I16Le, frame_duration_ms: "@
        + decimal_digits(stream.frame_duration_ms as nat) + " }"@
}

/// Writes the `{:?}` text of a `StreamInfo`.
pub fn push_stream_info_debug(s: &mut String, stream: StreamInfo)
    ensures
        final(s)@ == old(s)@ + stream_info_debug(stream),
{
    push_str(s, "StreamInfo { sample_rate: ");
    push_decimal(s, stream.sample_rate as u64);
    push_str(s, ", channels: ");
    push_decimal(s, stream.channels as u64);
    push_str(s, ", sample_format: I16Le, frame_duration_ms: ");
    push_decimal(s, stream.frame_duration_ms as u64);
    push_str(s, " }");
    assert(final(s)@ =~= old(s)@ + stream_info_debug(stream));
}

/// The text that `{:?}` gives for a control message.
pub open spec fn control_message_debug(message: ControlMessage) -> Seq<char> {
    match message {
        ControlMessage::Hello { protocol_version } => "Hello { protocol_version: "@ + decimal_digits(
            protocol_version as nat,
        ) + " }"@,
        ControlMessage::StreamInfo(stream) => "StreamInfo("@ + stream_info_debug(stream) + ")"@,
        ControlMessage::Start => "Start"@,
        ControlMessage::Stop => "Stop"@,
        ControlMessage::Ping { timestamp } => "Ping { timestamp: "@ + decimal_digits(timestamp as nat) + " }"@,
        ControlMessage::Pong { timestamp } => "Pong { timestamp: "@ + decimal_digits(timestamp as nat) + " }"@,
    }
}

/// Writes the `{:?}` text of a control message.
pub fn push_control_message_debug(s: &mut String, message: ControlMessage)
    ensures
        final(s)@ == old(s)@ + control_message_debug(message),
{
    match message {
        ControlMessage::Hello { protocol_version } => {
            push_str(s, "Hello { protocol_version: ");
            push_decimal(s, protocol_version as u64);
            push_str(s, " }");
        },
        ControlMessage::StreamInfo(stream) => {
            push_str(s, "StreamInfo(");
            push_stream_info_debug(s, stream);
            push_str(s, ")");
        },
        ControlMessage::Start => push_str(s, "Start"),
        ControlMessage::Stop => push_str(s, "Stop"),
        ControlMessage::Ping { timestamp } => {
            push_str(s, "Ping { timestamp: ");
            push_decimal(s, timestamp);
            push_str(s, " }");
        },
        ControlMessage::Pong { timestamp } => {
            push_str(s, "Pong { timestamp: ");
            push_decimal(s, timestamp);
            push_str(s, " }");
        },
    }
    assert(final(s)@ =~= old(s)@ + control_message_debug(message));
}

} // verus!
