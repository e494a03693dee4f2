//! The decisions of a receiving session: reconnect backoff, the handshake,
//! and the answer to each control message while streaming.

use vstd::prelude::*;
use std::time::Duration;
use crate::client::error::{client_error_text, ClientError};
use crate::client::ring_buffer::{PcmRingBuffer, RingView};
use crate::client::state::{ClientState, SharedState, SharedView};
use crate::protocol::control::{
    control_message_debug, push_control_message_debug, ControlMessage, StreamInfo, PROTOCOL_VERSION,
};
use crate::text::{decimal_digits, push_decimal, push_str};

verus! {

/// Seconds before the first reconnection attempt after a session ends.
pub const RETRY_INITIAL_DELAY_SECS: u64 = 1;
/// Upper bound, in seconds, of the backoff between reconnection attempts.
pub const RETRY_MAX_DELAY_SECS: u64 = 10;

/// The `Duration` of a whole number of seconds.
pub uninterp spec fn duration_of_secs(secs: u64) -> Duration;

/// `Duration::from_secs`: the duration of `secs` whole seconds.
#[verifier::external_body]
fn duration_from_secs(secs: u64) -> (d: Duration)
    ensures
        d == duration_of_secs(secs),
{
    Duration::from_secs(secs)
}

/// Seconds of backoff before reconnection attempt `attempt`: 1 s doubling per
/// failed attempt, capped at 10 s.
pub open spec fn retry_delay_secs(attempt: u32) -> u64 {
    if attempt == 0 {
        1
    } else if attempt == 1 {
        2
    } else if attempt == 2 {
        4
    } else if attempt == 3 {
        8
    } else {
        10
    }
}

/// Exponential backoff starting at 1 s, doubling per failed attempt, capped at 10 s.
pub fn retry_delay(attempt: u32) -> (delay: Duration)
    ensures
        delay == duration_of_secs(retry_delay_secs(attempt)),
{
    let shift: u32 = if attempt < 4 { attempt } else { 4 };
    let factor: u64 = if shift == 0 { 1 } else if shift == 1 { 2 } else if shift == 2 { 4 } else if shift == 3 { 8 } else { 16 };
    let secs: u64 = RETRY_INITIAL_DELAY_SECS * factor;
    let capped: u64 = if secs < RETRY_MAX_DELAY_SECS { secs } else { RETRY_MAX_DELAY_SECS };
    duration_from_secs(capped)
}

/// The backoff never shrinks from one attempt to the next, starts at one
/// second and never exceeds ten.
pub proof fn lemma_retry_delay_backs_off(a: u32, b: u32)
    requires
        a <= b,
    ensures
        retry_delay_secs(a) <= retry_delay_secs(b),
        RETRY_INITIAL_DELAY_SECS <= retry_delay_secs(a) <= RETRY_MAX_DELAY_SECS,
        retry_delay_secs(0) == RETRY_INITIAL_DELAY_SECS,
{
}

/// The message for a `Hello` of another protocol version.
pub open spec fn unsupported_version_message(version: u16) -> Seq<char> {
    "server uses unsupported protocol version "@ + decimal_digits(version as nat)
}

/// Checks the server's first message: it must be `Hello` with our protocol version.
pub fn expect_hello(message: ControlMessage) -> (result: Result<(), ClientError>)
    ensures
        match message {
            ControlMessage::Hello { protocol_version } => if protocol_version == PROTOCOL_VERSION {
                result is Ok
            } else {
                result matches Err(ClientError::Runtime(m)) && m@ == unsupported_version_message(protocol_version)
            },
            _ => result matches Err(ClientError::Runtime(m)) && m@ == "expected server Hello, got "@
                + control_message_debug(message),
        },
{
    let mut text = String::new();
    match message {
        ControlMessage::Hello { protocol_version } => {
            if protocol_version == PROTOCOL_VERSION {
                return Ok(());
            }
            push_str(&mut text, "server uses unsupported protocol version ");
            push_decimal(&mut text, protocol_version as u64);
        },
        _ => {
            push_str(&mut text, "expected server Hello, got ");
            push_control_message_debug(&mut text, message);
        },
    }
    Err(ClientError::Runtime(text))
}

/// Checks the server's second message: it must announce the stream format.
pub fn expect_stream_info(message: ControlMessage) -> (result: Result<StreamInfo, ClientError>)
    ensures
        match message {
            ControlMessage::StreamInfo(stream) => result == Ok::<StreamInfo, ClientError>(stream),
            _ => result matches Err(ClientError::Runtime(m)) && m@ == "expected StreamInfo, got "@
                + control_message_debug(message),
        },
{
    match message {
        ControlMessage::StreamInfo(stream) => Ok(stream),
        _ => {
            let mut text = String::new();
            push_str(&mut text, "expected StreamInfo, got ");
            push_control_message_debug(&mut text, message);
            Err(ClientError::Runtime(text))
        },
    }
}

/// Checks the server's third message: it must be `Start`.
pub fn expect_start(message: ControlMessage) -> (result: Result<(), ClientError>)
    ensures
        match message {
            ControlMessage::Start => result is Ok,
            _ => result matches Err(ClientError::Runtime(m)) && m@ == "expected Start, got "@
                + control_message_debug(message),
        },
{
    match message {
        ControlMessage::Start => Ok(()),
        _ => {
            let mut text = String::new();
            push_str(&mut text, "expected Start, got ");
            push_control_message_debug(&mut text, message);
            Err(ClientError::Runtime(text))
        },
    }
}

/// What a streaming client does with a control message from the server.
#[derive(Clone, Copy, Debug, PartialEq, Eq, Structural)]
pub enum ServerMessageAction {
    /// The server stopped the stream; the session ends normally.
    EndSession,
    /// Answer a ping with a pong that carries the same timestamp.
    SendPong { timestamp: u64 },
    /// A pong came back; record the round trip in milliseconds.
    RecordRtt { rtt_ms: u64 },
    /// A pong that claims to come from the future; nothing to record.
    Ignore,
}

/// Decides what to do with a control message received at `now_ms`
/// (milliseconds since the session connected); any message other than `Stop`,
/// `Ping` or `Pong` ends the session with an error.
pub fn handle_server_message(message: ControlMessage, now_ms: u64) -> (result: Result<ServerMessageAction, ClientError>)
    ensures
        match message {
            ControlMessage::Stop => result == Ok::<ServerMessageAction, ClientError>(ServerMessageAction::EndSession),
            ControlMessage::Ping { timestamp } => result == Ok::<ServerMessageAction, ClientError>(
                ServerMessageAction::SendPong { timestamp },
            ),
            ControlMessage::Pong { timestamp } => if now_ms >= timestamp {
                result == Ok::<ServerMessageAction, ClientError>(
                    ServerMessageAction::RecordRtt { rtt_ms: (now_ms - timestamp) as u64 },
                )
            } else {
                result == Ok::<ServerMessageAction, ClientError>(ServerMessageAction::Ignore)
            },
            _ => result matches Err(ClientError::Runtime(m)) && m@ == "unexpected control message: "@
                + control_message_debug(message),
        },
{
    match message {
        ControlMessage::Stop => Ok(ServerMessageAction::EndSession),
        ControlMessage::Ping { timestamp } => Ok(ServerMessageAction::SendPong { timestamp }),
        ControlMessage::Pong { timestamp } => {
            if now_ms >= timestamp {
                Ok(ServerMessageAction::RecordRtt { rtt_ms: now_ms - timestamp })
            } else {
                Ok(ServerMessageAction::Ignore)
            }
        },
        _ => {
            let mut text = String::new();
            push_str(&mut text, "unexpected control message: ");
            push_control_message_debug(&mut text, message);
            Err(ClientError::Runtime(text))
        },
    }
}

/// Milliseconds as a `u64`, saturating at `u64::MAX`.
pub fn millis_u64(millis: u128) -> (ms: u64)
    ensures
        ms == if millis > u64::MAX { u64::MAX as int } else { millis as int },
{
    if millis > u64::MAX as u128 {
        u64::MAX
    } else {
        millis as u64
    }
}

/// What the reconnecting loop does after a session has ended.
#[derive(Clone, Copy, Debug, PartialEq, Eq, Structural)]
pub enum SessionEnd {
    /// The user disconnected: stop for good.
    Stop,
    /// Wait `retry_delay(attempt)`, then connect again.
    RetryAfter { attempt: u32 },
}

/// How a session that the user did not stop ends: a clean end restarts the
/// backoff at attempt zero, a failure waits on the current attempt.
pub open spec fn retry_after(clean: bool, attempt: u32) -> SessionEnd {
    SessionEnd::RetryAfter { attempt: if clean { 0 } else { attempt } }
}

/// The attempt counter once the wait on `attempt` is over.
pub open spec fn attempt_after_wait(attempt: u32) -> u32 {
    if attempt == u32::MAX { u32::MAX } else { (attempt + 1) as u32 }
}

/// Closes a session: the ring is emptied; a user disconnect stops the loop in
/// `Disconnected`; otherwise a session that ended cleanly restarts the
/// backoff, and one that failed records its error and keeps the backoff.
pub fn end_session(
    state: &mut SharedState,
    ring: &mut PcmRingBuffer,
    stopped: bool,
    result: &Result<(), ClientError>,
    attempt: u32,
) -> (next: SessionEnd)
    requires
        old(ring)@.wf(),
    ensures
        final(ring)@ == (RingView { samples: Seq::<i16>::empty(), ..old(ring)@ }),
        stopped ==> next == SessionEnd::Stop && final(state)@ == (SharedView {
            state: ClientState::Disconnected,
            ..old(state)@
        }),
        !stopped ==> next == retry_after(result is Ok, attempt),
        !stopped ==> match result {
            Ok(()) => final(state)@ == old(state)@,
            Err(e) => final(state)@ == (SharedView {
                state: ClientState::Error,
                last_error: client_error_text(*e),
                ..old(state)@
            }),
        },
{
    ring.clear();
    if stopped {
        state.set(ClientState::Disconnected);
        return SessionEnd::Stop;
    }
    match result {
        Ok(()) => SessionEnd::RetryAfter { attempt: 0 },
        Err(e) => {
            let text = e.message();
            state.set_error(text.as_str());
            SessionEnd::RetryAfter { attempt }
        },
    }
}

/// After the backoff: count the attempt (saturating) and show `Connecting`.
pub fn backoff_elapsed(state: &mut SharedState, attempt: u32) -> (next_attempt: u32)
    ensures
        next_attempt == attempt_after_wait(attempt),
        final(state)@ == (SharedView { state: ClientState::Connecting, ..old(state)@ }),
{
    state.set(ClientState::Connecting);
    attempt.saturating_add(1)
}

/// How many sessions have ended since the last clean end, at session `i`:
/// zero for a clean end and for the very first session, one more than at the
/// session before for any other.
pub open spec fn since_last_clean(clean: Seq<bool>, i: int) -> nat
    decreases i,
{
    if i <= 0 || clean[i] {
        0
    } else {
        since_last_clean(clean, i - 1) + 1
    }
}

/// `n`, or `u32::MAX` if it does not fit.
pub open spec fn capped_u32(n: nat) -> u32 {
    if n > u32::MAX { u32::MAX } else { n as u32 }
}

/// Over any run of sessions that the user does not stop, with the attempt
/// counter starting at zero, the wait after session `i` is for the number of
/// sessions since the last clean end (capped at `u32::MAX`): the initial
/// delay right after a clean end or the first session, and a delay that never
/// shrinks from one failed session to the next.
pub proof fn lemma_reconnect_backoff(clean: Seq<bool>, attempts: Seq<u32>, waits: Seq<u32>)
    requires
        attempts.len() == clean.len() + 1,
        waits.len() == clean.len(),
        attempts[0] == 0,
        forall|i: int| 0 <= i < clean.len() ==> retry_after(clean[i], attempts[i]) == (SessionEnd::RetryAfter {
            attempt: #[trigger] waits[i],
        }),
        forall|i: int| 0 <= i < clean.len() ==> attempts[i + 1] == attempt_after_wait(#[trigger] waits[i]),
    ensures
        forall|i: int| 0 <= i < clean.len() ==> #[trigger] waits[i] == capped_u32(since_last_clean(clean, i)),
        forall|i: int| 0 <= i < clean.len() && clean[i] ==> retry_delay_secs(#[trigger] waits[i])
            == RETRY_INITIAL_DELAY_SECS,
        forall|i: int| 0 < i < clean.len() && !clean[i] ==> retry_delay_secs(waits[i - 1]) <= retry_delay_secs(
            #[trigger] waits[i],
        ),
{
    assert forall|i: int| 0 <= i < clean.len() implies #[trigger] waits[i] == capped_u32(since_last_clean(clean, i)) by {
        lemma_wait_is_run_length(clean, attempts, waits, i);
    }
    assert forall|i: int| 0 < i < clean.len() && !clean[i] implies retry_delay_secs(waits[i - 1]) <= retry_delay_secs(
        #[trigger] waits[i],
    ) by {
        assert(retry_after(clean[i], attempts[i]) == SessionEnd::RetryAfter { attempt: waits[i] });
        assert(attempts[i] == attempt_after_wait(waits[i - 1]));
        lemma_retry_delay_backs_off(waits[i - 1], waits[i]);
    }
    assert forall|i: int| 0 <= i < clean.len() && clean[i] implies retry_delay_secs(#[trigger] waits[i])
        == RETRY_INITIAL_DELAY_SECS by {
        assert(retry_after(clean[i], attempts[i]) == SessionEnd::RetryAfter { attempt: waits[i] });
    }
}

proof fn lemma_wait_is_run_length(clean: Seq<bool>, attempts: Seq<u32>, waits: Seq<u32>, i: int)
    requires
        0 <= i < clean.len(),
        attempts.len() == clean.len() + 1,
        waits.len() == clean.len(),
        attempts[0] == 0,
        forall|i: int| 0 <= i < clean.len() ==> retry_after(clean[i], attempts[i]) == (SessionEnd::RetryAfter {
            attempt: #[trigger] waits[i],
        }),
        forall|i: int| 0 <= i < clean.len() ==> attempts[i + 1] == attempt_after_wait(#[trigger] waits[i]),
    ensures
        waits[i] == capped_u32(since_last_clean(clean, i)),
    decreases i,
{
    assert(retry_after(clean[i], attempts[i]) == SessionEnd::RetryAfter { attempt: waits[i] });
    if i > 0 && !clean[i] {
        lemma_wait_is_run_length(clean, attempts, waits, i - 1);
        assert(attempts[i] == attempt_after_wait(waits[i - 1]));
    }
}

} // verus!
