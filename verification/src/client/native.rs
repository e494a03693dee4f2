//! What the platform bridge reads and does, given the engine's state and the
//! active PCM ring (either may be absent before a connection or after shutdown).

use vstd::prelude::*;
use crate::audio_common::frame::{CHANNELS, SAMPLE_RATE};
use crate::client::player::fill_audio_track;
use crate::client::ring_buffer::{min, read_output, wrapping_inc, PcmRingBuffer, RingView};
use crate::client::error::ClientError;
use crate::client::state::{ClientState, SharedState, SharedView};
use crate::text::push_str;
use crate::transport::error::TransportError;
use crate::transport::fingerprint::{parse_fingerprint, parsed_fingerprint};

verus! {

/// The jitter delay, in milliseconds, added to every latency estimate.
pub const TARGET_JITTER_DELAY_MS: u64 = 50;

/// Fills `output` for the platform audio thread from the active ring.
pub fn read_pcm(ring: Option<&mut PcmRingBuffer>, output: &mut [i16]) -> (actual: usize)
    requires
        match ring {
            Some(r) => r@.wf(),
            None => true,
        },
    ensures
        match ring {
            Some(r) => {
                &&& actual == min(old(output)@.len() as int, r@.samples.len() as int)
                &&& final(output)@ == read_output(r@.samples, old(output)@.len())
                &&& final(r)@.samples == r@.samples.skip(actual as int)
                &&& final(r)@.capacity == r@.capacity
                &&& final(r)@.overwritten_samples == r@.overwritten_samples
                &&& final(r)@.underruns == if actual < old(output)@.len() {
                    wrapping_inc(r@.underruns)
                } else {
                    r@.underruns
                }
                &&& final(r)@.wf()
            },
            None => actual == 0 && final(output)@ == read_output(Seq::empty(), old(output)@.len()),
        },
{
    fill_audio_track(ring, output)
}

/// The connection state, or `Idle` when no engine exists.
pub fn state(engine: Option<&SharedState>) -> (s: ClientState)
    ensures
        s == match engine {
            Some(e) => e@.state,
            None => ClientState::Idle,
        },
{
    match engine {
        Some(e) => e.state(),
        None => ClientState::Idle,
    }
}

/// The last error, or the empty text when no engine exists.
pub fn last_error(engine: Option<&SharedState>) -> (text: String)
    ensures
        text@ == match engine {
            Some(e) => e@.last_error,
            None => Seq::<char>::empty(),
        },
{
    match engine {
        Some(e) => e.last_error(),
        None => String::new(),
    }
}

pub fn received_packets(engine: Option<&SharedState>) -> (n: u64)
    ensures
        n == match engine {
            Some(e) => e@.received_packets,
            None => 0,
        },
{
    match engine {
        Some(e) => e.received_packets(),
        None => 0,
    }
}

pub fn lost_packets(engine: Option<&SharedState>) -> (n: u64)
    ensures
        n == match engine {
            Some(e) => e@.lost_packets,
            None => 0,
        },
{
    match engine {
        Some(e) => e.lost_packets(),
        None => 0,
    }
}

pub fn late_packets(engine: Option<&SharedState>) -> (n: u64)
    ensures
        n == match engine {
            Some(e) => e@.late_packets,
            None => 0,
        },
{
    match engine {
        Some(e) => e.late_packets(),
        None => 0,
    }
}

pub fn invalid_packets(engine: Option<&SharedState>) -> (n: u64)
    ensures
        n == match engine {
            Some(e) => e@.invalid_packets,
            None => 0,
        },
{
    match engine {
        Some(e) => e.invalid_packets(),
        None => 0,
    }
}

pub fn underruns(ring: Option<&PcmRingBuffer>) -> (n: u64)
    ensures
        n == match ring {
            Some(r) => r@.underruns,
            None => 0,
        },
{
    match ring {
        Some(r) => r.underruns(),
        None => 0,
    }
}

pub fn overwritten_samples(ring: Option<&PcmRingBuffer>) -> (n: u64)
    ensures
        n == match ring {
            Some(r) => r@.overwritten_samples,
            None => 0,
        },
{
    match ring {
        Some(r) => r.overwritten_samples(),
        None => 0,
    }
}

/// Milliseconds of audio held by a ring of `samples` interleaved stereo samples at 48 kHz.
pub open spec fn buffered_ms(samples: nat) -> nat {
    samples * 1000 / 96000
}

/// Whether computing the buffered milliseconds stays within `u64`.
pub open spec fn buffer_fits(ring: Option<&PcmRingBuffer>) -> bool {
    match ring {
        Some(r) => r@.samples.len() * 1000 <= u64::MAX,
        None => true,
    }
}

/// The audio held in the active ring, in milliseconds.
pub fn buffer_duration_ms(ring: Option<&PcmRingBuffer>) -> (ms: u64)
    requires
        buffer_fits(ring),
    ensures
        ms == match ring {
            Some(r) => buffered_ms(r@.samples.len()),
            None => 0,
        },
{
    match ring {
        Some(r) => {
            let samples = r.available_samples() as u64;
            let per_second: u64 = (SAMPLE_RATE as u64) * (CHANNELS as u64);
            assert(per_second == 96000);
            samples * 1_000 / per_second
        },
        None => 0,
    }
}

/// A conservative latency estimate: half the round trip, plus the audio
/// buffered in the ring, plus the jitter target. It is an estimate, not a
/// measurement of speaker output time.
pub fn estimated_latency_ms(engine: Option<&SharedState>, ring: Option<&PcmRingBuffer>) -> (ms: u64)
    requires
        buffer_fits(ring),
    ensures
        ms == match engine {
            Some(e) => e@.rtt_ms / 2,
            None => 0,
        } + match ring {
            Some(r) => buffered_ms(r@.samples.len()),
            None => 0,
        } + 50,
{
    let rtt_half = match engine {
        Some(e) => e.rtt_ms() / 2,
        None => 0,
    };
    let buffered = buffer_duration_ms(ring);
    assert(buffered <= u64::MAX / 96000 + 1) by (nonlinear_arith)
        requires
            buffered * 96000 <= u64::MAX,
    ;
    rtt_half + buffered + TARGET_JITTER_DELAY_MS
}

/// A counter as a Java `long`, saturating instead of wrapping.
pub fn to_jlong(value: u64) -> (v: i64)
    ensures
        v == if value > i64::MAX { i64::MAX as int } else { value as int },
{
    if value > i64::MAX as u64 {
        i64::MAX
    } else {
        value as i64
    }
}

/// A user disconnect: the session's ring is emptied and the state becomes `Disconnected`.
pub fn disconnect(engine: Option<&mut SharedState>, session_ring: Option<&mut PcmRingBuffer>)
    requires
        match session_ring {
            Some(r) => r@.wf(),
            None => true,
        },
    ensures
        match engine {
            Some(e) => final(e)@ == (SharedView { state: ClientState::Disconnected, ..e@ }),
            None => true,
        },
        match session_ring {
            Some(r) => final(r)@ == (RingView { samples: Seq::<i16>::empty(), ..r@ }),
            None => true,
        },
{
    if let Some(ring) = session_ring {
        ring.clear();
    }
    if let Some(e) = engine {
        e.set(ClientState::Disconnected);
    }
}

/// Shutting the engine down empties the session's ring.
pub fn shutdown(session_ring: Option<&mut PcmRingBuffer>)
    requires
        match session_ring {
            Some(r) => r@.wf(),
            None => true,
        },
    ensures
        match session_ring {
            Some(r) => final(r)@ == (RingView { samples: Seq::<i16>::empty(), ..r@ }),
            None => true,
        },
{
    if let Some(ring) = session_ring {
        ring.clear();
    }
}

/// The port that the platform passed for a connection, refused unless it is
/// between 1 and 65535.
pub fn validate_port(port: i32) -> (result: Result<u16, ClientError>)
    ensures
        1 <= port <= 65535 ==> result == Ok::<u16, ClientError>(port as u16),
        !(1 <= port <= 65535) ==> (result matches Err(ClientError::Runtime(m)) && m@
            == "port must be between 1 and 65535"@),
{
    if 1 <= port && port <= 65535 {
        Ok(port as u16)
    } else {
        let mut text = String::new();
        push_str(&mut text, "port must be between 1 and 65535");
        Err(ClientError::Runtime(text))
    }
}

/// The certificate pin typed by the user, with a parse failure reported as a transport error.
pub fn parse_pin(text: &str) -> (result: Result<[u8; 32], ClientError>)
    ensures
        match result {
            Ok(pin) => parsed_fingerprint(text@, Ok::<[u8; 32], TransportError>(pin)),
            Err(ClientError::Transport(e)) => parsed_fingerprint(text@, Err::<[u8; 32], TransportError>(e)),
            Err(_) => false,
        },
{
    match parse_fingerprint(text) {
        Ok(pin) => Ok(pin),
        Err(e) => Err(ClientError::Transport(e)),
    }
}

} // verus!
