use std::time::Duration;

use soundwave::client::error::ClientError;
use soundwave::client::native;
use soundwave::client::jitter::{sequence_is_after, sequence_is_before, JitterBuffer, JitterOutput};
use soundwave::client::packet::pcm_packet_layout;
use soundwave::client::receiver::ReceiverPipeline;
use soundwave::client::ring_buffer::{PcmRingBuffer, PCM_RING_CAPACITY_SAMPLES};
use soundwave::client::session::{
    backoff_elapsed, end_session, expect_hello, expect_start, expect_stream_info, handle_server_message, millis_u64,
    retry_delay, ServerMessageAction, SessionEnd,
};
use soundwave::client::state::{ClientState, SharedState};
use soundwave::protocol::audio::AudioPacket;
use soundwave::protocol::control::{ControlMessage, SampleFormat, StreamInfo, PROTOCOL_VERSION};

fn packet(sequence: u32) -> AudioPacket {
    AudioPacket::new(sequence, u64::from(sequence) * 480, vec![0, 0])
}

fn sequences(outputs: Vec<JitterOutput>) -> Vec<u32> {
    outputs
        .into_iter()
        .map(|output| match output {
            JitterOutput::Audio(packet) => packet.sequence,
            JitterOutput::Silence => 0,
        })
        .collect()
}

fn stream(frame_duration_ms: u8) -> StreamInfo {
    StreamInfo { sample_rate: 48_000, channels: 2, sample_format: SampleFormat::I16Le, frame_duration_ms }
}

#[test]
fn retry_delay_backs_off_and_caps_at_max() {
    assert_eq!(retry_delay(0), Duration::from_secs(1));
    assert_eq!(retry_delay(1), Duration::from_secs(2));
    assert_eq!(retry_delay(2), Duration::from_secs(4));
    assert_eq!(retry_delay(3), Duration::from_secs(8));
    assert_eq!(retry_delay(4), Duration::from_secs(10));
    assert_eq!(retry_delay(5), Duration::from_secs(10));
    assert_eq!(retry_delay(u32::MAX), Duration::from_secs(10));
}

#[test]
fn retry_delay_never_shrinks() {
    let mut previous = retry_delay(0);
    for attempt in 1..64u32 {
        let delay = retry_delay(attempt);
        assert!(previous <= delay);
        assert!(delay <= Duration::from_secs(10));
        previous = delay;
    }
}

#[test]
fn handles_minor_reordering() {
    let mut jitter = JitterBuffer::new(2, 480);
    assert_eq!(sequences(jitter.push(packet(1))), Vec::<u32>::new());
    assert_eq!(sequences(jitter.push(packet(2))), vec![1, 2]);
    assert_eq!(sequences(jitter.push(packet(4))), Vec::<u32>::new());
    assert_eq!(sequences(jitter.push(packet(3))), vec![3, 4]);
    assert_eq!(jitter.lost_packets(), 0);
}

#[test]
fn converts_missing_packet_to_silence() {
    let mut jitter = JitterBuffer::new(2, 480);
    let _ = jitter.push(packet(1));
    assert_eq!(sequences(jitter.push(packet(2))), vec![1, 2]);
    let _ = jitter.push(packet(4));
    assert_eq!(sequences(jitter.push(packet(5))), vec![0, 4, 5]);
    assert_eq!(jitter.lost_packets(), 1);
}

#[test]
fn late_and_duplicate_packets_are_counted_and_dropped() {
    let mut jitter = JitterBuffer::new(1, 480);
    assert_eq!(sequences(jitter.push(packet(10))), vec![10]);
    assert_eq!(sequences(jitter.push(packet(11))), vec![11]);
    assert_eq!(sequences(jitter.push(packet(11))), Vec::<u32>::new());
    assert_eq!(sequences(jitter.push(packet(3))), Vec::<u32>::new());
    assert_eq!(jitter.late_packets(), 2);
    assert_eq!(jitter.lost_packets(), 0);
}

#[test]
fn drained_audio_comes_out_in_sequence_order() {
    let mut jitter = JitterBuffer::new(3, 480);
    let mut all = Vec::new();
    for sequence in [5u32, 7, 6, 9, 8, 10, 11] {
        all.extend(sequences(jitter.push(packet(sequence))));
    }
    assert_eq!(all, vec![5, 6, 7, 8, 9, 10, 11]);
}

#[test]
fn sequence_order_wraps_around() {
    assert!(sequence_is_before(u32::MAX, 0));
    assert!(sequence_is_after(0, u32::MAX));
    assert!(!sequence_is_before(5, 5));
    assert!(!sequence_is_after(5, 5));
    assert!(sequence_is_before(1, 2));
    assert!(!sequence_is_before(2, 1));
}

#[test]
fn five_millisecond_pcm_layout_is_960_bytes() {
    let layout = pcm_packet_layout(StreamInfo {
        sample_rate: 48_000,
        channels: 2,
        sample_format: SampleFormat::I16Le,
        frame_duration_ms: 5,
    })
    .unwrap();
    assert_eq!(layout.samples_per_channel, 240);
    assert_eq!(layout.samples_per_packet, 480);
    assert_eq!(layout.expected_packet_bytes, 960);
}

#[test]
fn unsupported_stream_layout_is_refused() {
    let error = pcm_packet_layout(StreamInfo {
        sample_rate: 44_100,
        channels: 2,
        sample_format: SampleFormat::I16Le,
        frame_duration_ms: 10,
    })
    .unwrap_err();
    match error {
        ClientError::UnsupportedStream(message) => assert_eq!(
            message,
            "expected 48000 Hz stereo i16, received StreamInfo { sample_rate: 44100, channels: 2, sample_format: I16Le, frame_duration_ms: 10 }"
        ),
        other => panic!("unexpected error {other:?}"),
    }
    assert!(pcm_packet_layout(stream(0)).is_err());
}

#[test]
fn ring_overwrites_oldest_and_silences_underrun() {
    let mut ring = PcmRingBuffer::new(3);
    assert!(ring.write_pcm_le(&[1, 0, 2, 0, 3, 0, 4, 0]));
    let mut output = [99_i16; 5];
    assert_eq!(ring.read_into(&mut output), 3);
    assert_eq!(output, [2, 3, 4, 0, 0]);
    assert_eq!(ring.underruns(), 1);
}

#[test]
fn ring_rejects_odd_byte_counts_and_counts_overwrites() {
    let mut ring = PcmRingBuffer::new(2);
    assert!(!ring.write_pcm_le(&[1, 0, 2]));
    assert_eq!(ring.available_samples(), 0);
    assert!(ring.write_pcm_le(&[0xFF, 0xFF, 0x00, 0x80, 0x01, 0x00]));
    assert_eq!(ring.overwritten_samples(), 1);
    let mut output = [0_i16; 2];
    assert_eq!(ring.read_into(&mut output), 2);
    assert_eq!(output, [i16::MIN, 1]);
    assert_eq!(ring.underruns(), 0);
}

#[test]
fn ring_silence_and_clear() {
    let mut ring = PcmRingBuffer::new(PCM_RING_CAPACITY_SAMPLES);
    ring.write_silence(4);
    assert_eq!(ring.available_samples(), 4);
    ring.clear();
    assert_eq!(ring.available_samples(), 0);
    let mut output = [7_i16; 3];
    assert_eq!(ring.read_into(&mut output), 0);
    assert_eq!(output, [0, 0, 0]);
    assert_eq!(ring.underruns(), 1);
}

#[test]
fn ring_keeps_only_the_newest_samples() {
    let mut ring = PcmRingBuffer::new(4);
    let bytes: Vec<u8> = (1u8..=10).flat_map(|s| [s, 0]).collect();
    assert!(ring.write_pcm_le(&bytes));
    assert_eq!(ring.available_samples(), 4);
    assert_eq!(ring.overwritten_samples(), 6);
    let mut output = [0_i16; 4];
    assert_eq!(ring.read_into(&mut output), 4);
    assert_eq!(output, [7, 8, 9, 10]);
}

#[test]
fn handshake_messages_are_checked() {
    assert!(expect_hello(ControlMessage::Hello { protocol_version: PROTOCOL_VERSION }).is_ok());
    match expect_hello(ControlMessage::Hello { protocol_version: 7 }) {
        Err(ClientError::Runtime(message)) => {
            assert_eq!(message, "server uses unsupported protocol version 7")
        }
        other => panic!("unexpected {other:?}"),
    }
    match expect_hello(ControlMessage::Start) {
        Err(ClientError::Runtime(message)) => assert_eq!(message, "expected server Hello, got Start"),
        other => panic!("unexpected {other:?}"),
    }
    assert_eq!(expect_stream_info(ControlMessage::StreamInfo(stream(10))).unwrap(), stream(10));
    match expect_stream_info(ControlMessage::Ping { timestamp: 3 }) {
        Err(ClientError::Runtime(message)) => {
            assert_eq!(message, "expected StreamInfo, got Ping { timestamp: 3 }")
        }
        other => panic!("unexpected {other:?}"),
    }
    assert!(expect_start(ControlMessage::Start).is_ok());
    assert!(expect_start(ControlMessage::Stop).is_err());
}

#[test]
fn streaming_control_messages_map_to_actions() {
    assert_eq!(handle_server_message(ControlMessage::Stop, 5).unwrap(), ServerMessageAction::EndSession);
    assert_eq!(
        handle_server_message(ControlMessage::Ping { timestamp: 42 }, 5).unwrap(),
        ServerMessageAction::SendPong { timestamp: 42 }
    );
    assert_eq!(
        handle_server_message(ControlMessage::Pong { timestamp: 100 }, 130).unwrap(),
        ServerMessageAction::RecordRtt { rtt_ms: 30 }
    );
    assert_eq!(
        handle_server_message(ControlMessage::Pong { timestamp: 200 }, 130).unwrap(),
        ServerMessageAction::Ignore
    );
    match handle_server_message(ControlMessage::Start, 0) {
        Err(ClientError::Runtime(message)) => assert_eq!(message, "unexpected control message: Start"),
        other => panic!("unexpected {other:?}"),
    }
    assert_eq!(millis_u64(12), 12);
    assert_eq!(millis_u64(u128::MAX), u64::MAX);
}

#[test]
fn client_state_round_trips_through_raw_numbers() {
    for state in [
        ClientState::Idle,
        ClientState::Connecting,
        ClientState::Connected,
        ClientState::Disconnected,
        ClientState::Error,
    ] {
        assert_eq!(ClientState::from_raw(state.to_raw()), state);
    }
    assert_eq!(ClientState::Error.to_raw(), 4);
    assert_eq!(ClientState::from_raw(-1), ClientState::Idle);
    assert_eq!(ClientState::from_raw(99), ClientState::Idle);
}

#[test]
fn shared_state_counters() {
    let mut state = SharedState::default();
    state.add_received();
    state.add_lost(3);
    state.add_late(2);
    state.add_invalid();
    state.set_rtt_ms(17);
    state.set_error("boom");
    state.set(ClientState::Error);
    assert_eq!(state.received_packets(), 1);
    assert_eq!(state.lost_packets(), 3);
    assert_eq!(state.late_packets(), 2);
    assert_eq!(state.invalid_packets(), 1);
    assert_eq!(state.rtt_ms(), 17);
    assert_eq!(state.last_error(), "boom");
    assert_eq!(state.state(), ClientState::Error);
    state.begin_connecting();
    assert_eq!(state.state(), ClientState::Connecting);
    assert_eq!(state.received_packets(), 0);
    assert_eq!(state.last_error(), "");
}

#[test]
fn receiver_pipeline_feeds_the_ring() {
    let mut pipeline = ReceiverPipeline::new(stream(10)).unwrap();
    let mut ring = PcmRingBuffer::new(PCM_RING_CAPACITY_SAMPLES);
    let mut state = SharedState::default();

    pipeline.handle_packet(AudioPacket::new(1, 0, vec![0; 10]), &mut ring, &mut state);
    assert_eq!(state.invalid_packets(), 1);
    assert_eq!(state.received_packets(), 1);
    assert_eq!(ring.available_samples(), 0);

    for sequence in 0..5u32 {
        let payload: Vec<u8> = (0..1920).map(|i| (i % 7) as u8).collect();
        pipeline.handle_packet(AudioPacket::new(sequence, u64::from(sequence) * 480, payload), &mut ring, &mut state);
    }
    assert_eq!(state.received_packets(), 6);
    assert_eq!(ring.available_samples(), 5 * 960);
    assert_eq!(state.lost_packets(), 0);
}

#[test]
fn receiver_refuses_unsupported_streams() {
    assert!(matches!(
        ReceiverPipeline::new(StreamInfo {
            sample_rate: 48_000,
            channels: 1,
            sample_format: SampleFormat::I16Le,
            frame_duration_ms: 10,
        }),
        Err(ClientError::UnsupportedStream(_))
    ));
}

#[test]
fn native_bridge_reads_state_and_ring() {
    let mut output = [5_i16; 4];
    assert_eq!(native::read_pcm(None, &mut output), 0);
    assert_eq!(output, [0, 0, 0, 0]);
    assert_eq!(native::state(None), ClientState::Idle);
    assert_eq!(native::last_error(None), "");
    assert_eq!(native::received_packets(None), 0);
    assert_eq!(native::buffer_duration_ms(None), 0);
    assert_eq!(native::estimated_latency_ms(None, None), 50);

    let mut ring = PcmRingBuffer::new(PCM_RING_CAPACITY_SAMPLES);
    ring.write_silence(9_600);
    let mut state = SharedState::default();
    state.set_rtt_ms(30);
    state.add_lost(2);
    assert_eq!(native::buffer_duration_ms(Some(&ring)), 100);
    assert_eq!(native::estimated_latency_ms(Some(&state), Some(&ring)), 15 + 100 + 50);
    assert_eq!(native::lost_packets(Some(&state)), 2);
    assert_eq!(native::to_jlong(u64::MAX), i64::MAX);
    assert_eq!(native::to_jlong(7), 7);

    let mut output = [1_i16; 2];
    assert_eq!(native::read_pcm(Some(&mut ring), &mut output), 2);
    assert_eq!(ring.available_samples(), 9_598);

    native::disconnect(Some(&mut state), Some(&mut ring));
    assert_eq!(state.state(), ClientState::Disconnected);
    assert_eq!(ring.available_samples(), 0);
    assert_eq!(native::underruns(Some(&ring)), 0);
    assert_eq!(native::overwritten_samples(Some(&ring)), 0);
}

#[test]
fn ended_sessions_retry_with_backoff_until_stopped() {
    let mut state = SharedState::default();
    let mut ring = PcmRingBuffer::new(8);
    ring.write_silence(3);
    let failed: Result<(), ClientError> = Err(ClientError::Runtime("lost".into()));
    assert_eq!(end_session(&mut state, &mut ring, false, &failed, 3), SessionEnd::RetryAfter { attempt: 3 });
    assert_eq!(ring.available_samples(), 0);
    assert_eq!(state.state(), ClientState::Error);
    assert_eq!(state.last_error(), "native runtime failed: lost");
    assert_eq!(backoff_elapsed(&mut state, 3), 4);
    assert_eq!(state.state(), ClientState::Connecting);
    assert_eq!(backoff_elapsed(&mut state, u32::MAX), u32::MAX);

    assert_eq!(end_session(&mut state, &mut ring, false, &Ok(()), 7), SessionEnd::RetryAfter { attempt: 0 });
    assert_eq!(state.state(), ClientState::Connecting);
    assert_eq!(end_session(&mut state, &mut ring, true, &failed, 7), SessionEnd::Stop);
    assert_eq!(state.state(), ClientState::Disconnected);
    assert_eq!(state.last_error(), "native runtime failed: lost");
}

#[test]
fn connection_requests_are_validated() {
    assert_eq!(native::validate_port(48_400).unwrap(), 48_400);
    assert_eq!(native::validate_port(65_535).unwrap(), 65_535);
    for port in [0, -1, 65_536, i32::MAX] {
        match native::validate_port(port) {
            Err(ClientError::Runtime(message)) => assert_eq!(message, "port must be between 1 and 65535"),
            other => panic!("unexpected {other:?}"),
        }
    }
    assert_eq!(native::parse_pin(&"AB".repeat(32)).unwrap(), [0xAB; 32]);
    match native::parse_pin("AB") {
        Err(ClientError::Transport(error)) => assert_eq!(
            error.message(),
            "failed to create self-signed server certificate: certificate fingerprint needs 64 hexadecimal digits, got 2"
        ),
        other => panic!("unexpected {other:?}"),
    }
}

#[test]
fn every_push_is_held_returned_or_counted_late() {
    let mut jitter = JitterBuffer::new(3, 480);
    let mut returned = Vec::new();
    let order = [20u32, 22, 21, 19, 22, 25, 26, 27, 23];
    for sequence in order {
        returned.extend(jitter.push(packet(sequence)));
    }
    let audio = returned.iter().filter(|output| matches!(output, JitterOutput::Audio(_))).count() as u64;
    let late = jitter.late_packets();
    assert_eq!(late, 3);
    let held = order.len() as u64 - late - audio;
    assert!(held < 3);
    for (k, output) in returned.iter().enumerate() {
        if let JitterOutput::Audio(packet) = output {
            assert_eq!(packet.sequence, 20 + k as u32);
        }
    }
}

#[test]
fn backoff_restarts_after_a_clean_session() {
    let mut state = SharedState::default();
    let mut ring = PcmRingBuffer::new(8);
    let failed: Result<(), ClientError> = Err(ClientError::Runtime("lost".into()));
    let clean: Result<(), ClientError> = Ok(());
    let mut attempt = 0u32;
    let mut waits = Vec::new();
    for result in [&failed, &failed, &failed, &clean, &failed, &failed] {
        match end_session(&mut state, &mut ring, false, result, attempt) {
            SessionEnd::RetryAfter { attempt: wait } => {
                waits.push(retry_delay(wait).as_secs());
                attempt = backoff_elapsed(&mut state, wait);
            },
            SessionEnd::Stop => unreachable!(),
        }
    }
    assert_eq!(waits, vec![1, 2, 4, 1, 2, 4]);
}
