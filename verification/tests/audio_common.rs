use soundwave::audio_common::frame::{AudioFormat, AudioFormatError, PcmFrame};
use soundwave::audio_common::ring_buffer::{pcm_ring_buffer, sample_or_silence};
use soundwave::client::error::ClientError;
use soundwave::transport::error::TransportError;

#[test]
fn v01_frame_size_is_1920_bytes() {
    assert_eq!(AudioFormat::pcm_48k_stereo_10ms().samples_per_channel().unwrap(), 480);
    assert_eq!(AudioFormat::pcm_48k_stereo_10ms().samples_per_frame().unwrap(), 960);
    assert_eq!(AudioFormat::pcm_48k_stereo_10ms().bytes_per_frame().unwrap(), 1920);
}

#[test]
fn frame_sizes_refuse_bad_formats() {
    let zero = AudioFormat { sample_rate: 0, channels: 2, frame_duration_ms: 10 };
    assert_eq!(zero.samples_per_channel(), Err(AudioFormatError::Invalid));
    let unaligned = AudioFormat { sample_rate: 44_100, channels: 2, frame_duration_ms: 1 };
    assert_eq!(unaligned.samples_per_frame(), Err(AudioFormatError::FrameDoesNotAlign));
    let aligned = AudioFormat { sample_rate: 44_100, channels: 2, frame_duration_ms: 10 };
    assert_eq!(aligned.bytes_per_frame(), Ok(1764));
    assert_eq!(
        AudioFormatError::Invalid.message(),
        "audio format contains a zero or overflowing field"
    );
    assert_eq!(
        AudioFormatError::FrameDoesNotAlign.message(),
        "frame duration does not map to an integral number of samples"
    );
}

#[test]
fn pcm_frame_must_hold_exactly_one_frame() {
    let format = AudioFormat::pcm_48k_stereo_10ms();
    let frame = PcmFrame::new(480, vec![3; 960], format).unwrap();
    assert_eq!(frame.timestamp, 480);
    assert_eq!(frame.samples.len(), 960);
    let error = PcmFrame::new(0, vec![0; 959], format).unwrap_err();
    assert_eq!(error, AudioFormatError::WrongFrameSampleCount { actual: 959, expected: 960 });
    assert_eq!(error.message(), "frame has 959 samples; expected 960");
}

#[test]
fn ring_is_bounded_and_underflow_is_silence() {
    let (mut producer, mut consumer) = pcm_ring_buffer(3);
    assert_eq!(producer.push_slice(&[1, 2, 3, 4]), 3);

    let mut output = [99; 5];
    assert_eq!(consumer.read_into(&mut output), 3);
    assert_eq!(output, [1, 2, 3, 0, 0]);
}

#[test]
fn ring_slots_follow_reads_and_writes() {
    let (mut producer, mut consumer) = pcm_ring_buffer(4);
    assert_eq!(producer.free_len(), 4);
    assert_eq!(producer.push_slice(&[5, 6]), 2);
    assert_eq!(producer.free_len(), 2);
    assert_eq!(consumer.occupied_len(), 2);
    let mut output = [0; 1];
    assert_eq!(consumer.read_into(&mut output), 1);
    assert_eq!(output, [5]);
    assert_eq!(consumer.occupied_len(), 1);
}

#[test]
fn error_messages_match_their_display() {
    assert_eq!(
        TransportError::ControlMessageTooLarge { actual: 5000, maximum: 4096 }.message(),
        "control message is 5000 bytes; maximum is 4096"
    );
    assert_eq!(
        TransportError::DatagramTooLarge { actual: 1300, maximum: 1200 }.message(),
        "audio datagram is 1300 bytes; maximum supported is 1200"
    );
    assert_eq!(TransportError::ControlStreamClosed.message(), "remote control stream closed");
    assert_eq!(
        TransportError::DatagramUnsupported.message(),
        "QUIC peer does not advertise datagram support"
    );
    assert_eq!(TransportError::Quinn("reset".into()).message(), "QUIC transport error: reset");
    assert_eq!(
        TransportError::Certificate("bad".into()).message(),
        "failed to create self-signed server certificate: bad"
    );
    assert_eq!(
        ClientError::Transport(TransportError::ControlStreamClosed).message(),
        "transport failed: remote control stream closed"
    );
    assert_eq!(ClientError::Runtime("x".into()).message(), "native runtime failed: x");
    assert_eq!(ClientError::Address("bad".into()).message(), "server address is invalid: bad");
    assert_eq!(ClientError::Endpoint("io".into()).message(), "network endpoint failed: io");
    assert_eq!(
        ClientError::UnsupportedStream("s".into()).message(),
        "unsupported stream format: s"
    );
}

#[test]
fn popped_samples_fill_the_output_and_gaps_are_silence() {
    assert_eq!(sample_or_silence(Some(7)), 7);
    assert_eq!(sample_or_silence(Some(-3)), -3);
    assert_eq!(sample_or_silence(None), 0);
}
