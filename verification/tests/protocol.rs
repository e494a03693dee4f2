use soundwave::protocol::audio::{AudioPacket, PacketError, AUDIO_PACKET_HEADER_LEN};
use soundwave::protocol::control::{ControlMessage, SampleFormat, StreamInfo};
use soundwave::transport::control::{control_message_length, frame_control_message, MAX_CONTROL_MESSAGE_BYTES};
use soundwave::transport::datagram::{check_datagram_support, decode_datagram, encode_datagram, max_payload_len};
use soundwave::transport::error::TransportError;

#[test]
fn packet_round_trip_is_lossless() {
    let packet = AudioPacket::new(0x0102_0304, 0x0102_0304_0506_0708, vec![0x34, 0x12, 0x78, 0x56]);
    let encoded = packet.encode();

    assert_eq!(
        encoded.as_slice(),
        &[
            0x01, 0x02, 0x03, 0x04, 0x01, 0x02, 0x03, 0x04, 0x05, 0x06, 0x07, 0x08, 0x34, 0x12, 0x78,
            0x56
        ]
    );
    assert_eq!(AudioPacket::decode(&encoded).unwrap(), packet);
}

#[test]
fn too_short_packet_is_rejected() {
    assert!(matches!(AudioPacket::decode(&[1, 2, 3]), Err(PacketError::TooShort { .. })));
}

#[test]
fn too_short_packet_reports_lengths() {
    assert_eq!(
        AudioPacket::decode(&[1, 2, 3]),
        Err(PacketError::TooShort { actual: 3, minimum: AUDIO_PACKET_HEADER_LEN })
    );
    let error = AudioPacket::decode(&[0; 11]).unwrap_err();
    assert_eq!(error.message(), "audio packet is 11 bytes, but needs at least 12 bytes");
    assert_eq!(PacketError::Malformed.message(), "audio packet header is malformed");
}

#[test]
fn header_only_packet_has_empty_payload() {
    let packet = AudioPacket::decode(&[0, 0, 0, 7, 0, 0, 0, 0, 0, 0, 1, 224]).unwrap();
    assert_eq!(packet, AudioPacket::new(7, 480, Vec::new()));
    assert_eq!(packet.encode(), vec![0, 0, 0, 7, 0, 0, 0, 0, 0, 0, 1, 224]);
}

#[test]
fn encoding_a_decoded_datagram_gives_it_back() {
    let wire: Vec<u8> = (0u8..40).collect();
    assert_eq!(AudioPacket::decode(&wire).unwrap().encode(), wire);
}

#[test]
fn control_frame_prefixes_big_endian_length() {
    let frame = frame_control_message(&[9, 8, 7]).unwrap();
    assert_eq!(frame, vec![0, 3, 9, 8, 7]);
    assert_eq!(control_message_length([frame[0], frame[1]]).unwrap(), 3);
}

#[test]
fn control_frame_round_trips_at_the_limit() {
    let message = vec![0xAA; MAX_CONTROL_MESSAGE_BYTES];
    let frame = frame_control_message(&message).unwrap();
    assert_eq!(frame.len(), MAX_CONTROL_MESSAGE_BYTES + 2);
    assert_eq!(control_message_length([frame[0], frame[1]]).unwrap(), MAX_CONTROL_MESSAGE_BYTES);
    assert_eq!(&frame[2..], message.as_slice());
}

#[test]
fn oversized_control_messages_are_refused() {
    let message = vec![0; MAX_CONTROL_MESSAGE_BYTES + 1];
    assert_eq!(
        frame_control_message(&message),
        Err(TransportError::ControlMessageTooLarge { actual: 4097, maximum: 4096 })
    );
    assert_eq!(
        control_message_length([0x10, 0x01]),
        Err(TransportError::ControlMessageTooLarge { actual: 4097, maximum: 4096 })
    );
}

#[test]
fn datagrams_need_peer_support_and_room() {
    assert_eq!(check_datagram_support(None), Err(TransportError::DatagramUnsupported));
    assert_eq!(check_datagram_support(Some(1200)), Ok(()));
    assert_eq!(max_payload_len(None), 0);
    assert_eq!(max_payload_len(Some(5)), 0);
    assert_eq!(max_payload_len(Some(1200)), 1188);

    let packet = AudioPacket::new(7, 480, vec![0x34, 0x12, 0x78, 0x56]);
    assert_eq!(encode_datagram(&packet, None), Err(TransportError::DatagramUnsupported));
    assert_eq!(
        encode_datagram(&packet, Some(15)),
        Err(TransportError::DatagramTooLarge { actual: 16, maximum: 15 })
    );
    let wire = encode_datagram(&packet, Some(16)).unwrap();
    assert_eq!(decode_datagram(&wire).unwrap(), packet);
}

#[test]
fn short_datagram_is_a_transport_error_with_the_packet_message() {
    assert_eq!(
        decode_datagram(&[1, 2]),
        Err(TransportError::Quinn("audio packet is 2 bytes, but needs at least 12 bytes".to_string()))
    );
}

#[test]
fn control_messages_compare_by_value() {
    let info = StreamInfo { sample_rate: 48_000, channels: 2, sample_format: SampleFormat::I16Le, frame_duration_ms: 10 };
    assert_eq!(ControlMessage::StreamInfo(info), ControlMessage::StreamInfo(info));
    assert_ne!(ControlMessage::Ping { timestamp: 1 }, ControlMessage::Pong { timestamp: 1 });
}
