use soundwave::protocol::control::{ControlMessage, SampleFormat, StreamInfo, PROTOCOL_VERSION};
use soundwave::server::capture::{
    block_pcm_le, capture_action, enqueue_latest, enqueue_step, BlockAssembler, BlockQueue, ReceiveOutcome, SendOutcome, CaptureAction, CaptureEvent, EnqueueOutcome, PcmBlock,
    BLOCK_SAMPLE_COUNT,
};
use soundwave::server::network::{
    check_client_hello, choose_packet_duration_ms, client_message_action, handshake_replies, plan_server_handshake,
    samples_per_packet, send_disposition, ClientMessageAction, Packetizer, SendDisposition, StreamCounters,
};
use soundwave::server::ui::{
    capture_complete_text, command_action, context_menu_entries, dashboard_controls, pairing_qr, qr_layout, qr_paint,
    server_information, settings, startup_error_text, ui_command_step, ControlBounds, ControlKind, MenuEntry, Rect,
    ServerUiInfo, UiAction, UiReceive, UiStatus, UiStep, DASHBOARD_STATUS_CONTROL,
};
use soundwave::transport::error::TransportError;
use soundwave::transport::datagram::{encode_datagram, max_payload_len};
use soundwave::client::ring_buffer::PcmRingBuffer;
use soundwave::server::pairing::{
    adapter_rank, after_adapter_query, after_size_probe, collect_adapter_candidates, AdapterQueryStep, is_private_ipv4, is_usable_pairing_address, resolve_pairing_info,
    select_automatic_pairing_host, validate_bind_compatibility, validate_pairing_host, AdapterCandidate,
    AdapterInfo, BindAddress, PairingError, PairingInfo,
};
use soundwave::server::qr::QrMatrix;

const PAIRING_URI: &str =
    "soundwave://pair/v1?host=192.168.1.42&port=48400&fp=ABABABABABABABABABABABABABABABABABABABABABABABABABABABABABABABAB";

#[test]
fn datagram_size_selects_safe_packet_duration() {
    assert_eq!(choose_packet_duration_ms(1_920).unwrap(), 10);
    assert_eq!(choose_packet_duration_ms(960).unwrap(), 5);
    assert_eq!(choose_packet_duration_ms(384).unwrap(), 2);
    assert!(choose_packet_duration_ms(100).is_err());
}

#[test]
fn packet_duration_boundaries() {
    assert_eq!(choose_packet_duration_ms(usize::MAX).unwrap(), 10);
    assert_eq!(choose_packet_duration_ms(959).unwrap(), 4);
    assert_eq!(choose_packet_duration_ms(768).unwrap(), 4);
    assert_eq!(choose_packet_duration_ms(767).unwrap(), 2);
    assert_eq!(choose_packet_duration_ms(192).unwrap(), 1);
    assert_eq!(
        choose_packet_duration_ms(191).unwrap_err(),
        "QUIC only permits 191 bytes of audio payload; at least 192 bytes are required for 1 ms stereo PCM"
    );
    assert_eq!(samples_per_packet(10), 960);
    assert_eq!(samples_per_packet(5), 480);
}

#[test]
fn pairing_address_rejects_non_lan_endpoints() {
    for address in [[0, 0, 0, 0], [127, 0, 0, 1], [255, 255, 255, 255], [224, 0, 0, 1], [169, 254, 1, 1]] {
        assert!(!is_usable_pairing_address(address));
    }
    assert!(is_usable_pairing_address([192, 168, 1, 42]));
}

#[test]
fn pairing_host_must_match_a_specific_bind() {
    let bind = BindAddress::V4 { ip: [192, 168, 1, 42], port: 48_400 };
    assert!(validate_bind_compatibility(bind, [192, 168, 1, 42]).is_ok());
    assert!(validate_bind_compatibility(bind, [192, 168, 1, 43]).is_err());
}

#[test]
fn pairing_errors_name_the_problem() {
    assert_eq!(
        validate_bind_compatibility(BindAddress::V4 { ip: [192, 168, 1, 42], port: 1 }, [192, 168, 1, 43])
            .unwrap_err()
            .message(),
        "--pairing-host 192.168.1.43 does not match the non-wildcard --bind address 192.168.1.42"
    );
    assert!(validate_bind_compatibility(BindAddress::V4 { ip: [0, 0, 0, 0], port: 1 }, [10, 0, 0, 2]).is_ok());
    assert_eq!(
        validate_bind_compatibility(BindAddress::V6 { port: 1 }, [10, 0, 0, 2]),
        Err(PairingError::Ipv6Bind)
    );
    assert_eq!(
        validate_pairing_host([127, 0, 0, 1]).unwrap_err().message(),
        "127.0.0.1 is not a usable LAN IPv4 address for QR pairing"
    );
    assert_eq!(
        PairingError::AdapterEnumeration { status: 111 }.message(),
        "could not enumerate Windows network adapters (Win32 error 111)"
    );
    assert!(is_private_ipv4([172, 16, 0, 1]));
    assert!(is_private_ipv4([10, 1, 2, 3]));
    assert!(!is_private_ipv4([172, 32, 0, 1]));
    assert!(!is_private_ipv4([8, 8, 8, 8]));
}

#[test]
fn pairing_info_follows_the_bind_and_the_override() {
    let fingerprint = [0xAB; 32];
    let info = resolve_pairing_info(
        BindAddress::V4 { ip: [0, 0, 0, 0], port: 0 },
        48_400,
        None,
        fingerprint,
        || Ok([192, 168, 1, 42]),
    )
    .unwrap();
    assert_eq!(info.host, [192, 168, 1, 42]);
    assert_eq!(info.port, 48_400);
    assert_eq!(info.uri, PAIRING_URI);

    let info = resolve_pairing_info(
        BindAddress::V4 { ip: [0, 0, 0, 0], port: 0 },
        48_400,
        Some([192, 168, 1, 42]),
        fingerprint,
        || Err(PairingError::NoCandidate),
    )
    .unwrap();
    assert_eq!(info.uri, PAIRING_URI);

    let info = resolve_pairing_info(
        BindAddress::V4 { ip: [192, 168, 1, 42], port: 48_400 },
        48_400,
        None,
        fingerprint,
        || Err(PairingError::NoCandidate),
    )
    .unwrap();
    assert_eq!(info.uri, PAIRING_URI);

    assert_eq!(
        resolve_pairing_info(
            BindAddress::V4 { ip: [0, 0, 0, 0], port: 0 },
            1,
            None,
            fingerprint,
            || Err(PairingError::NoCandidate),
        )
        .unwrap_err(),
        PairingError::NoCandidate
    );
    assert_eq!(
        resolve_pairing_info(BindAddress::V6 { port: 1 }, 1, None, fingerprint, || Ok([10, 0, 0, 1])).unwrap_err(),
        PairingError::Ipv6Bind
    );
}

fn adapter(up: bool, gateway: bool, addresses: Vec<[u8; 4]>) -> AdapterInfo {
    AdapterInfo {
        oper_status_up: up,
        software_loopback: false,
        tunnel_interface: false,
        tunnel_type_none: true,
        has_gateway: gateway,
        unicast_ipv4: addresses,
    }
}

#[test]
fn adapters_are_ranked_and_filtered() {
    assert_eq!(adapter_rank(true, true), 0);
    assert_eq!(adapter_rank(true, false), 1);
    assert_eq!(adapter_rank(false, true), 2);
    assert_eq!(adapter_rank(false, false), 3);

    let adapters = vec![
        adapter(false, true, vec![[192, 168, 1, 5]]),
        adapter(true, true, vec![[169, 254, 3, 3], [192, 168, 1, 42]]),
        adapter(true, false, vec![[8, 8, 4, 4]]),
    ];
    let candidates = collect_adapter_candidates(&adapters);
    assert_eq!(
        candidates,
        vec![
            AdapterCandidate { address: [192, 168, 1, 42], rank: 0 },
            AdapterCandidate { address: [8, 8, 4, 4], rank: 3 },
        ]
    );
    assert_eq!(select_automatic_pairing_host(&candidates).unwrap(), [192, 168, 1, 42]);
}

#[test]
fn equally_ranked_addresses_are_reported_not_guessed() {
    let candidates = vec![
        AdapterCandidate { address: [192, 168, 1, 9], rank: 0 },
        AdapterCandidate { address: [10, 0, 0, 2], rank: 0 },
        AdapterCandidate { address: [192, 168, 1, 9], rank: 0 },
        AdapterCandidate { address: [172, 16, 0, 1], rank: 2 },
    ];
    let error = select_automatic_pairing_host(&candidates).unwrap_err();
    assert_eq!(
        error,
        PairingError::AmbiguousCandidates { addresses: "10.0.0.2, 192.168.1.9".to_owned() }
    );
    assert_eq!(
        error.message(),
        "multiple LAN IPv4 addresses are equally suitable (10.0.0.2, 192.168.1.9); pass --pairing-host <IPv4>"
    );
    assert_eq!(select_automatic_pairing_host(&Vec::new()), Err(PairingError::NoCandidate));
    let duplicated = vec![
        AdapterCandidate { address: [10, 0, 0, 7], rank: 1 },
        AdapterCandidate { address: [10, 0, 0, 7], rank: 1 },
    ];
    assert_eq!(select_automatic_pairing_host(&duplicated), Ok([10, 0, 0, 7]));
}

#[test]
fn pairing_payload_encodes_into_a_square_matrix() {
    let matrix = QrMatrix::encode(PAIRING_URI).unwrap();

    assert!(matrix.size() >= 21);
    let size = matrix.size();
    let mut dark = false;
    let mut light = false;
    for y in 0..size {
        for x in 0..size {
            if matrix.is_dark(x, y) {
                dark = true;
            } else {
                light = true;
            }
        }
    }
    assert!(dark);
    assert!(light);
}

#[test]
fn qr_matrix_has_finder_patterns() {
    let matrix = QrMatrix::encode("soundwave").unwrap();
    let size = matrix.size();
    assert_eq!(size, 21);
    for (x, y) in [(0, 0), (6, 0), (0, 6), (size - 1, 0), (0, size - 1), (3, 3)] {
        assert!(matrix.is_dark(x, y));
    }
    assert!(!matrix.is_dark(7, 0));
    assert!(!matrix.is_dark(1, 1));
}

#[test]
fn assembler_emits_full_blocks_with_running_timestamps() {
    let mut assembler = BlockAssembler::new();
    let samples: Vec<i16> = (0..2500).map(|i| i as i16).collect();
    let blocks = assembler.push_samples(&samples);
    assert_eq!(blocks.len(), 2);
    assert_eq!(blocks[0].timestamp, 0);
    assert_eq!(blocks[1].timestamp, 480);
    assert_eq!(blocks[0].samples[0], 0);
    assert_eq!(blocks[1].samples[0], 960);
    assert_eq!(blocks[1].samples[959], 1919);

    let blocks = assembler.push_silence(BLOCK_SAMPLE_COUNT);
    assert_eq!(blocks.len(), 1);
    assert_eq!(blocks[0].timestamp, 960);
    assert_eq!(blocks[0].samples[0], 1920);
    assert_eq!(blocks[0].samples[579], 2499);
    assert_eq!(blocks[0].samples[580], 0);
}

fn ramp_block(timestamp: u64) -> PcmBlock {
    let mut samples = [0_i16; 960];
    for (i, sample) in samples.iter_mut().enumerate() {
        *sample = i as i16 - 480;
    }
    PcmBlock { timestamp, samples }
}

#[test]
fn packetizer_splits_blocks_into_numbered_packets() {
    let mut packetizer = Packetizer::new(5);
    let block = ramp_block(1_000);
    let packets = packetizer.packetize(&block);
    assert_eq!(packets.len(), 2);
    assert_eq!(packets[0].sequence, 0);
    assert_eq!(packets[1].sequence, 1);
    assert_eq!(packets[0].timestamp, 1_000);
    assert_eq!(packets[1].timestamp, 1_240);
    assert_eq!(packets[0].payload.len(), 960);
    assert_eq!(&packets[0].payload[..4], &[0x20, 0xFE, 0x21, 0xFE]);
    assert_eq!(&packets[1].payload[958..], &[0xDF, 0x01]);
    let next = packetizer.packetize(&block);
    assert_eq!(next[0].sequence, 2);
}

#[test]
fn four_millisecond_packets_carry_leftover_samples() {
    let mut packetizer = Packetizer::new(4);
    let first = packetizer.packetize(&ramp_block(0));
    assert_eq!(first.len(), 2);
    assert!(first.iter().all(|packet| packet.payload.len() == 768));
    assert_eq!(first[1].timestamp, 192);
    let second = packetizer.packetize(&ramp_block(480));
    assert_eq!(second.len(), 3);
    assert!(second.iter().all(|packet| packet.payload.len() == 768));
    // The first packet of the second block starts with the 192 samples left over from the first.
    assert_eq!(second[0].timestamp, 384);
    assert_eq!(second[0].sequence, 2);
    assert_eq!(&second[0].payload[..2], &288_i16.to_le_bytes());
    assert_eq!(&second[0].payload[384..386], &(-480_i16).to_le_bytes());
    assert_eq!(second[2].timestamp, 384 + 2 * 192);
}

#[test]
fn server_handshake_and_control_messages() {
    assert!(check_client_hello(ControlMessage::Hello { protocol_version: PROTOCOL_VERSION }).is_ok());
    assert_eq!(
        check_client_hello(ControlMessage::Hello { protocol_version: 2 }).unwrap_err(),
        "unsupported client protocol version 2"
    );
    assert_eq!(check_client_hello(ControlMessage::Stop).unwrap_err(), "expected Hello from client, got Stop");
    assert_eq!(
        handshake_replies(5),
        vec![
            ControlMessage::Hello { protocol_version: PROTOCOL_VERSION },
            ControlMessage::StreamInfo(StreamInfo {
                sample_rate: 48_000,
                channels: 2,
                sample_format: SampleFormat::I16Le,
                frame_duration_ms: 5,
            }),
            ControlMessage::Start,
        ]
    );
    assert_eq!(client_message_action(ControlMessage::Stop), ClientMessageAction::StopStream);
    assert_eq!(
        client_message_action(ControlMessage::Ping { timestamp: 9 }),
        ClientMessageAction::SendPong { timestamp: 9 }
    );
    assert_eq!(client_message_action(ControlMessage::Pong { timestamp: 9 }), ClientMessageAction::Ignore);
}

#[test]
fn stream_counters_count() {
    let mut counters = StreamCounters::default();
    counters.record_sent();
    counters.record_sent();
    counters.record_dropped();
    assert_eq!(counters.packets_sent, 2);
    assert_eq!(counters.packets_dropped, 1);
}

#[test]
fn qr_paint_centres_the_code_in_its_panel() {
    let matrix = QrMatrix::encode("soundwave").unwrap();
    let paint = qr_paint(840, 590, &matrix).unwrap();
    assert_eq!(paint.panel, Rect { left: 410, top: 95, right: 790, bottom: 475 });
    // 21 modules plus a quiet zone of 4 on each side: 29 modules of 13 pixels.
    let layout = qr_layout(840, 590, 21).unwrap();
    assert_eq!(layout.module_size, 13);
    assert_eq!(layout.origin_x, 410 + (380 - 377) / 2);
    assert_eq!(layout.origin_y, 95 + 1);
    assert_eq!(paint.dark_modules[0], Rect { left: 411 + 52, top: 96 + 52, right: 411 + 65, bottom: 96 + 65 });
    let dark = (0..21).flat_map(|y| (0..21).map(move |x| (x, y))).filter(|&(x, y)| matrix.is_dark(x, y)).count();
    assert_eq!(paint.dark_modules.len(), dark);
    for rect in &paint.dark_modules {
        assert_eq!(rect.right - rect.left, 13);
        assert_eq!(rect.bottom - rect.top, 13);
    }
}

#[test]
fn qr_paint_is_clipped_and_skipped_when_hidden() {
    let matrix = QrMatrix::encode("soundwave").unwrap();
    assert!(qr_paint(410, 590, &matrix).is_none());
    assert!(qr_paint(840, 95, &matrix).is_none());
    let small = qr_layout(420, 590, 21).unwrap();
    assert_eq!(small.panel, Rect { left: 410, top: 95, right: 420, bottom: 475 });
    assert_eq!(small.module_size, 1);
    // The 29-pixel code is wider than the 10-pixel panel: centred, it starts left of the panel.
    assert_eq!(small.origin_x, 410 - 9);
}

#[test]
fn menu_commands_and_status_lines() {
    let entries = context_menu_entries(true);
    assert_eq!(entries.len(), 7);
    assert!(matches!(entries[0], MenuEntry::Item { command: 1, label: "Show server" }));
    assert!(matches!(entries[1], MenuEntry::Item { command: 4, label: "Disable service" }));
    assert!(matches!(entries[2], MenuEntry::Separator));
    assert!(matches!(entries[6], MenuEntry::Item { command: 5, label: "Exit" }));
    assert!(matches!(context_menu_entries(false)[1], MenuEntry::Item { command: 4, label: "Enable service" }));
    assert_eq!(command_action(1), UiAction::ShowDashboard);
    assert_eq!(command_action(2), UiAction::ShowServerInformation);
    assert_eq!(command_action(3), UiAction::ShowSettings);
    assert_eq!(command_action(4), UiAction::ToggleService);
    assert_eq!(command_action(5), UiAction::Exit);
    assert_eq!(command_action(0), UiAction::Nothing);

    assert_eq!(UiStatus::WaitingForClient.label(true), "Status: Waiting for Android client");
    assert_eq!(UiStatus::WaitingForClient.label(false), "Status: Disabled; no audio will be sent");
    let streaming = UiStatus::Streaming("192.168.1.7:5000".to_owned());
    assert_eq!(streaming.label(true), "Status: Streaming to 192.168.1.7:5000");
    assert_eq!(streaming.label(false), "Status: Disabled; audio paused for 192.168.1.7:5000");

    let mut status = UiStatus::WaitingForClient;
    assert_eq!(ui_command_step(&mut status, UiReceive::SetStatus(streaming.clone())), UiStep::StatusChanged);
    assert_eq!(status.label(true), "Status: Streaming to 192.168.1.7:5000");
    assert_eq!(ui_command_step(&mut status, UiReceive::Empty), UiStep::Idle);
    assert_eq!(ui_command_step(&mut status, UiReceive::Shutdown), UiStep::Close);
    assert_eq!(ui_command_step(&mut status, UiReceive::Disconnected), UiStep::Close);
}

fn ui_info(pairing: Result<PairingInfo, String>) -> ServerUiInfo {
    ServerUiInfo {
        device_name: "Speakers".to_owned(),
        mix_sample_rate: 48_000,
        mix_channels: 2,
        mix_bits_per_sample: 32,
        mix_sample_type: "Float".to_owned(),
        bind: "0.0.0.0:48400".to_owned(),
        fingerprint: "AB:CD".to_owned(),
        identity_dir: "C:\\Soundwave".to_owned(),
        pairing,
    }
}

#[test]
fn window_texts_describe_the_server() {
    let pairing = PairingInfo { host: [192, 168, 1, 42], port: 48_400, uri: PAIRING_URI.to_owned() };
    let info = ui_info(Ok(pairing));
    assert_eq!(
        server_information(&info, &UiStatus::WaitingForClient, true),
        "Status: Waiting for Android client\r\n\r\nAudio device:\r\nSpeakers\r\nMix format: 48000 Hz / 2 channels / 32 bit Float\r\nCapture format: 48000 Hz / Stereo / i16\r\n\r\nListening address:\r\n0.0.0.0:48400\r\n\r\nPairing QR endpoint:\r\n192.168.1.42:48400\r\n\r\nTLS certificate fingerprint:\r\nAB:CD\r\n\r\nIdentity directory:\r\nC:\\Soundwave\r\n\r\nScan the pairing QR code in Audio Stream, then review the fields before connecting."
    );
    let unavailable = ui_info(Err("no LAN".to_owned()));
    assert_eq!(
        settings(&unavailable),
        "Current startup settings\r\n\r\nBind address: 0.0.0.0:48400\r\nIdentity directory: C:\\Soundwave\r\nPairing QR unavailable: no LAN\r\n\r\nThese settings are applied when the server starts. To change them, exit Soundwave and start it again with:\r\n\r\naudio-stream-server --bind <ADDRESS> --identity-dir <DIRECTORY> --pairing-host <IPv4>\r\n\r\nUse --pairing-host when the QR code must advertise a specific LAN adapter. Soundwave V0.1 always captures the default Windows output device."
    );
    let controls = dashboard_controls(&info, &UiStatus::WaitingForClient, false);
    assert_eq!(controls.len(), 7);
    assert_eq!(controls[0].text, "Soundwave Server");
    assert_eq!(controls[DASHBOARD_STATUS_CONTROL].text, "Status: Disabled; no audio will be sent");
    assert_eq!(
        controls[2].text,
        "Listening: 0.0.0.0:48400\r\nDefault output: Speakers\r\nThe QR code contains the LAN endpoint and pinned TLS fingerprint."
    );
    assert_eq!(controls[3].kind, ControlKind::Button { command: 2 });
    assert_eq!(controls[5].bounds, ControlBounds { x: 315, y: 220, width: 70, height: 30 });
    assert_eq!(controls[6].text, "Scan in Audio Stream\r\nPairing endpoint: 192.168.1.42:48400");
    assert_eq!(
        dashboard_controls(&unavailable, &UiStatus::WaitingForClient, true)[6].text,
        "QR pairing unavailable\r\nno LAN"
    );
    assert_eq!(startup_error_text("boom"), "Soundwave Server could not start.\r\n\r\nboom");
    assert_eq!(capture_complete_text("out.pcm"), "Wrote 48 kHz stereo i16 little-endian PCM to:\r\nout.pcm");
}

#[test]
fn capture_events_become_silence_or_conversion() {
    assert_eq!(
        capture_action(CaptureEvent::Packet { frames: 480, silent: true }),
        CaptureAction::Silence { samples: 960 }
    );
    assert_eq!(
        capture_action(CaptureEvent::Packet { frames: 441, silent: false }),
        CaptureAction::Convert { bytes: 3528, samples: 882 }
    );
    assert_eq!(capture_action(CaptureEvent::EventTimeout), CaptureAction::Silence { samples: 4800 });
}

fn block(timestamp: u64) -> PcmBlock {
    PcmBlock { timestamp, samples: [0; 960] }
}

#[test]
fn full_queue_evicts_the_oldest_block() {
    let (sender, receiver) = crossbeam_channel::bounded(2);
    let mut queue = BlockQueue::new(sender, receiver.clone());
    assert_eq!(enqueue_latest(&mut queue, block(0)), EnqueueOutcome { delivered: true, dropped: 0 });
    assert_eq!(enqueue_latest(&mut queue, block(480)), EnqueueOutcome { delivered: true, dropped: 0 });
    assert_eq!(enqueue_latest(&mut queue, block(960)), EnqueueOutcome { delivered: true, dropped: 1 });
    assert_eq!(receiver.try_recv().unwrap().timestamp, 480);
    assert_eq!(receiver.try_recv().unwrap().timestamp, 960);
}

#[test]
fn vanished_consumer_drops_the_block() {
    let (sender, receiver) = crossbeam_channel::bounded::<PcmBlock>(1);
    let (_, other_receiver) = crossbeam_channel::bounded::<PcmBlock>(1);
    drop(receiver);
    assert_eq!(
        enqueue_latest(&mut BlockQueue::new(sender, other_receiver), block(0)),
        EnqueueOutcome { delivered: false, dropped: 1 }
    );
}

#[test]
fn assembler_keeps_every_sample_in_order() {
    let mut assembler = BlockAssembler::new();
    let mut emitted: Vec<i16> = Vec::new();
    let mut timestamps = Vec::new();
    for chunk in 0..7 {
        let samples: Vec<i16> = (0..700).map(|i| (chunk * 700 + i) as i16).collect();
        for block in assembler.push_samples(&samples) {
            timestamps.push(block.timestamp);
            emitted.extend_from_slice(&block.samples);
        }
    }
    assert_eq!(emitted.len(), 5 * 960);
    assert!(emitted.iter().enumerate().all(|(i, &s)| s == i as i16));
    assert_eq!(timestamps, vec![0, 480, 960, 1440, 1920]);
}

#[test]
fn server_handshake_plan() {
    let hello = ControlMessage::Hello { protocol_version: PROTOCOL_VERSION };
    let plan = plan_server_handshake(hello, Some(1_200)).unwrap();
    assert_eq!(plan.frame_duration_ms, 5);
    assert_eq!(plan.replies, handshake_replies(5));
    assert_eq!(plan_server_handshake(hello, Some(2_000)).unwrap().frame_duration_ms, 10);
    assert_eq!(plan_server_handshake(hello, None).unwrap_err(), "client does not support QUIC datagrams");
    assert_eq!(
        plan_server_handshake(hello, Some(100)).unwrap_err(),
        "QUIC only permits 88 bytes of audio payload; at least 192 bytes are required for 1 ms stereo PCM"
    );
    assert_eq!(
        plan_server_handshake(ControlMessage::Start, Some(1_200)).unwrap_err(),
        "expected Hello from client, got Start"
    );
}

#[test]
fn send_errors_other_than_quic_end_the_sender() {
    assert_eq!(send_disposition(&Ok(())), SendDisposition::Sent);
    assert_eq!(send_disposition(&Err(TransportError::Quinn("blocked".into()))), SendDisposition::Dropped);
    assert_eq!(
        send_disposition(&Err(TransportError::DatagramTooLarge { actual: 2, maximum: 1 })),
        SendDisposition::Fail
    );
}

#[test]
fn adapter_listing_retries_a_growing_list_three_times() {
    assert_eq!(after_size_probe(0), AdapterQueryStep::NoAdapters);
    assert_eq!(after_size_probe(111), AdapterQueryStep::Query { attempt: 0 });
    assert_eq!(after_size_probe(87), AdapterQueryStep::Fail(PairingError::AdapterEnumeration { status: 87 }));
    assert_eq!(after_adapter_query(0, 0), AdapterQueryStep::Collect);
    assert_eq!(after_adapter_query(0, 111), AdapterQueryStep::Query { attempt: 1 });
    assert_eq!(after_adapter_query(1, 111), AdapterQueryStep::Query { attempt: 2 });
    assert_eq!(
        after_adapter_query(2, 111),
        AdapterQueryStep::Fail(PairingError::AdapterEnumeration { status: 111 })
    );
    assert_eq!(after_adapter_query(1, 8), AdapterQueryStep::Fail(PairingError::AdapterEnumeration { status: 8 }));
}

#[test]
fn packets_put_back_together_are_the_block() {
    let blocks = [ramp_block(4_800), ramp_block(5_280)];
    let expected: Vec<u8> =
        blocks.iter().flat_map(|block| block.samples.iter().flat_map(|s| s.to_le_bytes())).collect();
    for duration in [10u8, 5, 4, 2, 1] {
        let mut packetizer = Packetizer::new(duration);
        let mut payload: Vec<u8> = Vec::new();
        for block in &blocks {
            for packet in packetizer.packetize(block) {
                assert_eq!(packet.payload.len(), 192 * duration as usize);
                payload.extend(packet.payload);
            }
        }
        assert_eq!(payload, expected);
    }
}

#[test]
fn pairing_qr_marks_an_unencodable_uri_unavailable() {
    let pairing = PairingInfo { host: [192, 168, 1, 42], port: 48_400, uri: PAIRING_URI.to_owned() };
    let mut info = ui_info(Ok(pairing));
    let matrix = pairing_qr(&mut info).unwrap();
    assert!(matrix.size() >= 21);
    assert!(info.pairing.is_ok());

    let mut without = ui_info(Err("no LAN".to_owned()));
    assert!(pairing_qr(&mut without).is_none());
    assert_eq!(without.pairing.unwrap_err(), "no LAN");

    let oversized = PairingInfo { host: [10, 0, 0, 1], port: 1, uri: "x".repeat(4_000) };
    let mut too_long = ui_info(Ok(oversized));
    assert!(pairing_qr(&mut too_long).is_none());
    let message = too_long.pairing.unwrap_err();
    assert!(message.starts_with("QR encoding failed: "));
}

#[test]
fn debug_capture_writes_little_endian_pcm() {
    let block = ramp_block(0);
    let bytes = block_pcm_le(&block);
    assert_eq!(bytes.len(), 1920);
    assert_eq!(&bytes[..4], &[0x20, 0xFE, 0x21, 0xFE]);
    assert_eq!(&bytes[1918..], &[0xDF, 0x01]);
}

#[test]
fn chosen_duration_keeps_every_datagram_within_the_limit() {
    for max_datagram_size in [204usize, 400, 780, 972, 1_200, 1_932, 65_527] {
        let duration = choose_packet_duration_ms(max_payload_len(Some(max_datagram_size))).unwrap();
        let mut packetizer = Packetizer::new(duration);
        for packet in packetizer.packetize(&ramp_block(0)) {
            let datagram = encode_datagram(&packet, Some(max_datagram_size)).unwrap();
            assert!(datagram.len() <= max_datagram_size);
        }
    }
}

#[test]
fn receiver_decodes_what_the_sender_encoded() {
    let block = ramp_block(0);
    let mut packetizer = Packetizer::new(10);
    let packet = packetizer.packetize(&block).remove(0);
    let mut ring = PcmRingBuffer::new(960);
    assert!(ring.write_pcm_le(&packet.payload));
    let mut output = [0_i16; 960];
    assert_eq!(ring.read_into(&mut output), 960);
    assert_eq!(output, block.samples);
}

#[test]
fn enqueue_step_counts_each_dropped_block() {
    assert_eq!(enqueue_step(SendOutcome::Sent, None, None), EnqueueOutcome { delivered: true, dropped: 0 });
    assert_eq!(enqueue_step(SendOutcome::Disconnected, None, None), EnqueueOutcome { delivered: false, dropped: 1 });
    assert_eq!(
        enqueue_step(SendOutcome::Full, Some(ReceiveOutcome::Received), Some(SendOutcome::Sent)),
        EnqueueOutcome { delivered: true, dropped: 1 }
    );
    assert_eq!(
        enqueue_step(SendOutcome::Full, Some(ReceiveOutcome::Empty), Some(SendOutcome::Sent)),
        EnqueueOutcome { delivered: true, dropped: 0 }
    );
    assert_eq!(
        enqueue_step(SendOutcome::Full, Some(ReceiveOutcome::Received), Some(SendOutcome::Full)),
        EnqueueOutcome { delivered: false, dropped: 2 }
    );
    assert_eq!(
        enqueue_step(SendOutcome::Full, Some(ReceiveOutcome::Disconnected), None),
        EnqueueOutcome { delivered: false, dropped: 1 }
    );
}
