//! Packetizing blocks for the negotiated packet duration, and the server's
//! side of the control handshake.

use vstd::prelude::*;
use crate::audio_common::frame::{CHANNELS, SAMPLE_RATE};
use crate::protocol::audio::{packet_wire_bytes, AudioPacket, AUDIO_PACKET_HEADER_LEN};
use crate::protocol::control::{
    control_message_debug, push_control_message_debug, ControlMessage, SampleFormat, StreamInfo,
    PROTOCOL_VERSION,
};
use crate::server::capture::{PcmBlock, BLOCK_SAMPLE_COUNT};
use crate::client::jitter::{sequence_plus, wrapping_add_u64};
use crate::client::state::wrapping_add;
use crate::text::{decimal_digits, push_decimal, push_str};
use crate::transport::datagram::{check_datagram_support, max_payload_len};
use crate::transport::error::TransportError;

verus! {

/// Blocks that the capture queue holds before it discards the oldest.
pub const FRAME_QUEUE_CAPACITY: usize = 8;

/// Packets sent and packets dropped by a full local datagram queue.
pub struct StreamCounters {
    pub packets_sent: u64,
    pub packets_dropped: u64,
}

impl Default for StreamCounters {
    fn default() -> (c: Self)
        ensures
            c.packets_sent == 0,
            c.packets_dropped == 0,
    {
        StreamCounters { packets_sent: 0, packets_dropped: 0 }
    }
}

impl StreamCounters {
    pub fn record_sent(&mut self)
        ensures
            final(self).packets_sent == wrapping_add(old(self).packets_sent, 1),
            final(self).packets_dropped == old(self).packets_dropped,
    {
        self.packets_sent = self.packets_sent.wrapping_add(1);
    }

    pub fn record_dropped(&mut self)
        ensures
            final(self).packets_dropped == wrapping_add(old(self).packets_dropped, 1),
            final(self).packets_sent == old(self).packets_sent,
    {
        self.packets_dropped = self.packets_dropped.wrapping_add(1);
    }
}

/// Interleaved stereo samples in a packet of `frame_duration_ms` at 48 kHz.
pub open spec fn spec_samples_per_packet(frame_duration_ms: u8) -> nat {
    (48000 * frame_duration_ms as nat / 1000) * 2
}

pub fn samples_per_packet(frame_duration_ms: u8) -> (n: usize)
    ensures
        n == spec_samples_per_packet(frame_duration_ms),
        n == 96 * frame_duration_ms,
{
    let rate: usize = SAMPLE_RATE as usize;
    let duration: usize = frame_duration_ms as usize;
    assert(rate * duration == 48000 * frame_duration_ms && rate * duration <= 12240000) by (nonlinear_arith)
        requires
            rate == 48000,
            duration == frame_duration_ms,
            duration <= 255,
    ;
    let per_channel: usize = rate * duration / 1_000;
    assert(per_channel == 48 * frame_duration_ms);
    per_channel * 2
}

/// The packet durations tried, largest first.
pub open spec fn packet_durations() -> Seq<u8> {
    seq![10u8, 5u8, 4u8, 2u8, 1u8]
}

/// The message when not even a 1 ms packet fits.
pub open spec fn no_packet_duration_message(max_payload_bytes: usize) -> Seq<char> {
    "QUIC only permits "@ + decimal_digits(max_payload_bytes as nat)
        + " bytes of audio payload; at least 192 bytes are required for 1 ms stereo PCM"@
}

/// Chooses the largest packet duration, among 10, 5, 4, 2 and 1 ms, whose PCM
/// payload fits the datagram payload that QUIC advertised for this connection.
pub fn choose_packet_duration_ms(max_payload_bytes: usize) -> (result: Result<u8, String>)
    ensures
        match result {
            Ok(d) => exists|k: int| 0 <= k < 5 && packet_durations()[k] == d
                && 192 * d <= max_payload_bytes
                && forall|j: int| 0 <= j < k ==> 192 * packet_durations()[j] > max_payload_bytes,
            Err(m) => max_payload_bytes < 192 && m@ == no_packet_duration_message(max_payload_bytes),
        },
        (result is Ok) <==> max_payload_bytes >= 192,
{
    let durations: [u8; 5] = [10, 5, 4, 2, 1];
    let mut k: usize = 0;
    while k < 5
        invariant
            k <= 5,
            durations@ == packet_durations(),
            forall|j: int| 0 <= j < k ==> 192 * packet_durations()[j] > max_payload_bytes,
        decreases 5 - k,
    {
        let duration_ms = durations[k];
        let bytes = samples_per_packet(duration_ms) * 2;
        if bytes <= max_payload_bytes {
            return Ok(duration_ms);
        }
        k += 1;
    }
    assert(192 * packet_durations()[4] > max_payload_bytes);
    let mut text = String::new();
    push_str(&mut text, "QUIC only permits ");
    push_decimal(&mut text, max_payload_bytes as u64);
    push_str(&mut text, " bytes of audio payload; at least ");
    push_decimal(&mut text, (samples_per_packet(1) * 2) as u64);
    push_str(&mut text, " bytes are required for 1 ms stereo PCM");
    proof {
        reveal_with_fuel(decimal_digits, 4);
        reveal_strlit(" bytes of audio payload; at least ");
        reveal_strlit(" bytes are required for 1 ms stereo PCM");
        reveal_strlit(" bytes of audio payload; at least 192 bytes are required for 1 ms stereo PCM");
    }
    assert(text@ =~= no_packet_duration_message(max_payload_bytes));
    Err(text)
}

/// Little-endian bytes of samples, two per sample.
pub open spec fn le_bytes(samples: Seq<i16>) -> Seq<u8> {
    Seq::new(
        2 * samples.len(),
        |i: int| if i % 2 == 0 {
            ((samples[i / 2] as u16) & 0xff) as u8
        } else {
            ((samples[i / 2] as u16) >> 8) as u8
        },
    )
}

/// What the receiver decodes from the sender's little-endian payload is
/// exactly the samples the sender encoded.
pub proof fn lemma_le_round_trip(samples: Seq<i16>)
    ensures
        crate::client::ring_buffer::le_samples(le_bytes(samples)) == samples,
{
    let bytes = le_bytes(samples);
    let decoded = crate::client::ring_buffer::le_samples(bytes);
    assert forall|i: int| 0 <= i < samples.len() implies decoded[i] == samples[i] by {
        let x = samples[i];
        assert(bytes[2 * i] == ((x as u16) & 0xff) as u8);
        assert(bytes[2 * i + 1] == ((x as u16) >> 8) as u8);
        assert((((((x as u16) >> 8) as u8) as u16) << 8 | ((((x as u16) & 0xff) as u8) as u16)) as i16 == x)
            by (bit_vector);
    }
    assert(decoded =~= samples);
}

/// Little-endian encoding of two runs of samples is the encoding of the first
/// followed by that of the second.
proof fn lemma_le_bytes_append(x: Seq<i16>, y: Seq<i16>)
    ensures
        le_bytes(x + y) == le_bytes(x) + le_bytes(y),
{
    let l = le_bytes(x + y);
    let r = le_bytes(x) + le_bytes(y);
    assert forall|i: int| 0 <= i < l.len() implies l[i] == r[i] by {
        if i >= 2 * x.len() {
            let j = i - 2 * x.len();
            assert(i / 2 == j / 2 + x.len());
            assert(i % 2 == j % 2);
            assert((x + y)[i / 2] == y[j / 2]);
        } else {
            assert((x + y)[i / 2] == x[i / 2]);
        }
    }
    assert(l =~= r);
}

/// The payloads of packets, one after another.
pub open spec fn packet_payloads(packets: Seq<AudioPacket>) -> Seq<u8>
    decreases packets.len(),
{
    if packets.len() == 0 {
        Seq::empty()
    } else {
        packet_payloads(packets.drop_last()) + packets.last().payload@
    }
}

/// Packet `k` carries the `k`-th run of `n` samples of `samples`, and the
/// packets cover no more than the samples there are.
pub open spec fn carries_chunks(packets: Seq<AudioPacket>, samples: Seq<i16>, n: int) -> bool {
    &&& packets.len() * n <= samples.len()
    &&& forall|k: int| 0 <= k < packets.len() ==> (#[trigger] packets[k]).payload@ == le_bytes(
        samples.subrange(k * n, k * n + n),
    )
}

proof fn lemma_payload_prefix(packets: Seq<AudioPacket>, samples: Seq<i16>, n: int, m: int)
    requires
        0 < n,
        carries_chunks(packets, samples, n),
        0 <= m <= packets.len(),
    ensures
        m * n <= samples.len(),
        packet_payloads(packets.take(m)) == le_bytes(samples.take(m * n)),
    decreases m,
{
    assert(m * n <= packets.len() * n) by (nonlinear_arith)
        requires
            0 < n,
            m <= packets.len(),
    ;
    if m == 0 {
        assert(packets.take(0) =~= Seq::<AudioPacket>::empty());
        assert(le_bytes(samples.take(0)) =~= Seq::<u8>::empty());
        assert(m * n == 0) by (nonlinear_arith)
            requires
                m == 0,
        ;
        assert(packet_payloads(packets.take(m)) == le_bytes(samples.take(m * n)));
    } else {
        assert((m - 1) * n + n == m * n) by (nonlinear_arith);
        assert(0 <= (m - 1) * n) by (nonlinear_arith)
            requires
                0 < n,
                0 < m,
        ;
        lemma_payload_prefix(packets, samples, n, m - 1);
        let a = (m - 1) * n;
        assert(packets.take(m).drop_last() =~= packets.take(m - 1));
        assert(packets[m - 1] == packets.take(m).last());
        assert(packets[m - 1].payload@ == le_bytes(samples.subrange(a, a + n)));
        lemma_le_bytes_append(samples.take(a), samples.subrange(a, a + n));
        assert(samples.take(a) + samples.subrange(a, a + n) =~= samples.take(m * n));
        assert(packets.take(m).len() == m);
        assert(packet_payloads(packets.take(m)) == packet_payloads(packets.take(m).drop_last())
            + packets.take(m).last().payload@);
        assert(packet_payloads(packets.take(m)) == le_bytes(samples.take(a)) + le_bytes(
            samples.subrange(a, a + n),
        ));
        assert(packet_payloads(packets.take(m)) == le_bytes(samples.take(a) + samples.subrange(a, a + n)));
        assert(packet_payloads(packets.take(m)) == le_bytes(samples.take(m * n)));
    }
}

/// Packets put back together are the samples they were cut from: their
/// payloads in order are the little-endian encoding of the first
/// `packets.len() * n` samples, and decoding them gives those samples back.
pub proof fn lemma_packets_reassemble(packets: Seq<AudioPacket>, samples: Seq<i16>, n: int)
    requires
        0 < n,
        carries_chunks(packets, samples, n),
    ensures
        packet_payloads(packets) == le_bytes(samples.take(packets.len() * n)),
        crate::client::ring_buffer::le_samples(packet_payloads(packets)) == samples.take(packets.len() * n),
{
    let m = packets.len() as int;
    lemma_payload_prefix(packets, samples, n, m);
    assert(packets.take(m) =~= packets);
    lemma_le_round_trip(samples.take(m * n));
}

/// Every packet carries exactly one packet duration of PCM, the `192 *
/// duration` bytes that the receiver's layout expects, at every negotiated
/// duration.
pub proof fn lemma_packets_match_receiver_layout(frame_duration_ms: u8, packets: Seq<AudioPacket>, samples: Seq<i16>)
    requires
        0 < frame_duration_ms,
        carries_chunks(packets, samples, 96 * frame_duration_ms as int),
    ensures
        forall|k: int| 0 <= k < packets.len() ==> (#[trigger] packets[k]).payload@.len() == 192
            * frame_duration_ms,
{
    let n = 96 * frame_duration_ms as int;
    assert forall|k: int| 0 <= k < packets.len() implies (#[trigger] packets[k]).payload@.len() == 192
        * frame_duration_ms by {
        assert(k * n + n <= packets.len() * n && 0 <= k * n) by (nonlinear_arith)
            requires
                0 < n,
                0 <= k < packets.len(),
        ;
        assert(packets[k].payload@ == le_bytes(samples.subrange(k * n, k * n + n)));
    }
}

/// With the packet duration chosen for a connection, every packet encodes to
/// a datagram that the connection accepts: no packet relies on IP
/// fragmentation.
pub proof fn lemma_block_packets_fit(
    max_datagram_size: usize,
    frame_duration_ms: u8,
    packets: Seq<AudioPacket>,
    samples: Seq<i16>,
)
    requires
        max_datagram_size >= AUDIO_PACKET_HEADER_LEN,
        0 < frame_duration_ms,
        192 * frame_duration_ms <= max_datagram_size - AUDIO_PACKET_HEADER_LEN,
        carries_chunks(packets, samples, 96 * frame_duration_ms as int),
    ensures
        forall|k: int| 0 <= k < packets.len() ==> (#[trigger] packet_wire_bytes(
            packets[k].sequence,
            packets[k].timestamp,
            packets[k].payload@,
        )).len() <= max_datagram_size,
{
    lemma_packets_match_receiver_layout(frame_duration_ms, packets, samples);
    assert forall|k: int| 0 <= k < packets.len() implies (#[trigger] packet_wire_bytes(
        packets[k].sequence,
        packets[k].timestamp,
        packets[k].payload@,
    )).len() <= max_datagram_size by {
        assert(packets[k].payload@.len() == 192 * frame_duration_ms);
    }
}

/// The timestamp of the first sample that the next packet carries: that of
/// the carried-over samples when there are any, else that of the block.
pub open spec fn start_timestamp(pending: Seq<i16>, pending_timestamp: u64, block_timestamp: u64) -> u64 {
    if pending.len() > 0 { pending_timestamp } else { block_timestamp }
}

/// Numbers packets and cuts captured samples into packets of exactly the
/// negotiated duration, carrying samples that do not fill a packet over to
/// the next block.
pub struct Packetizer {
    sequence: u32,
    samples_per_packet: usize,
    pending: Vec<i16>,
    pending_timestamp: u64,
}

impl Packetizer {
    pub fn new(frame_duration_ms: u8) -> (p: Self)
        ensures
            p.wf(),
            p.sequence() == 0,
            p.samples_per_packet() == 96 * frame_duration_ms,
            p.samples_per_packet() <= 24480,
            p.pending() == Seq::<i16>::empty(),
    {
        Packetizer {
            sequence: 0,
            samples_per_packet: samples_per_packet(frame_duration_ms),
            pending: Vec::new(),
            pending_timestamp: 0,
        }
    }

    /// The sequence number of the next packet.
    pub closed spec fn sequence(&self) -> u32 {
        self.sequence
    }

    pub closed spec fn samples_per_packet(&self) -> nat {
        self.samples_per_packet as nat
    }

    /// Samples waiting for the next block to fill a packet.
    pub closed spec fn pending(&self) -> Seq<i16> {
        self.pending@
    }

    /// The timestamp of the first waiting sample.
    pub closed spec fn pending_timestamp(&self) -> u64 {
        self.pending_timestamp
    }

    /// Fewer samples wait than fill a packet.
    pub closed spec fn wf(&self) -> bool {
        self.pending@.len() == 0 || self.pending@.len() < self.samples_per_packet
    }

    /// Appends the block to the waiting samples and cuts them into packets of
    /// exactly `samples_per_packet` samples, numbered consecutively, each
    /// stamped with the timestamp of its first sample and carrying its samples
    /// as little-endian PCM; what does not fill a packet waits for the next block.
    pub fn packetize(&mut self, block: &PcmBlock) -> (packets: Vec<AudioPacket>)
        requires
            old(self).wf(),
            0 < old(self).samples_per_packet() <= 24480,
        ensures
            final(self).wf(),
            final(self).samples_per_packet() == old(self).samples_per_packet(),
            ({
                let all = old(self).pending() + block.samples@;
                let n = old(self).samples_per_packet() as int;
                let ts = start_timestamp(old(self).pending(), old(self).pending_timestamp(), block.timestamp);
                &&& packets@.len() == (all.len() as int) / n
                &&& carries_chunks(packets@, all, n)
                &&& final(self).pending() == all.skip(packets@.len() * n)
                &&& final(self).sequence() == sequence_plus(old(self).sequence(), packets@.len())
                &&& final(self).pending_timestamp() == wrapping_add_u64(ts, (packets@.len() * n / 2) as u64)
                &&& forall|k: int| 0 <= k < packets@.len() ==> {
                    &&& (#[trigger] packets@[k]).sequence == sequence_plus(old(self).sequence(), k as nat)
                    &&& packets@[k].timestamp == wrapping_add_u64(ts, (k * n / 2) as u64)
                    &&& packets@[k].payload@.len() == 2 * n
                }
            }),
    {
        let n = self.samples_per_packet;
        let ghost seq0 = self.sequence;
        let ts0: u64 = if self.pending.len() > 0 { self.pending_timestamp } else { block.timestamp };
        let mut all: Vec<i16> = Vec::new();
        let mut j: usize = 0;
        let pn = self.pending.len();
        while j < pn
            invariant
                pn == self.pending@.len(),
                self.pending@ == old(self).pending(),
                j <= pn,
                all@ == self.pending@.take(j as int),
            decreases pn - j,
        {
            all.push(self.pending[j]);
            j += 1;
            assert(all@ =~= self.pending@.take(j as int));
        }
        let mut j: usize = 0;
        while j < BLOCK_SAMPLE_COUNT
            invariant
                pn == old(self).pending().len(),
                pn < 24480,
                block.samples@.len() == BLOCK_SAMPLE_COUNT,
                j <= BLOCK_SAMPLE_COUNT,
                all@ == old(self).pending() + block.samples@.take(j as int),
            decreases BLOCK_SAMPLE_COUNT - j,
        {
            all.push(block.samples[j]);
            j += 1;
            assert(all@ =~= old(self).pending() + block.samples@.take(j as int));
        }
        assert(block.samples@.take(BLOCK_SAMPLE_COUNT as int) =~= block.samples@);
        let len = all.len();
        let mut packets: Vec<AudioPacket> = Vec::new();
        let mut start: usize = 0;
        assert(start == packets@.len() * n) by (nonlinear_arith)
            requires
                start == 0,
                packets@.len() == 0,
        ;
        while start + n <= len
            invariant
                n == self.samples_per_packet,
                0 < n <= 24480,
                len == all@.len(),
                len < 24480 + BLOCK_SAMPLE_COUNT,
                all@ == old(self).pending() + block.samples@,
                start == packets@.len() * n,
                start <= len,
                seq0 == old(self).sequence(),
                self.sequence == sequence_plus(seq0, packets@.len()),
                ts0 == start_timestamp(old(self).pending(), old(self).pending_timestamp(), block.timestamp),
                packets@.len() * n <= all@.len(),
                forall|k: int| 0 <= k < packets@.len() ==> (#[trigger] packets@[k]).payload@ == le_bytes(
                    all@.subrange(k * n, k * n + n),
                ),
                forall|k: int| 0 <= k < packets@.len() ==> {
                    &&& (#[trigger] packets@[k]).sequence == sequence_plus(seq0, k as nat)
                    &&& packets@[k].timestamp == wrapping_add_u64(ts0, (k * n / 2) as u64)
                    &&& packets@[k].payload@.len() == 2 * n
                },
            decreases len - start,
        {
            let end: usize = start + n;
            let mut payload: Vec<u8> = Vec::new();
            let mut i: usize = start;
            while i < end
                invariant
                    start <= i <= end,
                    end <= all@.len(),
                    payload@ == le_bytes(all@.subrange(start as int, i as int)),
                decreases end - i,
            {
                let sample = all[i];
                payload.push(((sample as u16) & 0xff) as u8);
                payload.push(((sample as u16) >> 8) as u8);
                i += 1;
                assert(payload@ =~= le_bytes(all@.subrange(start as int, i as int)));
            }
            let timestamp = ts0.wrapping_add((start / 2) as u64);
            let packet = AudioPacket::new(self.sequence, timestamp, payload);
            self.sequence = self.sequence.wrapping_add(1);
            let ghost k = packets@.len();
            packets.push(packet);
            start = end;
            assert(start == packets@.len() * n) by (nonlinear_arith)
                requires
                    start == k * n + n,
                    packets@.len() == k + 1,
            ;
        }
        let mut rest: Vec<i16> = Vec::new();
        let mut i: usize = start;
        while i < len
            invariant
                start <= i <= len,
                len == all@.len(),
                rest@ == all@.subrange(start as int, i as int),
            decreases len - i,
        {
            rest.push(all[i]);
            i += 1;
            assert(rest@ =~= all@.subrange(start as int, i as int));
        }
        proof {
            let m = packets@.len() as int;
            assert(m == (len as int) / (n as int)) by (nonlinear_arith)
                requires
                    start == m * n,
                    start <= len,
                    len < start + n,
                    0 < n,
            ;
            assert(rest@ =~= all@.skip(m * n));
        }
        self.pending = rest;
        self.pending_timestamp = ts0.wrapping_add((start / 2) as u64);
        packets
    }
}

/// The message when a client's first message is not a `Hello`.
pub open spec fn client_hello_error(message: ControlMessage) -> Seq<char> {
    match message {
        ControlMessage::Hello { protocol_version } => "unsupported client protocol version "@ + decimal_digits(
            protocol_version as nat,
        ),
        _ => "expected Hello from client, got "@ + control_message_debug(message),
    }
}

/// Checks a client's first control message: it must be `Hello` with our protocol version.
pub fn check_client_hello(message: ControlMessage) -> (result: Result<(), String>)
    ensures
        (result is Ok) <==> message == (ControlMessage::Hello { protocol_version: PROTOCOL_VERSION }),
        result matches Err(m) ==> m@ == client_hello_error(message),
{
    let mut text = String::new();
    match message {
        ControlMessage::Hello { protocol_version } => {
            if protocol_version == PROTOCOL_VERSION {
                return Ok(());
            }
            push_str(&mut text, "unsupported client protocol version ");
            push_decimal(&mut text, protocol_version as u64);
        },
        _ => {
            push_str(&mut text, "expected Hello from client, got ");
            push_control_message_debug(&mut text, message);
        },
    }
    Err(text)
}

/// The server's reply to an accepted `Hello`: its own `Hello`, the stream
/// format with the chosen packet duration, and `Start`.
pub fn handshake_replies(frame_duration_ms: u8) -> (replies: Vec<ControlMessage>)
    ensures
        replies@ == seq![
            ControlMessage::Hello { protocol_version: PROTOCOL_VERSION },
            ControlMessage::StreamInfo(StreamInfo {
                sample_rate: SAMPLE_RATE,
                channels: CHANNELS,
                sample_format: SampleFormat::I16Le,
                frame_duration_ms,
            }),
            ControlMessage::Start,
        ],
{
    let mut replies: Vec<ControlMessage> = Vec::new();
    replies.push(ControlMessage::Hello { protocol_version: PROTOCOL_VERSION });
    replies.push(ControlMessage::StreamInfo(StreamInfo {
        sample_rate: SAMPLE_RATE,
        channels: CHANNELS,
        sample_format: SampleFormat::I16Le,
        frame_duration_ms,
    }));
    replies.push(ControlMessage::Start);
    assert(replies@ =~= seq![
        ControlMessage::Hello { protocol_version: PROTOCOL_VERSION },
        ControlMessage::StreamInfo(StreamInfo {
            sample_rate: SAMPLE_RATE,
            channels: CHANNELS,
            sample_format: SampleFormat::I16Le,
            frame_duration_ms,
        }),
        ControlMessage::Start,
    ]);
    replies
}

/// What the server does with a control message from a streaming client.
#[derive(Clone, Copy, Debug, PartialEq, Eq, Structural)]
pub enum ClientMessageAction {
    /// The client asked to stop; the session ends.
    StopStream,
    /// Answer a ping with a pong that carries the same timestamp.
    SendPong { timestamp: u64 },
    /// Any other message is ignored.
    Ignore,
}

pub fn client_message_action(message: ControlMessage) -> (action: ClientMessageAction)
    ensures
        action == match message {
            ControlMessage::Stop => ClientMessageAction::StopStream,
            ControlMessage::Ping { timestamp } => ClientMessageAction::SendPong { timestamp },
            _ => ClientMessageAction::Ignore,
        },
{
    match message {
        ControlMessage::Stop => ClientMessageAction::StopStream,
        ControlMessage::Ping { timestamp } => ClientMessageAction::SendPong { timestamp },
        _ => ClientMessageAction::Ignore,
    }
}

/// What the server settled in the handshake: the packet duration and the
/// replies to send, in order.
#[derive(Clone, Debug)]
pub struct HandshakePlan {
    pub frame_duration_ms: u8,
    pub replies: Vec<ControlMessage>,
}

/// Answers a client's first message given the largest datagram the
/// connection accepts (`None` without datagram support): the hello must
/// match, datagrams must be supported, and the largest packet duration that
/// fits is announced.
pub fn plan_server_handshake(hello: ControlMessage, max_datagram_size: Option<usize>) -> (result: Result<
    HandshakePlan,
    String,
>)
    ensures
        hello != (ControlMessage::Hello { protocol_version: PROTOCOL_VERSION }) ==> (result matches Err(m) && m@
            == client_hello_error(hello)),
        hello == (ControlMessage::Hello { protocol_version: PROTOCOL_VERSION }) ==> match max_datagram_size {
            None => result matches Err(m) && m@ == "client does not support QUIC datagrams"@,
            Some(size) => {
                let payload: usize = if size >= 12 { (size - 12) as usize } else { 0 };
                if payload < 192 {
                    result matches Err(m) && m@ == no_packet_duration_message(payload)
                } else {
                    result matches Ok(plan) && {
                        &&& exists|k: int| 0 <= k < 5 && packet_durations()[k] == plan.frame_duration_ms
                            && 192 * plan.frame_duration_ms <= payload
                            && forall|j: int| 0 <= j < k ==> 192 * packet_durations()[j] > payload
                        &&& plan.replies@ == seq![
                            ControlMessage::Hello { protocol_version: PROTOCOL_VERSION },
                            ControlMessage::StreamInfo(StreamInfo {
                                sample_rate: SAMPLE_RATE,
                                channels: CHANNELS,
                                sample_format: SampleFormat::I16Le,
                                frame_duration_ms: plan.frame_duration_ms,
                            }),
                            ControlMessage::Start,
                        ]
                    }
                }
            },
        },
{
    if let Err(e) = check_client_hello(hello) {
        return Err(e);
    }
    if let Err(_) = check_datagram_support(max_datagram_size) {
        let mut text = String::new();
        push_str(&mut text, "client does not support QUIC datagrams");
        return Err(text);
    }
    let frame_duration_ms = match choose_packet_duration_ms(max_payload_len(max_datagram_size)) {
        Ok(d) => d,
        Err(e) => return Err(e),
    };
    Ok(HandshakePlan { frame_duration_ms, replies: handshake_replies(frame_duration_ms) })
}

/// What the sender does after handing a packet to QUIC.
#[derive(Clone, Copy, Debug, PartialEq, Eq, Structural)]
pub enum SendDisposition {
    /// Count the packet as sent.
    Sent,
    /// A full local datagram queue: count the packet as dropped and go on.
    Dropped,
    /// Any other failure ends the sender.
    Fail,
}

/// A full QUIC send queue is loss, not a reason to buffer old audio; any
/// other error is fatal.
pub fn send_disposition(result: &Result<(), TransportError>) -> (d: SendDisposition)
    ensures
        d == match result {
            Ok(()) => SendDisposition::Sent,
            Err(TransportError::Quinn(_)) => SendDisposition::Dropped,
            Err(_) => SendDisposition::Fail,
        },
{
    match result {
        Ok(()) => SendDisposition::Sent,
        Err(TransportError::Quinn(_)) => SendDisposition::Dropped,
        Err(_) => SendDisposition::Fail,
    }
}

} // verus!
