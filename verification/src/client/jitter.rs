//! Reorders incoming audio packets and turns confirmed losses into silence.

use vstd::prelude::*;
use std::collections::BTreeMap;
use crate::protocol::audio::AudioPacket;

verus! {

/// One item ready to enter the PCM ring. Lost packets become silence;
/// playback never waits indefinitely for an old datagram.
#[derive(Debug)]
pub enum JitterOutput {
    Audio(AudioPacket),
    Silence,
}

pub struct JitterBuffer {
    expected_sequence: Option<u32>,
    expected_timestamp: Option<u64>,
    packets: BTreeMap<u32, AudioPacket>,
    target_packets: usize,
    max_packets: usize,
    frame_samples_per_channel: u64,
    started: bool,
    lost_packets: u64,
    late_packets: u64,
}

/// The abstract state of a jitter buffer.
#[verifier::ext_equal]
pub struct JitterView {
    pub expected_sequence: Option<u32>,
    pub expected_timestamp: Option<u64>,
    /// Held packets keyed by sequence number.
    pub packets: Map<u32, AudioPacket>,
    pub target_packets: nat,
    pub max_packets: nat,
    pub frame_samples_per_channel: u64,
    pub started: bool,
    pub lost_packets: u64,
    pub late_packets: u64,
}

impl View for JitterBuffer {
    type V = JitterView;

    closed spec fn view(&self) -> JitterView {
        JitterView {
            expected_sequence: self.expected_sequence,
            expected_timestamp: self.expected_timestamp,
            packets: self.packets@,
            target_packets: self.target_packets as nat,
            max_packets: self.max_packets as nat,
            frame_samples_per_channel: self.frame_samples_per_channel,
            started: self.started,
            lost_packets: self.lost_packets,
            late_packets: self.late_packets,
        }
    }
}

/// How far `sequence` lies ahead of `reference`, counting modulo 2^32.
pub open spec fn sequence_distance(sequence: u32, reference: u32) -> int {
    if sequence < reference {
        sequence as int - reference as int + 0x1_0000_0000
    } else {
        sequence as int - reference as int
    }
}

pub open spec fn spec_sequence_is_before(sequence: u32, reference: u32) -> bool {
    let d = sequence_distance(sequence, reference);
    d != 0 && d >= 0x8000_0000
}

pub open spec fn spec_sequence_is_after(sequence: u32, reference: u32) -> bool {
    let d = sequence_distance(sequence, reference);
    d != 0 && d < 0x8000_0000
}

/// `x + 1` modulo 2^32.
pub open spec fn next_sequence(x: u32) -> u32 {
    if x == u32::MAX { 0 } else { (x + 1) as u32 }
}

/// `x + k` modulo 2^32.
pub open spec fn sequence_plus(x: u32, k: nat) -> u32
    decreases k,
{
    if k == 0 {
        x
    } else {
        next_sequence(sequence_plus(x, (k - 1) as nat))
    }
}

/// `x + y` modulo 2^64.
pub open spec fn wrapping_add_u64(x: u64, y: u64) -> u64 {
    if x + y > u64::MAX { (x + y - 0x1_0000_0000_0000_0000) as u64 } else { (x + y) as u64 }
}

pub open spec fn saturating_inc(x: u64) -> u64 {
    if x == u64::MAX { x } else { (x + 1) as u64 }
}

/// Some held packet lies after `expected`.
pub open spec fn has_newer_packet(packets: Map<u32, AudioPacket>, expected: u32) -> bool {
    exists|k: u32| #[trigger] packets.contains_key(k) && spec_sequence_is_after(k, expected)
}

/// Whether the drain loop takes another step from state `s`.
pub open spec fn drain_continues(s: JitterView) -> bool {
    match s.expected_sequence {
        None => false,
        Some(e) => s.packets.contains_key(e) || (has_newer_packet(s.packets, e) && !(
        s.packets.len() < s.target_packets && s.packets.len() < s.max_packets)),
    }
}

/// One step of the drain: hand out the expected packet, or declare it lost.
pub open spec fn drain_step(s: JitterView) -> (JitterView, JitterOutput) {
    let e = s.expected_sequence.unwrap();
    if s.packets.contains_key(e) {
        let p = s.packets[e];
        (
            JitterView {
                expected_sequence: Some(next_sequence(e)),
                expected_timestamp: Some(wrapping_add_u64(p.timestamp, s.frame_samples_per_channel)),
                packets: s.packets.remove(e),
                ..s
            },
            JitterOutput::Audio(p),
        )
    } else {
        let t = match s.expected_timestamp {
            Some(t) => t,
            None => 0,
        };
        (
            JitterView {
                expected_sequence: Some(next_sequence(e)),
                expected_timestamp: Some(wrapping_add_u64(t, s.frame_samples_per_channel)),
                lost_packets: saturating_inc(s.lost_packets),
                ..s
            },
            JitterOutput::Silence,
        )
    }
}

/// The state and outputs after `n` drain steps from `s`.
pub open spec fn drain_steps(s: JitterView, n: nat) -> (JitterView, Seq<JitterOutput>)
    decreases n,
{
    if n == 0 {
        (s, Seq::empty())
    } else {
        let (s1, out) = drain_steps(s, (n - 1) as nat);
        let (s2, o) = drain_step(s1);
        (s2, out.push(o))
    }
}

/// `after` and `outputs` are what draining `s` to a standstill produces.
pub open spec fn drained(s: JitterView, after: JitterView, outputs: Seq<JitterOutput>) -> bool {
    if !s.started && s.packets.len() < s.target_packets {
        after == s && outputs == Seq::<JitterOutput>::empty()
    } else {
        let s2 = JitterView { started: true, ..s };
        &&& drain_steps(s2, outputs.len()) == (after, outputs)
        &&& forall|i: nat| i < outputs.len() ==> #[trigger] drain_continues(drain_steps(s2, i).0)
        &&& !drain_continues(after)
    }
}

/// What `push(packet)` does to a buffer in state `s`.
pub open spec fn pushed(s: JitterView, packet: AudioPacket, after: JitterView, outputs: Seq<JitterOutput>) -> bool {
    let e = match s.expected_sequence {
        Some(e) => e,
        None => packet.sequence,
    };
    if spec_sequence_is_before(packet.sequence, e) || s.packets.contains_key(packet.sequence) {
        &&& outputs == Seq::<JitterOutput>::empty()
        &&& after == JitterView {
            expected_sequence: Some(e),
            late_packets: saturating_inc(s.late_packets),
            ..s
        }
    } else {
        drained(
            JitterView {
                expected_sequence: Some(e),
                packets: s.packets.insert(packet.sequence, packet),
                ..s
            },
            after,
            outputs,
        )
    }
}

impl JitterView {
    /// The invariant that every jitter buffer keeps between calls.
    pub open spec fn wf(self) -> bool {
        &&& 1 <= self.target_packets <= self.max_packets
        &&& self.max_packets <= usize::MAX
        &&& self.packets.dom().finite()
        &&& self.packets.len() < self.target_packets
        &&& (self.expected_sequence is None ==> self.packets.is_empty())
        &&& forall|k: u32| #[trigger] self.packets.contains_key(k) ==> self.packets[k].sequence == k
        &&& forall|k: u32| #[trigger] self.packets.contains_key(k) ==> !spec_sequence_is_before(
            k,
            self.expected_sequence.unwrap(),
        )
    }
}


pub fn sequence_is_before(sequence: u32, reference: u32) -> (r: bool)
    ensures
        r == spec_sequence_is_before(sequence, reference),
{
    let distance = sequence.wrapping_sub(reference);
    distance != 0 && distance >= 0x8000_0000u32
}

pub fn sequence_is_after(sequence: u32, reference: u32) -> (r: bool)
    ensures
        r == spec_sequence_is_after(sequence, reference),
{
    let distance = sequence.wrapping_sub(reference);
    distance != 0 && distance < 0x8000_0000u32
}

impl JitterBuffer {
    pub fn new(target_packets: usize, frame_samples_per_channel: u64) -> (buffer: Self)
        ensures
            buffer@.wf(),
            buffer@.target_packets == if target_packets == 0 { 1 } else { target_packets },
            buffer@.max_packets == ({
                let t = if target_packets == 0 { 1 } else { target_packets as int };
                let m = if t * 3 > usize::MAX { usize::MAX as int } else { t * 3 };
                if m < 4 { 4 } else { m }
            }),
            buffer@.expected_sequence is None,
            buffer@.expected_timestamp is None,
            buffer@.packets.is_empty(),
            buffer@.frame_samples_per_channel == frame_samples_per_channel,
            !buffer@.started,
            buffer@.lost_packets == 0,
            buffer@.late_packets == 0,
    {
        let target_packets: usize = if target_packets < 1 { 1 } else { target_packets };
        let tripled: usize = if target_packets > usize::MAX / 3 { usize::MAX } else { target_packets * 3 };
        let max_packets: usize = if tripled < 4 { 4 } else { tripled };
        let buffer = JitterBuffer {
            expected_sequence: None,
            expected_timestamp: None,
            packets: BTreeMap::new(),
            target_packets,
            max_packets,
            frame_samples_per_channel,
            started: false,
            lost_packets: 0,
            late_packets: 0,
        };
        proof {
            broadcast use vstd::std_specs::btree::group_btree_axioms;
        }
        buffer
    }

    pub fn lost_packets(&self) -> (n: u64)
        ensures
            n == self@.lost_packets,
    {
        self.lost_packets
    }

    pub fn late_packets(&self) -> (n: u64)
        ensures
            n == self@.late_packets,
    {
        self.late_packets
    }

    /// Accepts one packet and returns every item that is now ready for playback,
    /// in playback order. A packet that is late or already held is counted and dropped.
    pub fn push(&mut self, packet: AudioPacket) -> (outputs: Vec<JitterOutput>)
        requires
            old(self)@.wf(),
        ensures
            final(self)@.wf(),
            pushed(old(self)@, packet, final(self)@, outputs@),
            !spec_sequence_is_before(
                packet.sequence,
                match old(self)@.expected_sequence {
                    Some(e) => e,
                    None => packet.sequence,
                },
            ) && !old(self)@.packets.contains_key(packet.sequence) ==> final(self)@.late_packets
                == old(self)@.late_packets,
    {
        broadcast use vstd::std_specs::btree::group_btree_axioms;
        let expected = match self.expected_sequence {
            Some(e) => e,
            None => {
                self.expected_sequence = Some(packet.sequence);
                packet.sequence
            },
        };
        if sequence_is_before(packet.sequence, expected) || self.packets.contains_key(&packet.sequence) {
            self.late_packets = self.late_packets.saturating_add(1);
            assert(self@ =~= JitterView {
                expected_sequence: Some(expected),
                late_packets: saturating_inc(old(self)@.late_packets),
                ..old(self)@
            });
            return Vec::new();
        }
        let ghost s1 = JitterView {
            expected_sequence: Some(expected),
            packets: old(self)@.packets.insert(packet.sequence, packet),
            ..old(self)@
        };
        let ghost pk = packet;
        let key = packet.sequence;
        self.packets.insert(key, packet);
        assert(self@ =~= s1);
        let outputs = self.drain_ready();
        proof {
            lemma_accepted_push_is_kept(old(self)@, pk, self@, outputs@);
        }
        outputs
    }

    /// Whether any held packet lies after `expected`.
    fn has_newer_packet(&self, expected: u32) -> (r: bool)
        ensures
            r == has_newer_packet(self@.packets, expected),
    {
        broadcast use vstd::std_specs::btree::group_btree_axioms;
        let mut found = false;
        let ghost m = self.packets@;
        let ghost mut seen: Seq<u32> = Seq::empty();
        for k in it: self.packets.keys()
            invariant
                it.seq().unref().to_set() == m.dom(),
                seen == it.seq().unref().take(it.index() as int),
                found == exists|j: int| 0 <= j < seen.len() && spec_sequence_is_after(#[trigger] seen[j], expected),
                it.index() == it.seq().len() ==> seen.to_set() == m.dom(),
        {
            let ghost before = seen;
            if sequence_is_after(*k, expected) {
                found = true;
            }
            proof {
                seen = seen.push(*k);
                assert(seen =~= it.seq().unref().take(it.index() + 1));
                assert(seen[seen.len() - 1] == *k);
                if found {
                    if spec_sequence_is_after(*k, expected) {
                        assert(spec_sequence_is_after(seen[seen.len() - 1], expected));
                    } else {
                        let j = choose|j: int| 0 <= j < before.len() && spec_sequence_is_after(#[trigger] before[j], expected);
                        assert(seen[j] == before[j]);
                    }
                }
            }
            assert(it.index() + 1 == it.seq().len() ==> seen =~= it.seq().unref());
        }
        proof {
            if found {
                let j = choose|j: int| 0 <= j < seen.len() && spec_sequence_is_after(#[trigger] seen[j], expected);
                assert(seen.to_set().contains(seen[j]));
                assert(m.contains_key(seen[j]));
            }
            if has_newer_packet(m, expected) {
                let k = choose|k: u32| #[trigger] m.contains_key(k) && spec_sequence_is_after(k, expected);
                assert(seen.to_set().contains(k));
                let j = choose|j: int| 0 <= j < seen.len() && seen[j] == k;
                assert(spec_sequence_is_after(seen[j], expected));
            }
        }
        found
    }

    fn drain_ready(&mut self) -> (outputs: Vec<JitterOutput>)
        requires
            old(self)@.expected_sequence is Some,
            ({
                let s = old(self)@;
                &&& 1 <= s.target_packets <= s.max_packets
                &&& s.max_packets <= usize::MAX
                &&& s.packets.dom().finite()
                &&& s.packets.len() <= s.target_packets
                &&& forall|k: u32| #[trigger] s.packets.contains_key(k) ==> s.packets[k].sequence == k
                &&& forall|k: u32| #[trigger] s.packets.contains_key(k) ==> !spec_sequence_is_before(k, s.expected_sequence.unwrap())
            }),
        ensures
            final(self)@.wf(),
            drained(old(self)@, final(self)@, outputs@),
    {
        broadcast use vstd::std_specs::btree::group_btree_axioms;
        if !self.started {
            if self.packets.len() < self.target_packets {
                return Vec::new();
            }
            self.started = true;
        }
        let ghost s2 = self@;
        assert(s2 =~= JitterView { started: true, ..old(self)@ });
        let ghost mut w: u32 = 0;
        let mut output: Vec<JitterOutput> = Vec::new();
        assert(drain_steps(s2, 0) == (s2, Seq::<JitterOutput>::empty()));
        loop
            invariant
                drain_steps(s2, output@.len()) == (self@, output@),
                forall|i: nat| i < output@.len() ==> #[trigger] drain_continues(drain_steps(s2, i).0),
                self@.expected_sequence is Some,
                drain_inv(self@),
            ensures
                !drain_continues(self@),
                drain_inv(self@),
            decreases drain_measure(self@, w),
        {
            let ghost before = self@;
            let ghost n = output@.len();
            let expected = match self.expected_sequence {
                Some(e) => e,
                None => break,
            };
            let removed = self.packets.remove(&expected);
            match removed {
                Some(packet) => {
                    assert(before.packets.contains_key(expected));
                    self.expected_sequence = Some(expected.wrapping_add(1));
                    self.expected_timestamp = Some(packet.timestamp.wrapping_add(self.frame_samples_per_channel));
                    output.push(JitterOutput::Audio(packet));
                    proof {
                        assert(self@ =~= drain_step(before).0);
                        assert(output@ =~= drain_steps(s2, n).1.push(drain_step(before).1));
                        assert(drain_continues(drain_steps(s2, n).0));
                        lemma_drain_inv_step(before);
                        lemma_drain_measure_remove(before, w, self@);
                    }
                    continue;
                },
                None => {},
            }
            assert(self@ =~= before);
            let has_newer = self.has_newer_packet(expected);
            if !has_newer || (self.packets.len() < self.target_packets && self.packets.len() < self.max_packets) {
                break;
            }
            let timestamp = match self.expected_timestamp {
                Some(t) => t,
                None => 0,
            };
            self.expected_timestamp = Some(timestamp.wrapping_add(self.frame_samples_per_channel));
            self.expected_sequence = Some(expected.wrapping_add(1));
            self.lost_packets = self.lost_packets.saturating_add(1);
            output.push(JitterOutput::Silence);
            proof {
                assert(self@ =~= drain_step(before).0);
                assert(output@ =~= drain_steps(s2, n).1.push(drain_step(before).1));
                assert(drain_continues(drain_steps(s2, n).0));
                lemma_drain_inv_step(before);
                let old_w = w;
                if !before.packets.contains_key(w) {
                    w = choose|k: u32| #[trigger] before.packets.contains_key(k) && spec_sequence_is_after(k, expected);
                }
                lemma_drain_measure_silence(before, old_w, w, self@);
            }
        }
        proof {
            lemma_drained_bound(self@);
        }
        output
    }
}

/// Every drain step is for the next sequence number: the `i`-th output is the
/// packet numbered `e + i` (for the expected sequence `e` where the drain
/// began) when that packet is held at that point, and silence only when it is
/// not; the packets held never grow during a drain.
pub proof fn lemma_drain_in_sequence(s: JitterView, n: nat)
    requires
        drain_inv(s),
        forall|i: nat| i < n ==> #[trigger] drain_continues(drain_steps(s, i).0),
    ensures
        drain_steps(s, n).0.expected_sequence == Some(sequence_plus(s.expected_sequence.unwrap(), n)),
        drain_steps(s, n).1.len() == n,
        drain_steps(s, n).0.packets.submap_of(s.packets),
        forall|i: int| 0 <= i < n ==> match #[trigger] drain_steps(s, n).1[i] {
            JitterOutput::Audio(p) => {
                &&& p.sequence == sequence_plus(s.expected_sequence.unwrap(), i as nat)
                &&& s.packets.contains_key(p.sequence)
                &&& s.packets[p.sequence] == p
            },
            JitterOutput::Silence => !drain_steps(s, i as nat).0.packets.contains_key(
                sequence_plus(s.expected_sequence.unwrap(), i as nat),
            ),
        },
    decreases n,
{
    if n > 0 {
        let m = (n - 1) as nat;
        assert forall|i: nat| i < m implies #[trigger] drain_continues(drain_steps(s, i).0) by {
            assert(drain_continues(drain_steps(s, i).0));
        }
        lemma_drain_in_sequence(s, m);
        lemma_drain_inv_steps(s, m);
        let (t, outs) = drain_steps(s, m);
        assert(drain_continues(drain_steps(s, m).0));
        let e = t.expected_sequence.unwrap();
        assert forall|i: int| 0 <= i < n implies match #[trigger] drain_steps(s, n).1[i] {
            JitterOutput::Audio(p) => {
                &&& p.sequence == sequence_plus(s.expected_sequence.unwrap(), i as nat)
                &&& s.packets.contains_key(p.sequence)
                &&& s.packets[p.sequence] == p
            },
            JitterOutput::Silence => !drain_steps(s, i as nat).0.packets.contains_key(
                sequence_plus(s.expected_sequence.unwrap(), i as nat),
            ),
        } by {
            if i < m {
                assert(drain_steps(s, n).1[i] == outs[i]);
            } else {
                assert(i == m);
                if t.packets.contains_key(e) {
                    assert(t.packets[e].sequence == e);
                }
            }
        }
    }
}

/// The drain invariant holds after any number of continuing steps.
proof fn lemma_drain_inv_steps(s: JitterView, n: nat)
    requires
        drain_inv(s),
        forall|i: nat| i < n ==> #[trigger] drain_continues(drain_steps(s, i).0),
    ensures
        drain_inv(drain_steps(s, n).0),
    decreases n,
{
    if n > 0 {
        let m = (n - 1) as nat;
        assert forall|i: nat| i < m implies #[trigger] drain_continues(drain_steps(s, i).0) by {
            assert(drain_continues(drain_steps(s, i).0));
        }
        lemma_drain_inv_steps(s, m);
        assert(drain_continues(drain_steps(s, m).0));
        lemma_drain_inv_step(drain_steps(s, m).0);
    }
}

/// The part of the buffer invariant that the drain loop keeps at every step.
pub open spec fn drain_inv(s: JitterView) -> bool {
    &&& 1 <= s.target_packets <= s.max_packets
    &&& s.max_packets <= usize::MAX
    &&& s.packets.dom().finite()
    &&& s.expected_sequence is Some
    &&& forall|k: u32| #[trigger] s.packets.contains_key(k) ==> s.packets[k].sequence == k
    &&& forall|k: u32| #[trigger] s.packets.contains_key(k) ==> !spec_sequence_is_before(k, s.expected_sequence.unwrap())
}

/// Decreases on every drain step: removing a packet shrinks the map, and a
/// silence step moves the expected sequence one closer to the held packet `w`.
pub open spec fn drain_measure(s: JitterView, w: u32) -> int {
    let e = s.expected_sequence.unwrap();
    s.packets.len() * 0x2_0000_0000 + if s.packets.contains_key(w) {
        sequence_distance(w, e)
    } else {
        0x1_0000_0000
    }
}

proof fn lemma_drain_inv_step(s: JitterView)
    requires
        drain_inv(s),
        drain_continues(s),
    ensures
        drain_inv(drain_step(s).0),
{
    let e = s.expected_sequence.unwrap();
    let t = drain_step(s).0;
    assert forall|k: u32| #[trigger] t.packets.contains_key(k) implies !spec_sequence_is_before(k, t.expected_sequence.unwrap()) by {
        assert(s.packets.contains_key(k));
        assert(k != e);
    }
}

proof fn lemma_drain_measure_remove(s: JitterView, w: u32, t: JitterView)
    requires
        drain_inv(s),
        s.packets.contains_key(s.expected_sequence.unwrap()),
        t == drain_step(s).0,
    ensures
        0 <= drain_measure(t, w) < drain_measure(s, w),
{
    let e = s.expected_sequence.unwrap();
    assert(t.packets.len() == s.packets.len() - 1);
}

proof fn lemma_drain_measure_silence(s: JitterView, old_w: u32, w: u32, t: JitterView)
    requires
        drain_inv(s),
        !s.packets.contains_key(s.expected_sequence.unwrap()),
        s.packets.contains_key(w),
        s.packets.contains_key(old_w) ==> w == old_w,
        t == drain_step(s).0,
    ensures
        0 <= drain_measure(t, w) < drain_measure(s, old_w),
{
    let e = s.expected_sequence.unwrap();
    assert(w != e);
    assert(t.packets == s.packets);
}

/// Once the drain stops, fewer than the target number of packets remain.
proof fn lemma_drained_bound(s: JitterView)
    requires
        drain_inv(s),
        !drain_continues(s),
    ensures
        s.packets.len() < s.target_packets,
{
    let e = s.expected_sequence.unwrap();
    if !has_newer_packet(s.packets, e) && s.packets.len() != 0 {
        let k = s.packets.dom().choose();
        assert(s.packets.contains_key(k));
        assert(k != e);
        assert(spec_sequence_is_after(k, e));
    }
}

/// The outputs of successive calls, in call order, as one sequence.
pub open spec fn concat_outputs(calls: Seq<Seq<JitterOutput>>) -> Seq<JitterOutput>
    decreases calls.len(),
{
    if calls.len() == 0 {
        Seq::empty()
    } else {
        concat_outputs(calls.drop_last()) + calls.last()
    }
}

/// How many of `outputs` carry audio.
pub open spec fn audio_count(outputs: Seq<JitterOutput>) -> nat
    decreases outputs.len(),
{
    if outputs.len() == 0 {
        0
    } else {
        audio_count(outputs.drop_last()) + if outputs.last() is Audio { 1nat } else { 0nat }
    }
}

/// Output `k` of a history whose first packet is numbered `first`: silence,
/// or one of the pushed packets, the one numbered `first + k`.
pub open spec fn output_in_place(output: JitterOutput, first: u32, k: int, packets: Seq<AudioPacket>) -> bool {
    match output {
        JitterOutput::Audio(q) => q.sequence == sequence_plus(first, k as nat) && packets.contains(q),
        JitterOutput::Silence => true,
    }
}

/// `views[i + 1]` and `outputs[i]` are what pushing `packets[i]` does to a
/// buffer in state `views[i]`, for every call of a history that starts from a
/// new buffer; every state is a valid one.
pub open spec fn push_history(
    views: Seq<JitterView>,
    packets: Seq<AudioPacket>,
    outputs: Seq<Seq<JitterOutput>>,
) -> bool {
    &&& views.len() == packets.len() + 1
    &&& outputs.len() == packets.len()
    &&& forall|i: int| 0 <= i < views.len() ==> (#[trigger] views[i]).wf()
    &&& views[0].expected_sequence is None
    &&& views[0].packets.is_empty()
    &&& views[0].late_packets == 0
    &&& forall|i: int| 0 <= i < packets.len() ==> pushed(views[i], #[trigger] packets[i], views[i + 1], outputs[i])
}

/// What a history of pushes `hist` has led to: the buffer expects the first
/// sequence number plus the items returned, every audio item returned is the
/// pushed packet with the sequence number of its place, every held packet was
/// pushed, and each push is held, returned as audio, or counted late.
spec fn history_consistent(hist: Seq<AudioPacket>, all: Seq<JitterOutput>, v: JitterView) -> bool {
    let first = hist[0].sequence;
    &&& v.expected_sequence == Some(sequence_plus(first, all.len()))
    &&& forall|k: int| 0 <= k < all.len() ==> output_in_place(#[trigger] all[k], first, k, hist)
    &&& forall|key: u32| #[trigger] v.packets.contains_key(key) ==> hist.contains(v.packets[key])
    &&& v.packets.len() + audio_count(all) + v.late_packets == hist.len()
}

/// Over any history of pushes into a new buffer, the items returned so far,
/// taken in call order, form one run numbered from the first packet's
/// sequence: item `k` is silence or the very packet pushed with sequence
/// number `first + k` (modulo 2^32), and the buffer next expects
/// `first + items returned`. Every push is either still held, returned as
/// audio, or counted late, so fewer than the target number of accepted
/// packets are ever held back.
pub proof fn lemma_push_history(views: Seq<JitterView>, packets: Seq<AudioPacket>, outputs: Seq<Seq<JitterOutput>>)
    requires
        0 < packets.len() <= u64::MAX,
        push_history(views, packets, outputs),
    ensures
        ({
            let all = concat_outputs(outputs);
            let last = views.last();
            let first = packets[0].sequence;
            &&& last.expected_sequence == Some(sequence_plus(first, all.len()))
            &&& forall|k: int| 0 <= k < all.len() ==> output_in_place(#[trigger] all[k], first, k, packets)
            &&& last.packets.len() + audio_count(all) + last.late_packets == packets.len()
            &&& packets.len() - last.late_packets - audio_count(all) < last.target_packets
        }),
{
    let n = packets.len();
    lemma_history_prefix(views, packets, outputs, n);
    assert(packets.take(n as int) =~= packets);
    assert(outputs.take(n as int) =~= outputs);
    assert(views[n as int].wf());
}

/// A push that is late, or repeats a held packet, returns nothing and changes
/// nothing but the late count, so every later push returns what it would have
/// returned without it.
pub proof fn lemma_late_push_only_counts(s: JitterView, packet: AudioPacket, after: JitterView, outputs: Seq<JitterOutput>)
    requires
        s.wf(),
        s.expected_sequence is Some,
        spec_sequence_is_before(packet.sequence, s.expected_sequence.unwrap()) || s.packets.contains_key(packet.sequence),
        pushed(s, packet, after, outputs),
    ensures
        outputs.len() == 0,
        after == (JitterView { late_packets: saturating_inc(s.late_packets), ..s }),
{
}

proof fn lemma_history_prefix(views: Seq<JitterView>, packets: Seq<AudioPacket>, outputs: Seq<Seq<JitterOutput>>, n: nat)
    requires
        1 <= n <= packets.len() <= u64::MAX,
        push_history(views, packets, outputs),
    ensures
        history_consistent(packets.take(n as int), concat_outputs(outputs.take(n as int)), views[n as int]),
    decreases n,
{
    let m = (n - 1) as nat;
    let hist = packets.take(m as int);
    let all = concat_outputs(outputs.take(m as int));
    if m > 0 {
        lemma_history_prefix(views, packets, outputs, m);
    } else {
        assert(outputs.take(0) =~= Seq::<Seq<JitterOutput>>::empty());
    }
    assert(packets.take(n as int) =~= hist.push(packets[m as int]));
    assert(outputs.take(n as int).drop_last() =~= outputs.take(m as int));
    assert(views[m as int].wf());
    assert(pushed(views[m as int], packets[m as int], views[m + 1int], outputs[m as int]));
    lemma_push_step(hist, all, views[m as int], packets[m as int], views[m + 1int], outputs[m as int]);
}

proof fn lemma_push_step(
    hist: Seq<AudioPacket>,
    all: Seq<JitterOutput>,
    s: JitterView,
    p: AudioPacket,
    t: JitterView,
    outs: Seq<JitterOutput>,
)
    requires
        s.wf(),
        pushed(s, p, t, outs),
        hist.len() < u64::MAX,
        hist.len() == 0 ==> all.len() == 0 && s.expected_sequence is None && s.packets.is_empty()
            && s.late_packets == 0,
        hist.len() > 0 ==> history_consistent(hist, all, s),
    ensures
        history_consistent(hist.push(p), all + outs, t),
{
    let h2 = hist.push(p);
    let first = h2[0].sequence;
    let e = match s.expected_sequence {
        Some(e) => e,
        None => p.sequence,
    };
    if hist.len() > 0 {
        assert(h2[0] == hist[0]);
    }
    assert(e == sequence_plus(first, all.len()));
    assert forall|x: AudioPacket| hist.contains(x) implies #[trigger] h2.contains(x) by {
        let i = choose|i: int| 0 <= i < hist.len() && hist[i] == x;
        assert(h2[i] == x);
    }
    assert(h2.contains(p)) by {
        assert(h2[hist.len() as int] == p);
    }
    assert forall|k: int| 0 <= k < all.len() implies output_in_place(#[trigger] all[k], first, k, h2) by {
        assert(output_in_place(all[k], first, k, hist));
    }
    if spec_sequence_is_before(p.sequence, e) || s.packets.contains_key(p.sequence) {
        assert(all + outs =~= all);
        assert forall|key: u32| #[trigger] t.packets.contains_key(key) implies h2.contains(t.packets[key]) by {
            assert(hist.contains(s.packets[key]));
        }
    } else {
        let s3 = JitterView {
            expected_sequence: Some(e),
            packets: s.packets.insert(p.sequence, p),
            ..s
        };
        assert(s3.packets.len() == s.packets.len() + 1);
        if !s3.started && s3.packets.len() < s3.target_packets {
            assert(all + outs =~= all);
            assert forall|key: u32| #[trigger] t.packets.contains_key(key) implies h2.contains(t.packets[key]) by {
                if key != p.sequence {
                    assert(s.packets.contains_key(key));
                    assert(hist.contains(s.packets[key]));
                }
            }
        } else {
            let s2 = JitterView { started: true, ..s3 };
            assert forall|k: u32| #[trigger] s2.packets.contains_key(k) implies s2.packets[k].sequence == k
                && !spec_sequence_is_before(k, s2.expected_sequence.unwrap()) by {
                if k != p.sequence {
                    assert(s.packets.contains_key(k));
                }
            }
            assert(drain_inv(s2));
            let n = outs.len();
            lemma_drain_in_sequence(s2, n);
            lemma_drain_counts(s2, n);
            lemma_sequence_plus_add(first, all.len(), n);
            lemma_audio_count_concat(all, outs);
            assert forall|k: int| 0 <= k < (all + outs).len() implies output_in_place(
                #[trigger] (all + outs)[k],
                first,
                k,
                h2,
            ) by {
                if k < all.len() {
                    assert((all + outs)[k] == all[k]);
                } else {
                    let j = k - all.len();
                    assert((all + outs)[k] == outs[j]);
                    lemma_sequence_plus_add(first, all.len(), j as nat);
                    match outs[j] {
                        JitterOutput::Audio(q) => {
                            assert(s2.packets.contains_key(q.sequence));
                            if q.sequence != p.sequence {
                                assert(s.packets.contains_key(q.sequence));
                                assert(hist.contains(s.packets[q.sequence]));
                            }
                        },
                        JitterOutput::Silence => {},
                    }
                }
            }
            assert forall|key: u32| #[trigger] t.packets.contains_key(key) implies h2.contains(t.packets[key]) by {
                assert(s2.packets.contains_key(key));
                if key != p.sequence {
                    assert(s.packets.contains_key(key));
                    assert(hist.contains(s.packets[key]));
                }
            }
        }
    }
}

/// Counting `x` forward `a` and then `b` steps counts it forward `a + b`.
proof fn lemma_sequence_plus_add(x: u32, a: nat, b: nat)
    ensures
        sequence_plus(sequence_plus(x, a), b) == sequence_plus(x, a + b),
    decreases b,
{
    if b > 0 {
        lemma_sequence_plus_add(x, a, (b - 1) as nat);
    }
}

proof fn lemma_audio_count_concat(a: Seq<JitterOutput>, b: Seq<JitterOutput>)
    ensures
        audio_count(a + b) == audio_count(a) + audio_count(b),
    decreases b.len(),
{
    if b.len() == 0 {
        assert(a + b =~= a);
    } else {
        lemma_audio_count_concat(a, b.drop_last());
        assert((a + b).drop_last() =~= a + b.drop_last());
        assert((a + b).last() == b.last());
    }
}

/// Draining hands each removed packet out as audio and leaves the late count alone.
proof fn lemma_drain_counts(s: JitterView, n: nat)
    requires
        drain_inv(s),
        forall|i: nat| i < n ==> #[trigger] drain_continues(drain_steps(s, i).0),
    ensures
        drain_steps(s, n).0.packets.len() + audio_count(drain_steps(s, n).1) == s.packets.len(),
        drain_steps(s, n).0.late_packets == s.late_packets,
    decreases n,
{
    if n > 0 {
        let m = (n - 1) as nat;
        assert forall|i: nat| i < m implies #[trigger] drain_continues(drain_steps(s, i).0) by {
            assert(drain_continues(drain_steps(s, i).0));
        }
        lemma_drain_counts(s, m);
        lemma_drain_inv_steps(s, m);
        let (t, outs) = drain_steps(s, m);
        assert(drain_continues(drain_steps(s, m).0));
        let outs2 = drain_steps(s, n).1;
        assert(outs2.drop_last() =~= outs);
        let e = t.expected_sequence.unwrap();
        if t.packets.contains_key(e) {
            assert(t.packets.remove(e).len() == t.packets.len() - 1);
        }
    }
}

/// A push of a packet that is neither before the expected sequence number
/// (modulo 2^32) nor already held is never counted late and never lost: the
/// packet is either held, unchanged, under its sequence number, or handed out
/// as audio by this very call.
pub proof fn lemma_accepted_push_is_kept(s: JitterView, packet: AudioPacket, after: JitterView, outputs: Seq<JitterOutput>)
    requires
        s.wf(),
        pushed(s, packet, after, outputs),
        !spec_sequence_is_before(
            packet.sequence,
            match s.expected_sequence {
                Some(e) => e,
                None => packet.sequence,
            },
        ),
        !s.packets.contains_key(packet.sequence),
    ensures
        after.late_packets == s.late_packets,
        (after.packets.contains_key(packet.sequence) && after.packets[packet.sequence] == packet) || outputs.contains(
            JitterOutput::Audio(packet),
        ),
{
    let e = match s.expected_sequence {
        Some(e) => e,
        None => packet.sequence,
    };
    let s3 = JitterView { expected_sequence: Some(e), packets: s.packets.insert(packet.sequence, packet), ..s };
    if !(!s3.started && s3.packets.len() < s3.target_packets) {
        let s2 = JitterView { started: true, ..s3 };
        assert forall|k: u32| #[trigger] s2.packets.contains_key(k) implies s2.packets[k].sequence == k
            && !spec_sequence_is_before(k, s2.expected_sequence.unwrap()) by {
            if k != packet.sequence {
                assert(s.packets.contains_key(k));
            }
        }
        assert(drain_inv(s2));
        let n = outputs.len();
        lemma_drain_counts(s2, n);
        lemma_drain_keeps_or_emits(s2, n, packet.sequence);
        if !(after.packets.contains_key(packet.sequence) && after.packets[packet.sequence] == packet) {
            let i = choose|i: int| 0 <= i < n && drain_steps(s2, n).1[i] == JitterOutput::Audio(s2.packets[packet.sequence]);
            assert(outputs[i] == JitterOutput::Audio(packet));
        }
    }
}

/// During a drain every held packet either stays held, unchanged, or is
/// handed out as audio.
proof fn lemma_drain_keeps_or_emits(s: JitterView, n: nat, k: u32)
    requires
        drain_inv(s),
        forall|i: nat| i < n ==> #[trigger] drain_continues(drain_steps(s, i).0),
        s.packets.contains_key(k),
    ensures
        (drain_steps(s, n).0.packets.contains_key(k) && drain_steps(s, n).0.packets[k] == s.packets[k]) || exists|
            i: int,
        | 0 <= i < n && drain_steps(s, n).1[i] == JitterOutput::Audio(s.packets[k]),
    decreases n,
{
    if n > 0 {
        let m = (n - 1) as nat;
        assert forall|i: nat| i < m implies #[trigger] drain_continues(drain_steps(s, i).0) by {
            assert(drain_continues(drain_steps(s, i).0));
        }
        lemma_drain_keeps_or_emits(s, m, k);
        lemma_drain_in_sequence(s, m);
        let (t, outs) = drain_steps(s, m);
        assert(outs.len() == m);
        let outs2 = drain_steps(s, n).1;
        assert(outs2 == outs.push(drain_step(t).1));
        if exists|i: int| 0 <= i < m && outs[i] == JitterOutput::Audio(s.packets[k]) {
            let i = choose|i: int| 0 <= i < m && outs[i] == JitterOutput::Audio(s.packets[k]);
            assert(outs2[i] == outs[i]);
        } else {
            let e = t.expected_sequence.unwrap();
            assert(t.packets.contains_key(k) && t.packets[k] == s.packets[k]);
            if t.packets.contains_key(e) && e == k {
                assert(drain_step(t).1 == JitterOutput::Audio(t.packets[e]));
                assert(outs2[m as int] == JitterOutput::Audio(s.packets[k]));
            } else {
                assert(drain_step(t).0.packets.contains_key(k));
                assert(drain_step(t).0.packets[k] == s.packets[k]);
            }
        }
    }
}

} // verus!
