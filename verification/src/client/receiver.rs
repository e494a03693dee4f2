//! The receive path: validate a packet, reorder it, and feed the PCM ring.

use vstd::prelude::*;
use crate::client::error::ClientError;
use crate::client::jitter::{pushed, JitterBuffer, JitterOutput, JitterView};
use crate::client::packet::{pcm_packet_layout, supported_stream};
use crate::client::ring_buffer::{
    le_samples, lemma_push_all_keeps_newest, lemma_push_all_wf, newest, push_all, silence, PcmRingBuffer, RingView,
};
use crate::client::state::{wrapping_add, SharedState, SharedView};
use crate::protocol::audio::AudioPacket;
use crate::protocol::control::StreamInfo;

verus! {

/// The jitter delay the receiver aims for before playback starts.
pub const TARGET_JITTER_MS: usize = 50;

pub struct ReceiverPipeline {
    jitter: JitterBuffer,
    expected_packet_bytes: usize,
    samples_per_packet: usize,
}

/// The ring after the jitter buffer's outputs are written in order: audio as
/// its little-endian samples, silence as one packet's worth of zeros.
pub open spec fn apply_outputs(ring: RingView, outputs: Seq<JitterOutput>, samples_per_packet: nat) -> RingView
    decreases outputs.len(),
{
    if outputs.len() == 0 {
        ring
    } else {
        let r = apply_outputs(ring, outputs.drop_last(), samples_per_packet);
        match outputs.last() {
            JitterOutput::Audio(p) => if p.payload@.len() % 2 == 0 {
                push_all(r, le_samples(p.payload@))
            } else {
                r
            },
            JitterOutput::Silence => push_all(r, silence(samples_per_packet)),
        }
    }
}

/// Audio outputs whose payload is not whole samples.
pub open spec fn odd_payloads(outputs: Seq<JitterOutput>) -> nat
    decreases outputs.len(),
{
    if outputs.len() == 0 {
        0
    } else {
        odd_payloads(outputs.drop_last()) + match outputs.last() {
            JitterOutput::Audio(p) => if p.payload@.len() % 2 == 0 { 0nat } else { 1nat },
            JitterOutput::Silence => 0nat,
        }
    }
}

pub open spec fn saturating_sub(x: u64, y: u64) -> u64 {
    if x >= y { (x - y) as u64 } else { 0 }
}

/// The samples that the jitter buffer's outputs stand for, in output order:
/// the little-endian samples of each whole-sample audio payload, and
/// `samples_per_packet` zeros for each silence.
pub open spec fn output_samples(outputs: Seq<JitterOutput>, samples_per_packet: nat) -> Seq<i16>
    decreases outputs.len(),
{
    if outputs.len() == 0 {
        Seq::empty()
    } else {
        output_samples(outputs.drop_last(), samples_per_packet) + match outputs.last() {
            JitterOutput::Audio(p) => if p.payload@.len() % 2 == 0 {
                le_samples(p.payload@)
            } else {
                Seq::empty()
            },
            JitterOutput::Silence => Seq::new(samples_per_packet, |i: int| 0i16),
        }
    }
}

/// Writing samples in two runs is writing them in one.
pub proof fn lemma_push_all_concat(v: RingView, a: Seq<i16>, b: Seq<i16>)
    ensures
        push_all(push_all(v, a), b) == push_all(v, a + b),
    decreases b.len(),
{
    if b.len() == 0 {
        assert(a + b =~= a);
    } else {
        lemma_push_all_concat(v, a, b.drop_last());
        assert((a + b).drop_last() =~= a + b.drop_last());
        assert((a + b).last() == b.last());
    }
}

/// Whatever the outputs, the ring receives exactly the samples they stand
/// for, in order: each audio packet's samples, and one packet of zeros for
/// each loss; so the ring then holds the newest of its old samples followed
/// by those.
pub proof fn lemma_outputs_reach_ring_in_order(ring: RingView, outputs: Seq<JitterOutput>, samples_per_packet: nat)
    requires
        ring.wf(),
    ensures
        apply_outputs(ring, outputs, samples_per_packet) == push_all(ring, output_samples(outputs, samples_per_packet)),
        apply_outputs(ring, outputs, samples_per_packet).samples == newest(
            ring.samples + output_samples(outputs, samples_per_packet),
            ring.capacity,
        ),
    decreases outputs.len(),
{
    if outputs.len() == 0 {
        assert(output_samples(outputs, samples_per_packet) =~= Seq::<i16>::empty());
    } else {
        let init = outputs.drop_last();
        lemma_outputs_reach_ring_in_order(ring, init, samples_per_packet);
        let tail = match outputs.last() {
            JitterOutput::Audio(p) => if p.payload@.len() % 2 == 0 {
                le_samples(p.payload@)
            } else {
                Seq::<i16>::empty()
            },
            JitterOutput::Silence => Seq::new(samples_per_packet, |i: int| 0i16),
        };
        lemma_push_all_concat(ring, output_samples(init, samples_per_packet), tail);
        match outputs.last() {
            JitterOutput::Audio(p) => {
                if p.payload@.len() % 2 != 0 {
                    assert(push_all(push_all(ring, output_samples(init, samples_per_packet)), tail) == push_all(
                        ring,
                        output_samples(init, samples_per_packet),
                    ));
                }
            },
            JitterOutput::Silence => {
                assert(tail =~= silence(samples_per_packet));
            },
        }
    }
    lemma_push_all_keeps_newest(ring, output_samples(outputs, samples_per_packet));
}

/// When every audio output carries one packet of whole samples, the ring
/// receives exactly one packet of samples per output, lost or not.
pub proof fn lemma_one_packet_per_output(outputs: Seq<JitterOutput>, samples_per_packet: nat)
    requires
        forall|i: int| 0 <= i < outputs.len() ==> (#[trigger] outputs[i] matches JitterOutput::Audio(p) ==> p.payload@.len()
            == 2 * samples_per_packet),
    ensures
        output_samples(outputs, samples_per_packet).len() == samples_per_packet * outputs.len(),
    decreases outputs.len(),
{
    if outputs.len() > 0 {
        let init = outputs.drop_last();
        assert forall|i: int| 0 <= i < init.len() implies (#[trigger] init[i] matches JitterOutput::Audio(p)
            ==> p.payload@.len() == 2 * samples_per_packet) by {
            assert(init[i] == outputs[i]);
        }
        lemma_one_packet_per_output(init, samples_per_packet);
        assert(outputs[outputs.len() - 1] == outputs.last());
        assert(samples_per_packet * outputs.len() == samples_per_packet * init.len() + samples_per_packet) by (nonlinear_arith)
            requires
                outputs.len() == init.len() + 1,
        ;
    }
}

proof fn lemma_apply_outputs_wf(ring: RingView, outputs: Seq<JitterOutput>, spp: nat)
    requires
        ring.wf(),
    ensures
        apply_outputs(ring, outputs, spp).wf(),
    decreases outputs.len(),
{
    if outputs.len() > 0 {
        lemma_apply_outputs_wf(ring, outputs.drop_last(), spp);
        let r = apply_outputs(ring, outputs.drop_last(), spp);
        match outputs.last() {
            JitterOutput::Audio(p) => lemma_push_all_wf(r, le_samples(p.payload@)),
            JitterOutput::Silence => lemma_push_all_wf(r, silence(spp)),
        }
    }
}

proof fn lemma_wrapping_add_step(x: u64, a: nat)
    requires
        a < u64::MAX,
    ensures
        wrapping_add(wrapping_add(x, a as u64), 1) == wrapping_add(x, (a + 1) as u64),
{
}

impl ReceiverPipeline {
    /// Prepares to receive a stream of this format; unsupported formats are refused.
    pub fn new(stream: StreamInfo) -> (result: Result<Self, ClientError>)
        ensures
            supported_stream(stream) ==> (result matches Ok(p) && {
                let t = 50int / (stream.frame_duration_ms as int);
                &&& p.wf()
                &&& p.jitter_view().target_packets == if t < 1 { 1 } else { t }
                &&& p.jitter_view().frame_samples_per_channel == 48 * stream.frame_duration_ms
                &&& p.jitter_view().expected_sequence is None
                &&& p.jitter_view().packets.is_empty()
                &&& !p.jitter_view().started
                &&& p.expected_packet_bytes() == 192 * stream.frame_duration_ms
                &&& p.samples_per_packet() == 96 * stream.frame_duration_ms
            }),
            !supported_stream(stream) ==> result matches Err(ClientError::UnsupportedStream(_)),
    {
        let layout = match pcm_packet_layout(stream) {
            Ok(layout) => layout,
            Err(e) => return Err(e),
        };
        let per_duration: usize = TARGET_JITTER_MS / (stream.frame_duration_ms as usize);
        let target_packets: usize = if per_duration < 1 { 1 } else { per_duration };
        Ok(ReceiverPipeline {
            jitter: JitterBuffer::new(target_packets, layout.samples_per_channel),
            expected_packet_bytes: layout.expected_packet_bytes,
            samples_per_packet: layout.samples_per_packet,
        })
    }

    pub closed spec fn wf(&self) -> bool {
        self.jitter@.wf()
    }

    pub closed spec fn jitter_view(&self) -> JitterView {
        self.jitter@
    }

    pub closed spec fn expected_packet_bytes(&self) -> nat {
        self.expected_packet_bytes as nat
    }

    pub closed spec fn samples_per_packet(&self) -> nat {
        self.samples_per_packet as nat
    }

    /// Counts the packet, drops it as invalid unless its payload is exactly one
    /// packet of PCM, and otherwise passes it through the jitter buffer, writing
    /// everything that becomes ready to the ring and adding the buffer's new
    /// loss and lateness counts to the shared counters.
    pub fn handle_packet(&mut self, packet: AudioPacket, ring: &mut PcmRingBuffer, state: &mut SharedState)
        requires
            old(self).wf(),
            old(ring)@.wf(),
        ensures
            final(self).wf(),
            final(ring)@.wf(),
            final(self).expected_packet_bytes() == old(self).expected_packet_bytes(),
            final(self).samples_per_packet() == old(self).samples_per_packet(),
            final(state)@.received_packets == wrapping_add(old(state)@.received_packets, 1),
            final(state)@.state == old(state)@.state,
            final(state)@.rtt_ms == old(state)@.rtt_ms,
            final(state)@.last_error == old(state)@.last_error,
            packet.payload@.len() != old(self).expected_packet_bytes() ==> {
                &&& final(self).jitter_view() == old(self).jitter_view()
                &&& final(ring)@ == old(ring)@
                &&& final(state)@.invalid_packets == wrapping_add(old(state)@.invalid_packets, 1)
                &&& final(state)@.lost_packets == old(state)@.lost_packets
                &&& final(state)@.late_packets == old(state)@.late_packets
            },
            packet.payload@.len() == old(self).expected_packet_bytes() ==> exists|outputs: Seq<JitterOutput>| {
                &&& pushed(old(self).jitter_view(), packet, final(self).jitter_view(), outputs)
                &&& final(ring)@ == apply_outputs(old(ring)@, outputs, old(self).samples_per_packet())
                &&& final(ring)@ == push_all(old(ring)@, output_samples(outputs, old(self).samples_per_packet()))
                &&& final(state)@.invalid_packets == wrapping_add(old(state)@.invalid_packets, odd_payloads(outputs) as u64)
                &&& final(state)@.lost_packets == wrapping_add(
                    old(state)@.lost_packets,
                    saturating_sub(final(self).jitter_view().lost_packets, old(self).jitter_view().lost_packets),
                )
                &&& final(state)@.late_packets == wrapping_add(
                    old(state)@.late_packets,
                    saturating_sub(final(self).jitter_view().late_packets, old(self).jitter_view().late_packets),
                )
            },
    {
        state.add_received();
        if packet.payload.len() != self.expected_packet_bytes {
            state.add_invalid();
            return;
        }
        let lost_before = self.jitter.lost_packets();
        let late_before = self.jitter.late_packets();
        let outputs = self.jitter.push(packet);
        let ghost s0 = state@;
        let ghost r0 = ring@;
        let n = outputs.len();
        let mut i: usize = 0;
        while i < n
            invariant
                n == outputs@.len(),
                i <= n,
                ring@ == apply_outputs(r0, outputs@.take(i as int), self.samples_per_packet as nat),
                ring@.wf(),
                r0.wf(),
                state@ == (SharedView {
                    invalid_packets: wrapping_add(s0.invalid_packets, odd_payloads(outputs@.take(i as int)) as u64),
                    ..s0
                }),
                odd_payloads(outputs@.take(i as int)) <= i,
            decreases n - i,
        {
            proof {
                assert(outputs@.take(i + 1).drop_last() =~= outputs@.take(i as int));
                lemma_apply_outputs_wf(r0, outputs@.take(i as int), self.samples_per_packet as nat);
            }
            match &outputs[i] {
                JitterOutput::Audio(packet) => {
                    if !ring.write_pcm_le(packet.payload.as_slice()) {
                        state.add_invalid();
                        proof {
                            lemma_wrapping_add_step(s0.invalid_packets, odd_payloads(outputs@.take(i as int)));
                        }
                    }
                },
                JitterOutput::Silence => ring.write_silence(self.samples_per_packet),
            }
            i += 1;
        }
        assert(outputs@.take(n as int) =~= outputs@);
        let lost_after = self.jitter.lost_packets();
        let late_after = self.jitter.late_packets();
        state.add_lost(lost_after.saturating_sub(lost_before));
        state.add_late(late_after.saturating_sub(late_before));
        assert(final(ring)@ == apply_outputs(old(ring)@, outputs@, old(self).samples_per_packet()));
        proof {
            lemma_outputs_reach_ring_in_order(old(ring)@, outputs@, old(self).samples_per_packet());
        }
        assert(pushed(old(self).jitter_view(), packet, final(self).jitter_view(), outputs@));
    }
}

} // verus!
