//! A bounded PCM ring that keeps the newest audio and plays silence when empty.

use vstd::prelude::*;
use crossbeam_queue::ArrayQueue;
use crate::audio_common::frame::{CHANNELS, SAMPLE_RATE};
use crate::endian::i16_from_le;

verus! {

/// 400 ms of 48 kHz stereo samples: headroom for Wi-Fi stalls. The ring only
/// bounds stall tolerance; steady-state latency is set by the jitter target.
pub const PCM_RING_CAPACITY_SAMPLES: usize = 38_400;

#[verifier::external_type_specification]
#[verifier::external_body]
#[verifier::reject_recursive_types(T)]
pub struct ExArrayQueue<T>(ArrayQueue<T>);

/// The samples a queue holds, oldest first.
pub uninterp spec fn queue_contents(q: ArrayQueue<i16>) -> Seq<i16>;

/// The capacity a queue was created with.
pub uninterp spec fn queue_capacity(q: ArrayQueue<i16>) -> nat;

/// `ArrayQueue::new`: an empty queue of `cap` slots. It panics when `cap` is
/// zero or when the capacity plus one has no power of two in `usize`.
#[verifier::external_body]
fn queue_new(cap: usize) -> (q: ArrayQueue<i16>)
    requires
        0 < cap <= usize::MAX / 2,
    ensures
        queue_contents(q) == Seq::<i16>::empty(),
        queue_capacity(q) == cap,
{
    ArrayQueue::new(cap)
}

/// `ArrayQueue::push`: appends `v` unless the queue is full, in which case
/// `v` comes back as the error and the queue is unchanged.
#[verifier::external_body]
fn queue_push(q: &mut ArrayQueue<i16>, v: i16) -> (r: Result<(), i16>)
    requires
        queue_contents(*old(q)).len() <= queue_capacity(*old(q)),
    ensures
        queue_capacity(*final(q)) == queue_capacity(*old(q)),
        if queue_contents(*old(q)).len() < queue_capacity(*old(q)) {
            r is Ok && queue_contents(*final(q)) == queue_contents(*old(q)).push(v)
        } else {
            r == Err::<(), i16>(v) && queue_contents(*final(q)) == queue_contents(*old(q))
        },
{
    q.push(v)
}

/// `ArrayQueue::pop`: removes and returns the oldest element, or `None` when empty.
#[verifier::external_body]
fn queue_pop(q: &mut ArrayQueue<i16>) -> (r: Option<i16>)
    ensures
        queue_capacity(*final(q)) == queue_capacity(*old(q)),
        if queue_contents(*old(q)).len() > 0 {
            r == Some(queue_contents(*old(q))[0]) && queue_contents(*final(q)) == queue_contents(
                *old(q),
            ).drop_first()
        } else {
            r is None && queue_contents(*final(q)) == queue_contents(*old(q))
        },
{
    q.pop()
}

/// `ArrayQueue::len`: the number of elements held.
#[verifier::external_body]
fn queue_len(q: &ArrayQueue<i16>) -> (n: usize)
    ensures
        n == queue_contents(*q).len(),
{
    q.len()
}

/// A bounded PCM ring. When full it discards the oldest samples; reading more
/// than it holds fills the rest with silence and counts an underrun.
pub struct PcmRingBuffer {
    queue: ArrayQueue<i16>,
    underruns: u64,
    overwritten_samples: u64,
}

/// The abstract state of a PCM ring.
pub struct RingView {
    /// Held samples, oldest first.
    pub samples: Seq<i16>,
    pub capacity: nat,
    pub underruns: u64,
    pub overwritten_samples: u64,
}

impl View for PcmRingBuffer {
    type V = RingView;

    closed spec fn view(&self) -> RingView {
        RingView {
            samples: queue_contents(self.queue),
            capacity: queue_capacity(self.queue),
            underruns: self.underruns,
            overwritten_samples: self.overwritten_samples,
        }
    }
}

impl RingView {
    pub open spec fn wf(self) -> bool {
        0 < self.capacity && self.samples.len() <= self.capacity
    }
}

pub open spec fn wrapping_inc(x: u64) -> u64 {
    if x == u64::MAX { 0 } else { (x + 1) as u64 }
}

/// Appends one sample, discarding the oldest sample first when the ring is full.
pub open spec fn push_latest(v: RingView, s: i16) -> RingView {
    if v.samples.len() < v.capacity {
        RingView { samples: v.samples.push(s), ..v }
    } else {
        RingView {
            samples: v.samples.drop_first().push(s),
            overwritten_samples: wrapping_inc(v.overwritten_samples),
            ..v
        }
    }
}

/// Appends samples in order, each as `push_latest` does.
pub open spec fn push_all(v: RingView, samples: Seq<i16>) -> RingView
    decreases samples.len(),
{
    if samples.len() == 0 {
        v
    } else {
        push_latest(push_all(v, samples.drop_last()), samples.last())
    }
}

/// Little-endian signed 16-bit samples of an even-length byte sequence.
pub open spec fn le_samples(pcm: Seq<u8>) -> Seq<i16> {
    Seq::new(pcm.len() / 2, |i: int| i16_from_le(pcm[2 * i], pcm[2 * i + 1]))
}

/// `n` samples of silence.
pub open spec fn silence(n: nat) -> Seq<i16> {
    Seq::new(n, |i: int| 0i16)
}

/// The first `n` held samples followed by silence.
pub open spec fn read_output(held: Seq<i16>, n: nat) -> Seq<i16> {
    Seq::new(n, |i: int| if i < held.len() { held[i] } else { 0i16 })
}

pub open spec fn min(a: int, b: int) -> int {
    if a < b { a } else { b }
}

/// Writing keeps a ring well formed: it never holds more than its capacity,
/// and its capacity and underrun count stay as they were.
pub proof fn lemma_push_all_wf(v: RingView, samples: Seq<i16>)
    requires
        v.wf(),
    ensures
        push_all(v, samples).wf(),
        push_all(v, samples).capacity == v.capacity,
        push_all(v, samples).underruns == v.underruns,
    decreases samples.len(),
{
    if samples.len() > 0 {
        lemma_push_all_wf(v, samples.drop_last());
    }
}

/// The newest `cap` samples of `s` (all of them when they fit).
pub open spec fn newest(s: Seq<i16>, cap: nat) -> Seq<i16> {
    if s.len() <= cap {
        s
    } else {
        s.skip(s.len() - cap)
    }
}

/// `x + n` modulo 2^64.
pub open spec fn wrapping_add_nat(x: u64, n: nat) -> u64 {
    ((x as int + n) % 0x1_0000_0000_0000_0000) as u64
}

/// Samples that do not fit: those beyond the capacity.
pub open spec fn excess(held: nat, added: nat, cap: nat) -> nat {
    if held + added > cap { (held + added - cap) as nat } else { 0 }
}

/// Writing to a ring keeps the newest samples, never more than its
/// capacity, discards only the oldest, and counts every discarded sample.
pub proof fn lemma_push_all_keeps_newest(v: RingView, s: Seq<i16>)
    requires
        v.wf(),
    ensures
        push_all(v, s).samples == newest(v.samples + s, v.capacity),
        push_all(v, s).overwritten_samples == wrapping_add_nat(
            v.overwritten_samples,
            excess(v.samples.len(), s.len(), v.capacity),
        ),
    decreases s.len(),
{
    if s.len() == 0 {
        assert(v.samples + s =~= v.samples);
        assert(v.overwritten_samples as int % 0x1_0000_0000_0000_0000 == v.overwritten_samples);
    } else {
        let s0 = s.drop_last();
        let x = s.last();
        lemma_push_all_keeps_newest(v, s0);
        lemma_push_all_wf(v, s0);
        let r = push_all(v, s0);
        let total0 = v.samples + s0;
        let total = v.samples + s;
        assert(total =~= total0.push(x));
        let d0 = excess(v.samples.len(), s0.len(), v.capacity);
        if r.samples.len() < v.capacity {
            assert(total0.len() < v.capacity);
            assert(push_all(v, s).samples =~= newest(total, v.capacity));
            assert(excess(v.samples.len(), s.len(), v.capacity) == d0);
        } else {
            assert(r.samples.len() == v.capacity);
            assert(total0.len() >= v.capacity);
            assert(push_all(v, s).samples =~= newest(total, v.capacity));
            assert(excess(v.samples.len(), s.len(), v.capacity) == d0 + 1);
            let y = wrapping_add_nat(v.overwritten_samples, d0);
            vstd::arithmetic::div_mod::lemma_add_mod_noop(v.overwritten_samples + d0, 1, 0x1_0000_0000_0000_0000);
            assert(wrapping_inc(y) == wrapping_add_nat(v.overwritten_samples, d0 + 1));
        }
    }
}

impl PcmRingBuffer {
    pub fn new(capacity_samples: usize) -> (ring: Self)
        requires
            0 < capacity_samples <= usize::MAX / 2,
        ensures
            ring@.wf(),
            ring@.samples == Seq::<i16>::empty(),
            ring@.capacity == capacity_samples,
            ring@.underruns == 0,
            ring@.overwritten_samples == 0,
    {
        PcmRingBuffer { queue: queue_new(capacity_samples), underruns: 0, overwritten_samples: 0 }
    }

    /// Writes little-endian i16 PCM, keeping the newest samples. Returns `false`
    /// and writes nothing when the byte count is odd.
    pub fn write_pcm_le(&mut self, pcm: &[u8]) -> (accepted: bool)
        requires
            old(self)@.wf(),
        ensures
            accepted == (pcm@.len() % 2 == 0),
            accepted ==> final(self)@ == push_all(old(self)@, le_samples(pcm@)),
            !accepted ==> final(self)@ == old(self)@,
            final(self)@.wf(),
    {
        if pcm.len() % 2 != 0 {
            return false;
        }
        let n = pcm.len() / 2;
        let mut i: usize = 0;
        let mut j: usize = 0;
        while i < n
            invariant
                n == pcm@.len() / 2,
                j == 2 * i,
                j + 2 * (n - i) == pcm@.len(),
                pcm@.len() % 2 == 0,
                i <= n,
                self@ == push_all(old(self)@, le_samples(pcm@).take(i as int)),
                self@.wf(),
            decreases n - i,
        {
            let sample: i16 = (((pcm[j + 1] as u16) << 8) | (pcm[j] as u16)) as i16;
            self.push_latest(sample);
            proof {
                let all = le_samples(pcm@);
                assert(sample == all[i as int]);
                assert(all.take(i + 1).drop_last() =~= all.take(i as int));
            }
            i += 1;
            j += 2;
        }
        assert(le_samples(pcm@).take(n as int) =~= le_samples(pcm@));
        true
    }

    /// Writes `samples` zero samples, keeping the newest.
    pub fn write_silence(&mut self, samples: usize)
        requires
            old(self)@.wf(),
        ensures
            final(self)@ == push_all(old(self)@, silence(samples as nat)),
            final(self)@.wf(),
    {
        let mut i: usize = 0;
        while i < samples
            invariant
                i <= samples,
                self@ == push_all(old(self)@, silence(i as nat)),
                self@.wf(),
            decreases samples - i,
        {
            self.push_latest(0);
            proof {
                assert(silence((i + 1) as nat).drop_last() =~= silence(i as nat));
            }
            i += 1;
        }
    }

    /// Fills `output` from the oldest held samples, zero-filling what is missing.
    /// Returns the number of real samples. A short read counts one underrun.
    pub fn read_into(&mut self, output: &mut [i16]) -> (actual: usize)
        requires
            old(self)@.wf(),
        ensures
            actual == min(old(output)@.len() as int, old(self)@.samples.len() as int),
            final(output)@ == read_output(old(self)@.samples, old(output)@.len()),
            final(self)@.samples == old(self)@.samples.skip(actual as int),
            final(self)@.capacity == old(self)@.capacity,
            final(self)@.overwritten_samples == old(self)@.overwritten_samples,
            final(self)@.underruns == if actual < old(output)@.len() {
                wrapping_inc(old(self)@.underruns)
            } else {
                old(self)@.underruns
            },
            final(self)@.wf(),
    {
        let n = output.len();
        let mut actual: usize = 0;
        let mut i: usize = 0;
        while i < n
            invariant
                n == output@.len(),
                n == old(output)@.len(),
                i <= n,
                actual == min(i as int, old(self)@.samples.len() as int),
                self@.samples == old(self)@.samples.skip(actual as int),
                self@.capacity == old(self)@.capacity,
                self@.underruns == old(self)@.underruns,
                self@.overwritten_samples == old(self)@.overwritten_samples,
                forall|j: int| 0 <= j < i ==> output@[j] == read_output(old(self)@.samples, n as nat)[j],
            decreases n - i,
        {
            match queue_pop(&mut self.queue) {
                Some(value) => {
                    output[i] = value;
                    actual += 1;
                },
                None => {
                    output[i] = 0;
                },
            }
            i += 1;
        }
        if actual != n {
            self.underruns = self.underruns.wrapping_add(1);
        }
        assert(output@ =~= read_output(old(self)@.samples, n as nat));
        actual
    }

    /// Discards every held sample.
    pub fn clear(&mut self)
        requires
            old(self)@.wf(),
        ensures
            final(self)@ == (RingView { samples: Seq::<i16>::empty(), ..old(self)@ }),
    {
        loop
            invariant
                self@.capacity == old(self)@.capacity,
                self@.underruns == old(self)@.underruns,
                self@.overwritten_samples == old(self)@.overwritten_samples,
            ensures
                self@.samples.len() == 0,
                self@.capacity == old(self)@.capacity,
                self@.underruns == old(self)@.underruns,
                self@.overwritten_samples == old(self)@.overwritten_samples,
            decreases self@.samples.len(),
        {
            if queue_pop(&mut self.queue).is_none() {
                break;
            }
        }
        assert(self@.samples =~= Seq::<i16>::empty());
    }

    pub fn available_samples(&self) -> (n: usize)
        ensures
            n == self@.samples.len(),
    {
        queue_len(&self.queue)
    }

    pub fn underruns(&self) -> (n: u64)
        ensures
            n == self@.underruns,
    {
        self.underruns
    }

    pub fn overwritten_samples(&self) -> (n: u64)
        ensures
            n == self@.overwritten_samples,
    {
        self.overwritten_samples
    }

    fn push_latest(&mut self, sample: i16)
        requires
            old(self)@.wf(),
        ensures
            final(self)@ == push_latest(old(self)@, sample),
            final(self)@.wf(),
    {
        if let Err(sample) = queue_push(&mut self.queue, sample) {
            // Removing before retrying discards the oldest audible data, not the newest.
            if queue_pop(&mut self.queue).is_some() {
                self.overwritten_samples = self.overwritten_samples.wrapping_add(1);
            }
            if queue_push(&mut self.queue, sample).is_err() {
                self.overwritten_samples = self.overwritten_samples.wrapping_add(1);
            }
        }
    }
}

} // verus!
