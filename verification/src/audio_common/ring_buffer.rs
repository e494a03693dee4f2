//! A single-producer, single-consumer PCM ring on `rtrb`.
//!
//! The two halves live on different threads, so what one half observes
//! depends on what the other has done meanwhile; the contracts here state what
//! holds whatever the other half does.

use vstd::prelude::*;
use rtrb::{Consumer, Producer, RingBuffer};

verus! {

#[verifier::external_type_specification]
#[verifier::external_body]
#[verifier::reject_recursive_types(T)]
pub struct ExProducer<T>(Producer<T>);

#[verifier::external_type_specification]
#[verifier::external_body]
#[verifier::reject_recursive_types(T)]
pub struct ExConsumer<T>(Consumer<T>);

/// The capacity of the ring that a producer writes to.
pub uninterp spec fn producer_capacity(p: Producer<i16>) -> nat;

/// The free slots in a producer's cached view of the ring: the capacity less
/// the distance from its cached copy of the consumer's position to its own
/// write position. The consumer only ever frees slots, so at least this many
/// are free.
pub uninterp spec fn producer_cached_free(p: Producer<i16>) -> nat;

/// The capacity of the ring that a consumer reads from.
pub uninterp spec fn consumer_capacity(c: Consumer<i16>) -> nat;

/// The filled slots in a consumer's cached view of the ring: the distance from
/// its read position to its cached copy of the producer's position. The
/// producer only ever fills slots, so at least this many hold samples.
pub uninterp spec fn consumer_cached_filled(c: Consumer<i16>) -> nat;

/// `RingBuffer::new`: the two halves of an empty ring of `capacity` slots,
/// whose cached positions all start at zero. Its buffer is a
/// `Vec::with_capacity`, which panics beyond `isize::MAX` bytes.
#[verifier::external_body]
fn ring_new(capacity: usize) -> (halves: (Producer<i16>, Consumer<i16>))
    requires
        capacity <= isize::MAX / 2,
    ensures
        producer_capacity(halves.0) == capacity,
        consumer_capacity(halves.1) == capacity,
        producer_cached_free(halves.0) == capacity,
        consumer_cached_filled(halves.1) == 0,
{
    RingBuffer::new(capacity)
}

/// `Producer::push`: `true` when the sample was written, `false` when the
/// ring was full at that moment; a written sample joins the producer's log.
/// While the cached view shows a free slot the push succeeds without looking
/// again and uses that slot; otherwise it reloads the consumer's position, and
/// a refusal means that the reloaded view is full. After a successful reload
/// nothing is said of the cache.
#[verifier::external_body]
fn producer_push(p: &mut PcmProducer, sample: i16) -> (pushed: bool)
    ensures
        final(p).capacity() == old(p).capacity(),
        final(p).written() == if pushed { old(p).written().push(sample) } else { old(p).written() },
        old(p).known_free() > 0 ==> pushed && final(p).known_free() == old(p).known_free() - 1,
        !pushed ==> final(p).known_free() == 0,
{
    p.inner.push(sample).is_ok()
}

/// `Producer::slots`: reloads the consumer's position into the cache and
/// returns the free slots it shows, never above the capacity and never below
/// what the cache showed before. It updates the cache through a `Cell`, so it
/// is called here through a unique reference.
#[verifier::external_body]
fn producer_slots(p: &mut Producer<i16>) -> (n: usize)
    ensures
        producer_capacity(*final(p)) == producer_capacity(*old(p)),
        producer_cached_free(*old(p)) <= n <= producer_capacity(*old(p)),
        producer_cached_free(*final(p)) == n,
{
    p.slots()
}

/// `Consumer::pop`: the oldest sample, or `None` when the ring was empty at
/// that moment; a popped sample joins the consumer's log. While the cached
/// view shows a filled slot the pop succeeds without looking again and uses
/// that slot; a `None` means that the reloaded view is empty. After a
/// successful reload nothing is said of the cache.
#[verifier::external_body]
fn consumer_pop(c: &mut PcmConsumer) -> (sample: Option<i16>)
    ensures
        final(c).capacity() == old(c).capacity(),
        final(c).taken() == match sample {
            Some(v) => old(c).taken().push(v),
            None => old(c).taken(),
        },
        old(c).known_filled() > 0 ==> sample is Some && final(c).known_filled() == old(c).known_filled() - 1,
        sample is None ==> final(c).known_filled() == 0,
{
    c.inner.pop().ok()
}

/// `Consumer::slots`: reloads the producer's position into the cache and
/// returns the filled slots it shows, never above the capacity and never below
/// what the cache showed before. It updates the cache through a `Cell`, so it
/// is called here through a unique reference.
#[verifier::external_body]
fn consumer_slots(c: &mut Consumer<i16>) -> (n: usize)
    ensures
        consumer_capacity(*final(c)) == consumer_capacity(*old(c)),
        consumer_cached_filled(*old(c)) <= n <= consumer_capacity(*old(c)),
        consumer_cached_filled(*final(c)) == n,
{
    c.slots()
}

/// What a read writes for one slot: the popped sample, or silence where the
/// ring was empty.
pub open spec fn slot_value(pop: Option<i16>) -> i16 {
    match pop {
        Some(v) => v,
        None => 0i16,
    }
}

/// What a read writes for each slot.
pub open spec fn silence_filled(pops: Seq<Option<i16>>) -> Seq<i16> {
    pops.map_values(|p: Option<i16>| slot_value(p))
}

/// The popped samples, in order, leaving out the empty reads.
pub open spec fn popped_samples(pops: Seq<Option<i16>>) -> Seq<i16>
    decreases pops.len(),
{
    if pops.len() == 0 {
        Seq::empty()
    } else {
        match pops.last() {
            Some(v) => popped_samples(pops.drop_last()).push(v),
            None => popped_samples(pops.drop_last()),
        }
    }
}

/// How many slots received a popped sample.
pub open spec fn popped_count(pops: Seq<Option<i16>>) -> nat
    decreases pops.len(),
{
    if pops.len() == 0 {
        0
    } else {
        popped_count(pops.drop_last()) + if pops.last() is Some { 1nat } else { 0nat }
    }
}

/// The smaller of two counts.
pub open spec fn min_nat(a: nat, b: nat) -> nat {
    if a <= b { a } else { b }
}

/// Single-producer / single-consumer PCM writer.
pub struct PcmProducer {
    inner: Producer<i16>,
    /// The samples this writer's pushes placed in the ring, oldest first.
    written: Ghost<Seq<i16>>,
}

/// Single-producer / single-consumer PCM reader. Reading fewer samples than
/// requested fills the remainder with silence, which keeps an audio callback
/// non-blocking under underrun.
pub struct PcmConsumer {
    inner: Consumer<i16>,
    /// The samples this reader's pops took from the ring, oldest first.
    taken: Ghost<Seq<i16>>,
}

pub fn pcm_ring_buffer(capacity_samples: usize) -> (halves: (PcmProducer, PcmConsumer))
    requires
        capacity_samples <= isize::MAX / 2,
    ensures
        halves.0.capacity() == capacity_samples,
        halves.1.capacity() == capacity_samples,
        halves.0.written() == Seq::<i16>::empty(),
        halves.0.known_free() == capacity_samples,
        halves.1.known_filled() == 0,
        halves.1.taken() == Seq::<i16>::empty(),
{
    let (producer, consumer) = ring_new(capacity_samples);
    (PcmProducer { inner: producer, written: Ghost(Seq::empty()) }, PcmConsumer { inner: consumer, taken: Ghost(Seq::empty()) })
}

impl PcmProducer {
    /// The capacity of the ring.
    pub closed spec fn capacity(&self) -> nat {
        producer_capacity(self.inner)
    }

    /// The samples that this writer's successful pushes placed in the ring
    /// so far, oldest first.
    pub closed spec fn written(&self) -> Seq<i16> {
        self.written@
    }

    /// The slots known to be free, whatever the consumer has done meanwhile.
    pub closed spec fn known_free(&self) -> nat {
        producer_cached_free(self.inner)
    }

    /// Writes samples in order until one does not fit, and drops that one and
    /// the rest. Returns the number of samples accepted: at least as many as
    /// were known to be free, and fewer than all only when the ring was full.
    pub fn push_slice(&mut self, samples: &[i16]) -> (written: usize)
        ensures
            written <= samples@.len(),
            final(self).capacity() == old(self).capacity(),
            final(self).written() == old(self).written() + samples@.take(written as int),
            written >= min_nat(old(self).known_free(), samples@.len()),
            written < samples@.len() ==> final(self).known_free() == 0,
            written <= old(self).known_free() && written == samples@.len() ==> final(self).known_free()
                == old(self).known_free() - written,
    {
        let n = samples.len();
        let mut written: usize = 0;
        let ghost free0 = self.known_free();
        while written < n
            invariant_except_break
                n == samples@.len(),
                written <= n,
                self.capacity() == old(self).capacity(),
                free0 == old(self).known_free(),
                self.written() == old(self).written() + samples@.take(written as int),
                written <= free0 ==> self.known_free() == free0 - written,
            ensures
                written <= n,
                self.capacity() == old(self).capacity(),
                self.written() == old(self).written() + samples@.take(written as int),
                written >= min_nat(free0, n as nat),
                written < n ==> self.known_free() == 0,
                written <= free0 && written == n ==> self.known_free() == free0 - written,
            decreases n - written,
        {
            let sample = samples[written];
            if !producer_push(self, sample) {
                break;
            }
            assert(samples@.take(written + 1) =~= samples@.take(written as int).push(sample));
            written += 1;
        }
        written
    }

    /// The free slots at this moment: at least those known to be free before,
    /// and known to be free afterwards.
    pub fn free_len(&mut self) -> (n: usize)
        ensures
            old(self).known_free() <= n <= old(self).capacity(),
            final(self).known_free() == n,
            final(self).capacity() == old(self).capacity(),
            final(self).written() == old(self).written(),
    {
        producer_slots(&mut self.inner)
    }
}

/// The sample a read writes for one pop: the popped sample, or silence.
pub fn sample_or_silence(pop: Option<i16>) -> (sample: i16)
    ensures
        sample == slot_value(pop),
{
    match pop {
        Some(value) => value,
        None => 0,
    }
}

impl PcmConsumer {
    /// The capacity of the ring.
    pub closed spec fn capacity(&self) -> nat {
        consumer_capacity(self.inner)
    }

    /// The slots known to hold samples, whatever the producer has done meanwhile.
    pub closed spec fn known_filled(&self) -> nat {
        consumer_cached_filled(self.inner)
    }

    /// The samples that this reader's pops took from the ring so far, oldest first.
    pub closed spec fn taken(&self) -> Seq<i16> {
        self.taken@
    }

    /// Reads immediately, writing each popped sample straight into `output`
    /// and zero wherever no sample was available; nothing is allocated.
    /// Returns the number of real samples read: at least as many as were
    /// known to be there.
    pub fn read_into(&mut self, output: &mut [i16]) -> (read: usize)
        ensures
            final(output)@.len() == old(output)@.len(),
            final(self).capacity() == old(self).capacity(),
            exists|pops: Seq<Option<i16>>| {
                &&& pops.len() == old(output)@.len()
                &&& final(output)@ == silence_filled(pops)
                &&& read == popped_count(pops)
                &&& final(self).taken() == old(self).taken() + popped_samples(pops)
                &&& forall|i: int| 0 <= i < min_nat(old(self).known_filled(), pops.len()) ==> (#[trigger] pops[i]) is Some
            },
            read >= min_nat(old(self).known_filled(), old(output)@.len()),
            old(output)@.len() <= old(self).known_filled() ==> final(self).known_filled()
                == old(self).known_filled() - old(output)@.len(),
    {
        let n = output.len();
        let ghost filled0 = self.known_filled();
        let ghost mut pops: Seq<Option<i16>> = Seq::empty();
        let mut read: usize = 0;
        let mut i: usize = 0;
        while i < n
            invariant
                n == output@.len(),
                n == old(output)@.len(),
                i <= n,
                pops.len() == i,
                read <= i,
                read == popped_count(pops),
                forall|j: int| 0 <= j < i ==> #[trigger] output@[j] == slot_value(pops[j]),
                self.capacity() == old(self).capacity(),
                filled0 == old(self).known_filled(),
                i <= filled0 ==> self.known_filled() == filled0 - i,
                forall|j: int| 0 <= j < min_nat(filled0, i as nat) ==> (#[trigger] pops[j]) is Some,
                self.taken() == old(self).taken() + popped_samples(pops),
            decreases n - i,
        {
            let ghost before = pops;
            let pop = consumer_pop(self);
            output[i] = sample_or_silence(pop);
            if pop.is_some() {
                read += 1;
            }
            proof {
                pops = pops.push(pop);
                assert(pops.drop_last() =~= before);
                assert(old(self).taken() + popped_samples(pops) =~= match pop {
                    Some(v) => (old(self).taken() + popped_samples(before)).push(v),
                    None => old(self).taken() + popped_samples(before),
                });
            }
            i += 1;
        }
        proof {
            assert(output@ =~= silence_filled(pops));
            lemma_popped_count_prefix(pops, min_nat(filled0, n as nat));
        }
        read
    }

    /// The filled slots at this moment: at least those known to be filled
    /// before, and known to be filled afterwards.
    pub fn occupied_len(&mut self) -> (n: usize)
        ensures
            old(self).known_filled() <= n <= old(self).capacity(),
            final(self).known_filled() == n,
            final(self).capacity() == old(self).capacity(),
    {
        consumer_slots(&mut self.inner)
    }
}

/// Pops that start with `k` samples count at least `k`.
proof fn lemma_popped_count_prefix(pops: Seq<Option<i16>>, k: nat)
    requires
        k <= pops.len(),
        forall|j: int| 0 <= j < k ==> (#[trigger] pops[j]) is Some,
    ensures
        popped_count(pops) >= k,
    decreases pops.len(),
{
    if pops.len() > 0 {
        if k == pops.len() {
            lemma_popped_count_prefix(pops.drop_last(), (k - 1) as nat);
        } else {
            lemma_popped_count_prefix(pops.drop_last(), k);
        }
    }
}

} // verus!
