//! Assembling captured samples into fixed 10 ms blocks, deciding what each
//! capture event contributes, and queueing blocks so that the newest win.

use vstd::prelude::*;
use crossbeam_channel::{Receiver, Sender, TryRecvError, TrySendError};
use crate::client::jitter::wrapping_add_u64;
use crate::server::network::le_bytes;

verus! {

/// Interleaved samples in one 10 ms stereo block.
pub const BLOCK_SAMPLE_COUNT: usize = 960;

/// Samples per channel in one block: the timestamp advance per block.
pub const BLOCK_FRAMES: u64 = 480;

/// A fixed 10 ms block of target-format PCM with its source sample position.
#[derive(Debug)]
pub struct PcmBlock {
    pub timestamp: u64,
    pub samples: [i16; 960],
}

/// A block as values: its timestamp and its samples.
pub open spec fn block_view(b: PcmBlock) -> (u64, Seq<i16>) {
    (b.timestamp, b.samples@)
}

/// Collects samples until a block is full.
pub struct BlockAssembler {
    timestamp: u64,
    filled: usize,
    samples: [i16; 960],
}

/// The abstract state of an assembler: the timestamp of the block being
/// filled and the samples collected for it so far.
pub struct AssemblerView {
    pub timestamp: u64,
    pub pending: Seq<i16>,
}

impl View for BlockAssembler {
    type V = AssemblerView;

    closed spec fn view(&self) -> AssemblerView {
        AssemblerView { timestamp: self.timestamp, pending: self.samples@.take(self.filled as int) }
    }
}

impl BlockAssembler {
    pub closed spec fn wf(&self) -> bool {
        self.filled < BLOCK_SAMPLE_COUNT
    }
}

/// Adds one sample; a block is completed when it fills.
pub open spec fn push_one(v: AssemblerView, sample: i16) -> (AssemblerView, Seq<(u64, Seq<i16>)>) {
    let pending = v.pending.push(sample);
    if pending.len() == BLOCK_SAMPLE_COUNT {
        (
            AssemblerView { timestamp: wrapping_add_u64(v.timestamp, BLOCK_FRAMES), pending: Seq::empty() },
            seq![(v.timestamp, pending)],
        )
    } else {
        (AssemblerView { pending, ..v }, Seq::empty())
    }
}

/// Adds samples in order, collecting every completed block.
pub open spec fn push_all(v: AssemblerView, samples: Seq<i16>) -> (AssemblerView, Seq<(u64, Seq<i16>)>)
    decreases samples.len(),
{
    if samples.len() == 0 {
        (v, Seq::empty())
    } else {
        let (v1, blocks1) = push_all(v, samples.drop_last());
        let (v2, blocks2) = push_one(v1, samples.last());
        (v2, blocks1 + blocks2)
    }
}

/// `count` samples of silence.
pub open spec fn zeros(count: nat) -> Seq<i16> {
    Seq::new(count, |i: int| 0i16)
}

/// The samples of blocks, one block after another.
pub open spec fn block_samples(blocks: Seq<(u64, Seq<i16>)>) -> Seq<i16>
    decreases blocks.len(),
{
    if blocks.len() == 0 {
        Seq::empty()
    } else {
        block_samples(blocks.drop_last()) + blocks.last().1
    }
}

/// The timestamp `k` blocks after `t`, wrapping like the assembler's clock.
pub open spec fn advance_blocks(t: u64, k: nat) -> u64
    decreases k,
{
    if k == 0 {
        t
    } else {
        wrapping_add_u64(advance_blocks(t, (k - 1) as nat), BLOCK_FRAMES)
    }
}

/// Nothing is lost, duplicated or reordered between capture and blocks:
/// the emitted blocks followed by what stays pending are exactly what was
/// pending before followed by the new samples; every block is full, and
/// block `k` starts `k` blocks after the assembler's clock, which then
/// stands just after the last block.
pub proof fn lemma_push_all_conserves(v: AssemblerView, samples: Seq<i16>)
    requires
        v.pending.len() < BLOCK_SAMPLE_COUNT,
    ensures
        ({
            let (v2, blocks) = push_all(v, samples);
            &&& block_samples(blocks) + v2.pending == v.pending + samples
            &&& v2.pending.len() < BLOCK_SAMPLE_COUNT
            &&& v2.timestamp == advance_blocks(v.timestamp, blocks.len())
            &&& forall|k: int| 0 <= k < blocks.len() ==> (#[trigger] blocks[k]).1.len() == BLOCK_SAMPLE_COUNT
                && blocks[k].0 == advance_blocks(v.timestamp, k as nat)
        }),
    decreases samples.len(),
{
    if samples.len() > 0 {
        let rest = samples.drop_last();
        let x = samples.last();
        lemma_push_all_conserves(v, rest);
        let (v1, b1) = push_all(v, rest);
        let (v2, b2) = push_one(v1, x);
        let blocks = b1 + b2;
        assert(push_all(v, samples) == (v2, blocks));
        if v1.pending.push(x).len() == BLOCK_SAMPLE_COUNT {
            assert(blocks.drop_last() =~= b1);
            assert(block_samples(blocks) == block_samples(b1) + v1.pending.push(x));
        } else {
            assert(blocks =~= b1);
        }
        assert(rest.push(x) =~= samples);
        assert(block_samples(b1) + v1.pending.push(x) =~= (block_samples(b1) + v1.pending).push(x));
        assert((v.pending + rest).push(x) =~= v.pending + samples);
        if v1.pending.push(x).len() == BLOCK_SAMPLE_COUNT {
            assert(block_samples(blocks) + v2.pending =~= block_samples(b1) + v1.pending.push(x));
        }
        assert(block_samples(blocks) + v2.pending == v.pending + samples);
    } else {
        assert(v.pending + samples =~= v.pending);
        assert(Seq::<i16>::empty() + v.pending =~= v.pending);
    }
}

impl BlockAssembler {
    pub fn new() -> (a: Self)
        ensures
            a.wf(),
            a@.timestamp == 0,
            a@.pending == Seq::<i16>::empty(),
    {
        BlockAssembler { timestamp: 0, filled: 0, samples: [0i16; 960] }
    }

    /// Adds captured samples and returns the blocks they complete, in order.
    pub fn push_samples(&mut self, samples: &[i16]) -> (blocks: Vec<PcmBlock>)
        requires
            old(self).wf(),
        ensures
            final(self).wf(),
            (final(self)@, blocks@.map_values(|b: PcmBlock| block_view(b))) == push_all(old(self)@, samples@),
    {
        let mut blocks: Vec<PcmBlock> = Vec::new();
        let n = samples.len();
        let mut i: usize = 0;
        while i < n
            invariant
                n == samples@.len(),
                i <= n,
                self.wf(),
                (self@, blocks@.map_values(|b: PcmBlock| block_view(b))) == push_all(old(self)@, samples@.take(i as int)),
            decreases n - i,
        {
            self.push_one(samples[i], &mut blocks);
            proof {
                assert(samples@.take(i + 1).drop_last() =~= samples@.take(i as int));
            }
            i += 1;
        }
        assert(samples@.take(n as int) =~= samples@);
        blocks
    }

    /// Adds `count` samples of silence and returns the blocks they complete, in order.
    pub fn push_silence(&mut self, count: usize) -> (blocks: Vec<PcmBlock>)
        requires
            old(self).wf(),
        ensures
            final(self).wf(),
            (final(self)@, blocks@.map_values(|b: PcmBlock| block_view(b))) == push_all(old(self)@, zeros(count as nat)),
    {
        let mut blocks: Vec<PcmBlock> = Vec::new();
        let mut i: usize = 0;
        while i < count
            invariant
                i <= count,
                self.wf(),
                (self@, blocks@.map_values(|b: PcmBlock| block_view(b))) == push_all(old(self)@, zeros(i as nat)),
            decreases count - i,
        {
            self.push_one(0, &mut blocks);
            proof {
                assert(zeros((i + 1) as nat).drop_last() =~= zeros(i as nat));
            }
            i += 1;
        }
        blocks
    }

    fn push_one(&mut self, sample: i16, blocks: &mut Vec<PcmBlock>)
        requires
            old(self).wf(),
        ensures
            final(self).wf(),
            ({
                let (v, new_blocks) = push_one(old(self)@, sample);
                &&& final(self)@ == v
                &&& final(blocks)@.map_values(|b: PcmBlock| block_view(b)) == old(blocks)@.map_values(
                    |b: PcmBlock| block_view(b),
                ) + new_blocks
            }),
    {
        self.samples[self.filled] = sample;
        self.filled += 1;
        if self.filled != BLOCK_SAMPLE_COUNT {
            assert(self@.pending =~= old(self)@.pending.push(sample));
            assert(blocks@.map_values(|b: PcmBlock| block_view(b)) =~= old(blocks)@.map_values(
                |b: PcmBlock| block_view(b),
            ) + Seq::<(u64, Seq<i16>)>::empty());
            return;
        }
        let full = self.samples;
        let block = PcmBlock { timestamp: self.timestamp, samples: full };
        self.samples = [0i16; 960];
        self.timestamp = self.timestamp.wrapping_add(BLOCK_FRAMES);
        self.filled = 0;
        proof {
            assert(full@ =~= old(self)@.pending.push(sample));
        }
        blocks.push(block);
        assert(self@.pending =~= Seq::<i16>::empty());
        assert(blocks@.map_values(|b: PcmBlock| block_view(b)) =~= old(blocks)@.map_values(
            |b: PcmBlock| block_view(b),
        ) + push_one(old(self)@, sample).1);
    }
}

/// Blocks of silence emitted when the device signals nothing for a wait period.
pub const SILENCE_FALLBACK_BLOCKS: usize = 5;
/// Bytes of one captured stereo frame of 32-bit floats.
pub const FLOAT_BYTES_PER_FRAME: usize = 8;

/// Something the capture device reported.
#[derive(Clone, Copy, Debug, PartialEq, Eq, Structural)]
pub enum CaptureEvent {
    /// A packet of `frames` stereo frames; `silent` when the device flagged it as silence.
    Packet { frames: u32, silent: bool },
    /// The wait for the next device event timed out.
    EventTimeout,
}

/// What the capture loop feeds the assembler for an event.
#[derive(Clone, Copy, Debug, PartialEq, Eq, Structural)]
pub enum CaptureAction {
    /// This many samples of silence.
    Silence { samples: usize },
    /// Convert the first `bytes` bytes of float data read, which hold `samples` samples.
    Convert { bytes: usize, samples: usize },
}

/// A silent packet becomes as many zero samples as it has; a packet with
/// sound is converted from its floats; a timed-out wait becomes a bounded run
/// of silent blocks so that the client stays clocked.
pub fn capture_action(event: CaptureEvent) -> (action: CaptureAction)
    requires
        event matches CaptureEvent::Packet { frames, .. } ==> frames * 8 <= usize::MAX,
    ensures
        action == match event {
            CaptureEvent::Packet { frames, silent } => if silent {
                CaptureAction::Silence { samples: (frames * 2) as usize }
            } else {
                CaptureAction::Convert { bytes: (frames * 8) as usize, samples: (frames * 2) as usize }
            },
            CaptureEvent::EventTimeout => CaptureAction::Silence { samples: 4800 },
        },
{
    match event {
        CaptureEvent::Packet { frames, silent } => {
            let samples: usize = frames as usize * 2;
            if silent {
                CaptureAction::Silence { samples }
            } else {
                CaptureAction::Convert { bytes: frames as usize * FLOAT_BYTES_PER_FRAME, samples }
            }
        },
        CaptureEvent::EventTimeout => CaptureAction::Silence { samples: BLOCK_SAMPLE_COUNT * SILENCE_FALLBACK_BLOCKS },
    }
}

#[verifier::external_type_specification]
#[verifier::external_body]
#[verifier::reject_recursive_types(T)]
pub struct ExSender<T>(Sender<T>);

#[verifier::external_type_specification]
#[verifier::external_body]
#[verifier::reject_recursive_types(T)]
pub struct ExReceiver<T>(Receiver<T>);

/// How a non-blocking send on the block queue went.
#[derive(Clone, Copy, Debug, PartialEq, Eq, Structural)]
pub enum SendOutcome {
    Sent,
    Full,
    Disconnected,
}

/// How a non-blocking receive on the block queue went.
#[derive(Clone, Copy, Debug, PartialEq, Eq, Structural)]
pub enum ReceiveOutcome {
    Received,
    Empty,
    Disconnected,
}

/// A call made on the block queue, as its log records it.
pub enum QueueCall {
    /// A block offered to the queue by a non-blocking send.
    Offer((u64, Seq<i16>)),
    /// A non-blocking receive that evicts whatever oldest block it finds.
    Evict,
}

/// The two ends of the bounded block queue as the capture thread holds them:
/// the sender, and a receiver used only to evict the oldest block when the
/// queue is full. The log records, in order, every call made on the queue
/// through this value.
pub struct BlockQueue {
    sender: Sender<PcmBlock>,
    eviction_receiver: Receiver<PcmBlock>,
    calls: Ghost<Seq<QueueCall>>,
}

impl BlockQueue {
    /// The calls made on the queue so far, oldest first.
    pub closed spec fn calls(&self) -> Seq<QueueCall> {
        self.calls@
    }

    /// Holds the two ends of one channel; no call has been made yet.
    pub fn new(sender: Sender<PcmBlock>, eviction_receiver: Receiver<PcmBlock>) -> (queue: Self)
        ensures
            queue.calls() == Seq::<QueueCall>::empty(),
    {
        BlockQueue { sender, eviction_receiver, calls: Ghost(Seq::empty()) }
    }
}

/// `Sender::try_send` from `crossbeam_channel`, offering `block` to the queue;
/// the log gains the offer. A refused block comes back unchanged. Whether the
/// queue takes it depends on the other threads, so nothing is said of which
/// outcome occurs.
#[verifier::external_body]
fn queue_try_send(queue: &mut BlockQueue, block: PcmBlock) -> (result: (SendOutcome, Option<PcmBlock>))
    ensures
        final(queue).calls() == old(queue).calls().push(QueueCall::Offer(block_view(block))),
        result.0 is Sent <==> result.1 is None,
        result.1 matches Some(b) ==> b == block,
{
    match queue.sender.try_send(block) {
        Ok(()) => (SendOutcome::Sent, None),
        Err(TrySendError::Full(b)) => (SendOutcome::Full, Some(b)),
        Err(TrySendError::Disconnected(b)) => (SendOutcome::Disconnected, Some(b)),
    }
}

/// `Receiver::try_recv` from `crossbeam_channel`, discarding the block it
/// takes; the log gains the eviction. What it finds depends on the other
/// threads, so nothing is said of which outcome occurs.
#[verifier::external_body]
fn queue_try_evict(queue: &mut BlockQueue) -> (outcome: ReceiveOutcome)
    ensures
        final(queue).calls() == old(queue).calls().push(QueueCall::Evict),
{
    match queue.eviction_receiver.try_recv() {
        Ok(_) => ReceiveOutcome::Received,
        Err(TryRecvError::Empty) => ReceiveOutcome::Empty,
        Err(TryRecvError::Disconnected) => ReceiveOutcome::Disconnected,
    }
}

/// Whether the block reached the queue, and how many blocks were lost on the way.
#[derive(Clone, Copy, Debug, PartialEq, Eq, Structural)]
pub struct EnqueueOutcome {
    pub delivered: bool,
    pub dropped: u64,
}

/// The outcome of queueing a block, given what the first send, the eviction
/// and the second send reported (`None` where that call was not made). A full
/// queue gives up its oldest block (one drop) so that the new one fits; a
/// block that still cannot be sent is dropped too; a vanished receiver drops
/// the block.
pub open spec fn enqueue_outcome(
    first: SendOutcome,
    evicted: Option<ReceiveOutcome>,
    second: Option<SendOutcome>,
) -> EnqueueOutcome {
    match first {
        SendOutcome::Sent => EnqueueOutcome { delivered: true, dropped: 0 },
        SendOutcome::Disconnected => EnqueueOutcome { delivered: false, dropped: 1 },
        SendOutcome::Full => {
            let evicted_drops: u64 = if evicted == Some(ReceiveOutcome::Received) { 1 } else { 0 };
            if evicted == Some(ReceiveOutcome::Disconnected) {
                EnqueueOutcome { delivered: false, dropped: 1 }
            } else if second == Some(SendOutcome::Sent) {
                EnqueueOutcome { delivered: true, dropped: evicted_drops }
            } else {
                EnqueueOutcome { delivered: false, dropped: (evicted_drops + 1) as u64 }
            }
        },
    }
}

/// The calls that queueing makes: an eviction exactly when the first send
/// found the queue full, and a second send exactly when that eviction did not
/// find the receiver gone.
pub open spec fn enqueue_calls(first: SendOutcome, evicted: Option<ReceiveOutcome>, second: Option<SendOutcome>) -> bool {
    &&& (first == SendOutcome::Full <==> evicted is Some)
    &&& (second is Some <==> (first == SendOutcome::Full && evicted is Some && evicted != Some(
        ReceiveOutcome::Disconnected,
    )))
}

/// Decides the outcome of queueing from what each channel call reported.
pub fn enqueue_step(first: SendOutcome, evicted: Option<ReceiveOutcome>, second: Option<SendOutcome>) -> (outcome:
    EnqueueOutcome)
    ensures
        outcome == enqueue_outcome(first, evicted, second),
{
    match first {
        SendOutcome::Sent => EnqueueOutcome { delivered: true, dropped: 0 },
        SendOutcome::Disconnected => EnqueueOutcome { delivered: false, dropped: 1 },
        SendOutcome::Full => {
            let evicted_drops: u64 = match evicted {
                Some(ReceiveOutcome::Received) => 1,
                _ => 0,
            };
            match evicted {
                Some(ReceiveOutcome::Disconnected) => EnqueueOutcome { delivered: false, dropped: 1 },
                _ => match second {
                    Some(SendOutcome::Sent) => EnqueueOutcome { delivered: true, dropped: evicted_drops },
                    _ => EnqueueOutcome { delivered: false, dropped: evicted_drops + 1 },
                },
            }
        },
    }
}

/// The calls that queueing `block` makes, in order: one offer; then, after a
/// full queue, an eviction; then, unless the receiver was gone, a second
/// offer of the same block.
pub open spec fn queueing_calls(block: PcmBlock, evicted: Option<ReceiveOutcome>, second: Option<SendOutcome>) -> Seq<
    QueueCall,
> {
    let offer = QueueCall::Offer(block_view(block));
    if evicted is None {
        seq![offer]
    } else if second is None {
        seq![offer, QueueCall::Evict]
    } else {
        seq![offer, QueueCall::Evict, offer]
    }
}

/// Queues a block so that latency stays bounded: the block is offered to the
/// queue; when the queue is full the oldest block is evicted and the same
/// block is offered once more. Which outcome each call gives depends on the
/// other threads; the result is `enqueue_step` of what they gave, and the
/// calls made are those of `queueing_calls`.
pub fn enqueue_latest(queue: &mut BlockQueue, block: PcmBlock) -> (outcome: EnqueueOutcome)
    ensures
        exists|first: SendOutcome, evicted: Option<ReceiveOutcome>, second: Option<SendOutcome>|
            {
                &&& enqueue_calls(first, evicted, second)
                &&& outcome == #[trigger] enqueue_outcome(first, evicted, second)
                &&& final(queue).calls() == old(queue).calls() + queueing_calls(block, evicted, second)
            },
        outcome.dropped <= 2,
        outcome.delivered ==> outcome.dropped <= 1,
        !outcome.delivered ==> outcome.dropped >= 1,
{
    let ghost log0 = queue.calls();
    let (first, returned) = queue_try_send(queue, block);
    if first != SendOutcome::Full {
        let outcome = enqueue_step(first, None, None);
        assert(queue.calls() =~= log0 + queueing_calls(block, None, None));
        assert(enqueue_calls(first, None, None));
        return outcome;
    }
    let block2 = returned.unwrap();
    let evicted = queue_try_evict(queue);
    if evicted == ReceiveOutcome::Disconnected {
        let outcome = enqueue_step(first, Some(evicted), None);
        assert(queue.calls() =~= log0 + queueing_calls(block, Some(evicted), None));
        assert(enqueue_calls(first, Some(evicted), None));
        return outcome;
    }
    let (second, _) = queue_try_send(queue, block2);
    let outcome = enqueue_step(first, Some(evicted), Some(second));
    assert(queue.calls() =~= log0 + queueing_calls(block, Some(evicted), Some(second)));
    assert(enqueue_calls(first, Some(evicted), Some(second)));
    outcome
}

/// A block as raw little-endian PCM, two bytes per sample: what a debug
/// capture file holds.
pub fn block_pcm_le(block: &PcmBlock) -> (bytes: Vec<u8>)
    ensures
        bytes@ == le_bytes(block.samples@),
{
    let mut bytes: Vec<u8> = Vec::new();
    let mut i: usize = 0;
    while i < BLOCK_SAMPLE_COUNT
        invariant
            i <= BLOCK_SAMPLE_COUNT,
            block.samples@.len() == BLOCK_SAMPLE_COUNT,
            bytes@ == le_bytes(block.samples@.take(i as int)),
        decreases BLOCK_SAMPLE_COUNT - i,
    {
        let sample = block.samples[i];
        bytes.push(((sample as u16) & 0xff) as u8);
        bytes.push(((sample as u16) >> 8) as u8);
        i += 1;
        assert(bytes@ =~= le_bytes(block.samples@.take(i as int)));
    }
    assert(block.samples@.take(BLOCK_SAMPLE_COUNT as int) =~= block.samples@);
    bytes
}

} // verus!
