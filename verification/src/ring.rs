//! The bounded sample ring that carries processed audio from the capture
//! callback to the playback callback.
//!
//! Samples travel as the bit patterns of 32-bit floats, so that the ring's
//! contents can be spoken of exactly.

use crate::buffer::Sync2DArray;
use ringbuf::traits::{Consumer, Producer, Split};
use vstd::prelude::*;

verus! {

/// A fixed-capacity first-in first-out channel of samples.
#[verifier::external_body]
pub struct RingChannel {
    rb: ringbuf::HeapRb<u32>,
}

/// The samples a ring holds, oldest first.
pub uninterp spec fn ring_items(rb: RingChannel) -> Seq<u32>;

/// The number of samples a ring was made to hold.
pub uninterp spec fn ring_capacity(rb: RingChannel) -> nat;

/// The largest capacity a ring may be asked for: a gibibyte of samples.
pub const MAX_RING_CAPACITY: usize = 0x1000_0000;

/// `ringbuf::HeapRb::new`: a ring of the given capacity that holds nothing.
/// It panics on a capacity of zero and on one whose storage exceeds the
/// address space; the precondition excludes both.
#[verifier::external_body]
fn ring_new(capacity: usize) -> (rb: RingChannel)
    requires
        0 < capacity <= MAX_RING_CAPACITY,
    ensures
        ring_items(rb) == Seq::<u32>::empty(),
        ring_capacity(rb) == capacity,
{
    RingChannel { rb: ringbuf::HeapRb::<u32>::new(capacity) }
}

/// `ringbuf::traits::Producer::try_push`: appends the sample behind the
/// newest one when the ring holds fewer samples than its capacity, and
/// otherwise hands the sample back and leaves the ring as it was.
#[verifier::external_body]
fn ring_try_push(rb: &mut RingChannel, sample: u32) -> (r: Result<(), u32>)
    ensures
        ring_capacity(*final(rb)) == ring_capacity(*old(rb)),
        r is Ok <==> ring_items(*old(rb)).len() < ring_capacity(*old(rb)),
        r is Ok ==> ring_items(*final(rb)) == ring_items(*old(rb)).push(sample),
        r is Err ==> r->Err_0 == sample && ring_items(*final(rb)) == ring_items(*old(rb)),
{
    rb.rb.try_push(sample)
}

/// `ringbuf::traits::Consumer::try_pop`: removes and returns the oldest
/// sample, or returns nothing when the ring is empty.
#[verifier::external_body]
fn ring_try_pop(rb: &mut RingChannel) -> (r: Option<u32>)
    ensures
        ring_capacity(*final(rb)) == ring_capacity(*old(rb)),
        r is Some <==> ring_items(*old(rb)).len() > 0,
        r is Some ==> r->Some_0 == ring_items(*old(rb))[0] && ring_items(*final(rb))
            == ring_items(*old(rb)).skip(1),
        r is None ==> ring_items(*final(rb)) == ring_items(*old(rb)),
{
    rb.rb.try_pop()
}

/// The producing half of a channel whose two ends live on different
/// threads.  It keeps its own copy of the consumer's position and renews it
/// only when, by that copy, the ring is full.
#[verifier::external_body]
pub struct RingProducer {
    half: ringbuf::HeapProd<u32>,
}

/// The consuming half of a channel whose two ends live on different
/// threads.  It keeps its own copy of the producer's position and renews it
/// only when, by that copy, the ring is empty.
#[verifier::external_body]
pub struct RingConsumer {
    half: ringbuf::HeapCons<u32>,
}

/// The samples between the producing half's copy of the read position and
/// its write position, oldest first: what it has pushed and does not yet
/// know to be taken.  No one writes to these slots while they are in that
/// range.
pub uninterp spec fn producer_pending(producer: RingProducer) -> Seq<u32>;

/// The number of samples the ring behind a producing half was made to hold.
pub uninterp spec fn producer_capacity(producer: RingProducer) -> nat;

/// The samples between the consuming half's read position and its copy of
/// the write position, oldest first: what it has seen arrive and not yet
/// taken.  No one writes to these slots while they are in that range.
pub uninterp spec fn consumer_visible(consumer: RingConsumer) -> Seq<u32>;

/// `ringbuf::traits::Split::split`: the ring's two ends, each usable from a
/// thread of its own.  Each end starts from the ring's two positions as they
/// are at the split, so both start out knowing of exactly what the ring
/// holds.
#[verifier::external_body]
fn ring_split(rb: RingChannel) -> (halves: (RingProducer, RingConsumer))
    ensures
        producer_pending(halves.0) == ring_items(rb),
        producer_capacity(halves.0) == ring_capacity(rb),
        consumer_visible(halves.1) == ring_items(rb),
{
    let (producer, consumer) = rb.rb.split();
    (RingProducer { half: producer }, RingConsumer { half: consumer })
}

/// `ringbuf::traits::Producer::try_push` on the producing half.  While the
/// half knows of a free slot the sample goes behind the pending ones.  When
/// it knows of none it renews its copy of the read position, which drops
/// from the pending samples those the consumer has taken; if that frees a
/// slot the sample goes in, else it is handed back and nothing changes.
#[verifier::external_body]
fn producer_try_push(producer: &mut RingProducer, sample: u32) -> (r: Result<(), u32>)
    ensures
        producer_capacity(*final(producer)) == producer_capacity(*old(producer)),
        producer_pending(*old(producer)).len() < producer_capacity(*old(producer)) ==> r is Ok
            && producer_pending(*final(producer)) == producer_pending(*old(producer)).push(
            sample,
        ),
        r is Ok ==> exists|taken: int|
            0 <= taken <= producer_pending(*old(producer)).len() && producer_pending(
                *final(producer),
            ) == #[trigger] producer_pending(*old(producer)).skip(taken).push(sample),
        r is Err ==> r->Err_0 == sample && producer_pending(*final(producer))
            == producer_pending(*old(producer)),
{
    producer.half.try_push(sample)
}

/// `ringbuf::traits::Consumer::try_pop` on the consuming half.  While the
/// half knows of a sample it takes the oldest one it knows of.  When it
/// knows of none it renews its copy of the write position; if samples have
/// arrived it takes the oldest of them, else it returns nothing and still
/// knows of none.
#[verifier::external_body]
fn consumer_try_pop(consumer: &mut RingConsumer) -> (r: Option<u32>)
    ensures
        consumer_visible(*old(consumer)).len() > 0 ==> r == Some(
            consumer_visible(*old(consumer))[0],
        ) && consumer_visible(*final(consumer)) == consumer_visible(*old(consumer)).skip(1),
        r is None ==> consumer_visible(*final(consumer)).len() == 0,
{
    consumer.half.try_pop()
}

/// What a push did.
#[derive(Clone, Copy, Debug, PartialEq, Eq, Structural)]
pub enum PushResult {
    Pushed,
    Full,
}

impl RingChannel {
    /// The samples in the channel, oldest first.
    pub closed spec fn view(&self) -> Seq<u32> {
        ring_items(*self)
    }

    /// The most samples the channel can hold.
    pub closed spec fn capacity(&self) -> nat {
        ring_capacity(*self)
    }

    /// The channel never holds more than its capacity, which is not zero.
    pub open spec fn wf(&self) -> bool {
        0 < self.capacity() && self@.len() <= self.capacity()
    }

    /// An empty channel of the given capacity.
    pub fn new(capacity: usize) -> (r: Self)
        requires
            0 < capacity <= MAX_RING_CAPACITY,
        ensures
            r.wf(),
            r@ == Seq::<u32>::empty(),
            r.capacity() == capacity,
    {
        ring_new(capacity)
    }

    /// Splits the channel into its two ends, for the two audio callbacks.
    /// Both ends start out knowing of exactly what the channel holds.
    pub fn split(self) -> (halves: (RingProducer, RingConsumer))
        ensures
            halves.0.pending() == self@,
            halves.0.capacity() == self.capacity(),
            halves.1.visible() == self@,
    {
        ring_split(self)
    }

    /// Appends a sample unless the channel is full.
    pub fn try_push(&mut self, sample: u32) -> (r: PushResult)
        requires
            old(self).wf(),
        ensures
            final(self).wf(),
            final(self).capacity() == old(self).capacity(),
            final(self)@ == after_push(old(self)@, old(self).capacity(), sample),
            r == PushResult::Full <==> old(self)@.len() == old(self).capacity(),
    {
        push_outcome(ring_try_push(self, sample))
    }

    /// Removes the oldest sample, if there is one.
    pub fn try_pop(&mut self) -> (r: Option<u32>)
        requires
            old(self).wf(),
        ensures
            final(self).wf(),
            final(self).capacity() == old(self).capacity(),
            final(self)@ == after_pop(old(self)@),
            r == oldest(old(self)@),
    {
        ring_try_pop(self)
    }

    /// Pushes the leading frames of a block, frame after frame and within a
    /// frame channel after channel.  Samples that find the channel full are
    /// dropped; their number is returned.
    pub fn push_frames<const CHANNELS: usize, const BUFFER_SIZE: usize>(
        &mut self,
        block: &Sync2DArray<u32, CHANNELS, BUFFER_SIZE>,
        frames: usize,
    ) -> (dropped: usize)
        requires
            old(self).wf(),
            block.wf(),
        ensures
            final(self).wf(),
            final(self).capacity() == old(self).capacity(),
            final(self)@ == after_pushes(
                old(self)@,
                old(self).capacity(),
                frame_major(block, whole_frames(frames as int, BUFFER_SIZE as int)),
            ),
            dropped == old(self)@.len() + frame_major(
                block,
                whole_frames(frames as int, BUFFER_SIZE as int),
            ).len() - final(self)@.len(),
    {
        let n: usize = if frames <= BUFFER_SIZE {
            frames
        } else {
            BUFFER_SIZE
        };
        let mut dropped: usize = 0;
        let mut i: usize = 0;
        proof {
            lemma_frame_major_len(block, 0);
        }
        while i < n
            invariant
                0 <= i <= n <= BUFFER_SIZE,
                block.wf(),
                self.wf(),
                self.capacity() == old(self).capacity(),
                self@ == after_pushes(old(self)@, old(self).capacity(), frame_major(block, i as int)),
                frame_major(block, i as int).len() == i * CHANNELS,
                dropped == old(self)@.len() + frame_major(block, i as int).len() - self@.len(),
                dropped <= i * CHANNELS,
            decreases n - i,
        {
            let mut c: usize = 0;
            let ghost done = frame_major(block, i as int);
            assert(done + frame_of(block, i as int).take(0) =~= done);
            proof {
                lemma_frame_major_len(block, i + 1);
                assert(i * CHANNELS + CHANNELS == (i + 1) * CHANNELS) by (nonlinear_arith);
                assert((i + 1) * CHANNELS <= BUFFER_SIZE * CHANNELS) by (nonlinear_arith)
                    requires
                        i + 1 <= BUFFER_SIZE,
                ;
                block.lemma_storage_fits();
            }
            while c < CHANNELS
                invariant
                    0 <= i < n <= BUFFER_SIZE,
                    0 <= c <= CHANNELS,
                    block.wf(),
                    self.wf(),
                    self.capacity() == old(self).capacity(),
                    done == frame_major(block, i as int),
                    done.len() == i * CHANNELS,
                    i * CHANNELS + CHANNELS <= usize::MAX,
                    self@ == after_pushes(
                        old(self)@,
                        old(self).capacity(),
                        done + frame_of(block, i as int).take(c as int),
                    ),
                    dropped == old(self)@.len() + done.len() + c - self@.len(),
                    dropped <= i * CHANNELS + c,
                decreases CHANNELS - c,
            {
                let v: u32 = block.get(c, i);
                proof {
                    let f = frame_of(block, i as int);
                    let next = done + f.take(c + 1);
                    assert(next.drop_last() =~= done + f.take(c as int));
                    assert(next.last() == v);
                }
                match self.try_push(v) {
                    PushResult::Pushed => {},
                    PushResult::Full => {
                        dropped = dropped + 1;
                    },
                }
                c = c + 1;
            }
            assert(frame_of(block, i as int).take(CHANNELS as int) =~= frame_of(block, i as int));
            i = i + 1;
        }
        dropped
    }

    /// Fills every slot of `out` with the next sample of the channel, or
    /// with silence once the channel has run empty.
    pub fn pop_block(&mut self, out: &mut Vec<u32>)
        requires
            old(self).wf(),
        ensures
            final(self).wf(),
            final(self).capacity() == old(self).capacity(),
            final(out)@ == drained(old(self)@, old(out)@.len()),
            final(self)@ == old(self)@.skip(taken(old(self)@, old(out)@.len())),
    {
        let n: usize = out.len();
        let mut i: usize = 0;
        assert(self@.skip(0) =~= self@);
        while i < n
            invariant
                0 <= i <= n,
                out@.len() == n,
                n == old(out)@.len(),
                self.wf(),
                self.capacity() == old(self).capacity(),
                self@ == old(self)@.skip(taken(old(self)@, i as nat)),
                forall|k: int| 0 <= k < i ==> out@[k] == drained(old(self)@, n as nat)[k],
            decreases n - i,
        {
            let ghost before = self@;
            let v: u32 = slot_value(self.try_pop());
            out.set(i, v);
            proof {
                if i < old(self)@.len() {
                    assert(before.skip(1) =~= old(self)@.skip(i + 1));
                }
            }
            i = i + 1;
        }
        assert(out@ =~= drained(old(self)@, n as nat));
    }
}

/// The bit pattern of a silent sample.
pub const SILENCE: u32 = 0;

/// What an output slot receives for the outcome of a pop: the sample, or
/// silence when the channel was empty.
pub fn slot_value(popped: Option<u32>) -> (r: u32)
    ensures
        r == match popped {
            Some(s) => s,
            None => SILENCE,
        },
{
    match popped {
        Some(s) => s,
        None => SILENCE,
    }
}

/// What a push did, for the outcome the ring reported.
pub fn push_outcome(outcome: Result<(), u32>) -> (r: PushResult)
    ensures
        r == PushResult::Pushed <==> outcome is Ok,
{
    match outcome {
        Ok(()) => PushResult::Pushed,
        Err(_) => PushResult::Full,
    }
}

impl RingProducer {
    /// The samples this end has pushed and does not yet know to be taken,
    /// oldest first.
    pub closed spec fn pending(&self) -> Seq<u32> {
        producer_pending(*self)
    }

    /// The most samples the channel can hold.
    pub closed spec fn capacity(&self) -> nat {
        producer_capacity(*self)
    }

    /// Offers a sample to the channel.  Never blocks.
    ///
    /// While this end knows of room the sample is taken and goes behind the
    /// pending ones.  Otherwise it depends on the consumer: the sample is
    /// taken if the consumer has made room, and the pending samples are then
    /// those the consumer has not taken, with the new one behind them.
    pub fn try_push(&mut self, sample: u32) -> (r: PushResult)
        ensures
            final(self).capacity() == old(self).capacity(),
            old(self).pending().len() < old(self).capacity() ==> r == PushResult::Pushed && final(self).pending() == old(self).pending().push(sample),
            r == PushResult::Pushed ==> exists|taken: int|
                0 <= taken <= old(self).pending().len() && final(self).pending()
                    == #[trigger] old(self).pending().skip(taken).push(sample),
            r == PushResult::Full ==> final(self).pending() == old(self).pending(),
    {
        let outcome = producer_try_push(self, sample);
        proof {
            if outcome is Ok {
                let taken = choose|taken: int|
                    0 <= taken <= producer_pending(*old(self)).len() && producer_pending(*self)
                        == #[trigger] producer_pending(*old(self)).skip(taken).push(sample);
                assert(self.pending() == old(self).pending().skip(taken).push(sample));
            }
        }
        push_outcome(outcome)
    }

    /// Offers the leading frames of a block, frame after frame and within a
    /// frame channel after channel.  Samples that find the channel full are
    /// dropped; their number is returned.
    ///
    /// As many leading samples as this end knows of room for are taken for
    /// certain; where that is all of them, none is dropped and they stand
    /// behind the pending ones in the order offered.  Whenever none is
    /// dropped, the pending samples afterwards are a tail of the earlier
    /// ones followed by the offered ones.
    pub fn push_frames<const CHANNELS: usize, const BUFFER_SIZE: usize>(
        &mut self,
        block: &Sync2DArray<u32, CHANNELS, BUFFER_SIZE>,
        frames: usize,
    ) -> (dropped: usize)
        requires
            block.wf(),
        ensures
            final(self).capacity() == old(self).capacity(),
            dropped + owed(
                old(self).pending().len() as int,
                old(self).capacity() as int,
                offered(block, frames as int).len() as int,
            ) <= offered(block, frames as int).len(),
            old(self).pending().len() + offered(block, frames as int).len() <= old(self).capacity() ==> final(self).pending() == old(self).pending() + offered(
                block,
                frames as int,
            ),
            dropped == 0 ==> is_tail_of(
                final(self).pending(),
                old(self).pending() + offered(block, frames as int),
            ),
    {
        let n: usize = if frames <= BUFFER_SIZE {
            frames
        } else {
            BUFFER_SIZE
        };
        let mut dropped: usize = 0;
        let mut i: usize = 0;
        let ghost start = self.pending();
        let ghost limit = self.capacity() as int;
        let ghost mut cut: int = 0;
        proof {
            lemma_frame_major_len(block, 0);
            assert(start + frame_major(block, 0) =~= start);
            assert(start.skip(0) =~= start);
        }
        while i < n
            invariant
                0 <= i <= n <= BUFFER_SIZE,
                block.wf(),
                start == old(self).pending(),
                limit == old(self).capacity(),
                self.capacity() == limit,
                frame_major(block, i as int).len() == i * CHANNELS,
                self.pending().len() <= start.len() + i * CHANNELS,
                dropped + owed(start.len() as int, limit, i * CHANNELS) <= i * CHANNELS,
                start.len() + i * CHANNELS <= limit ==> self.pending() == start + frame_major(
                    block,
                    i as int,
                ),
                0 <= cut <= start.len() + i * CHANNELS,
                dropped == 0 ==> self.pending() == (start + frame_major(block, i as int)).skip(
                    cut,
                ),
            decreases n - i,
        {
            let mut c: usize = 0;
            let ghost done = frame_major(block, i as int);
            proof {
                assert(done + frame_of(block, i as int).take(0) =~= done);
                lemma_frame_major_len(block, i + 1);
                assert(i * CHANNELS + CHANNELS == (i + 1) * CHANNELS) by (nonlinear_arith);
                assert((i + 1) * CHANNELS <= BUFFER_SIZE * CHANNELS) by (nonlinear_arith)
                    requires
                        i + 1 <= BUFFER_SIZE,
                ;
                block.lemma_storage_fits();
            }
            while c < CHANNELS
                invariant
                    0 <= i < n <= BUFFER_SIZE,
                    0 <= c <= CHANNELS,
                    block.wf(),
                    start == old(self).pending(),
                    limit == old(self).capacity(),
                    self.capacity() == limit,
                    done == frame_major(block, i as int),
                    done.len() == i * CHANNELS,
                    i * CHANNELS + CHANNELS <= usize::MAX,
                    self.pending().len() <= start.len() + i * CHANNELS + c,
                    dropped + owed(start.len() as int, limit, i * CHANNELS + c) <= i * CHANNELS
                        + c,
                    start.len() + i * CHANNELS + c <= limit ==> self.pending() == start + (done
                        + frame_of(block, i as int).take(c as int)),
                    0 <= cut <= start.len() + i * CHANNELS + c,
                    dropped == 0 ==> self.pending() == (start + (done + frame_of(
                        block,
                        i as int,
                    ).take(c as int))).skip(cut),
                decreases CHANNELS - c,
            {
                let v: u32 = block.get(c, i);
                let ghost before = self.pending();
                let ghost sofar = done + frame_of(block, i as int).take(c as int);
                let ghost next = done + frame_of(block, i as int).take(c + 1);
                proof {
                    assert(next =~= sofar.push(v));
                    assert(start + next =~= (start + sofar).push(v));
                }
                match self.try_push(v) {
                    PushResult::Pushed => {
                        proof {
                            let taken = choose|taken: int|
                                0 <= taken <= before.len() && self.pending()
                                    == #[trigger] before.skip(taken).push(v);
                            if dropped == 0 {
                                assert(before.skip(taken) =~= (start + sofar).skip(cut + taken));
                                assert((start + sofar).skip(cut + taken).push(v) =~= (start
                                    + next).skip(cut + taken));
                                cut = cut + taken;
                            }
                        }
                    },
                    PushResult::Full => {
                        dropped = dropped + 1;
                    },
                }
                c = c + 1;
            }
            proof {
                assert(frame_of(block, i as int).take(CHANNELS as int) =~= frame_of(
                    block,
                    i as int,
                ));
            }
            i = i + 1;
        }
        proof {
            assert(n == whole_frames(frames as int, BUFFER_SIZE as int));
        }
        dropped
    }
}

impl RingConsumer {
    /// The samples this end has seen arrive and not yet taken, oldest first.
    pub closed spec fn visible(&self) -> Seq<u32> {
        consumer_visible(*self)
    }

    /// Takes the oldest sample, if one has arrived.  Never blocks.
    ///
    /// While this end knows of a sample it returns the oldest it knows of.
    /// Otherwise it depends on the producer; when nothing is returned, this
    /// end still knows of none.
    pub fn try_pop(&mut self) -> (r: Option<u32>)
        ensures
            old(self).visible().len() > 0 ==> r == Some(old(self).visible()[0]) && final(self).visible() == old(self).visible().skip(1),
            r is None ==> final(self).visible().len() == 0,
    {
        consumer_try_pop(self)
    }

    /// Fills every slot of `out` with the next sample of the channel, or
    /// with silence where none has arrived.  Returns how many slots were
    /// filled with silence.
    ///
    /// The samples this end knows of come first and in order, as far as the
    /// slots reach; none of their slots is silent for want of a sample.
    /// What the further slots receive depends on the producer.
    pub fn pop_block(&mut self, out: &mut Vec<u32>) -> (silent: usize)
        ensures
            final(out)@.len() == old(out)@.len(),
            forall|k: int|
                0 <= k < old(out)@.len() && k < old(self).visible().len() ==> final(out)@[k]
                    == old(self).visible()[k],
            silent + taken(old(self).visible(), old(out)@.len()) <= old(out)@.len(),
            old(out)@.len() <= old(self).visible().len() ==> final(self).visible() == old(self).visible().skip(old(out)@.len() as int),
    {
        let n: usize = out.len();
        let mut silent: usize = 0;
        let mut i: usize = 0;
        let ghost known = self.visible();
        proof {
            assert(known.skip(0) =~= known);
        }
        while i < n
            invariant
                0 <= i <= n,
                out@.len() == n,
                n == old(out)@.len(),
                known == old(self).visible(),
                forall|k: int| 0 <= k < i && k < known.len() ==> out@[k] == known[k],
                silent + taken(known, i as nat) <= i,
                i <= known.len() ==> self.visible() == known.skip(i as int),
            decreases n - i,
        {
            let ghost before = self.visible();
            let popped = self.try_pop();
            if popped.is_none() {
                silent = silent + 1;
            }
            out.set(i, slot_value(popped));
            proof {
                if i < known.len() {
                    assert(before.skip(1) =~= known.skip(i + 1));
                }
            }
            i = i + 1;
        }
        silent
    }
}

/// The samples that a request for `frames` frames of a block offers to the
/// channel: the frames the block has, one after another.
pub open spec fn offered<const CHANNELS: usize, const BUFFER_SIZE: usize>(
    block: &Sync2DArray<u32, CHANNELS, BUFFER_SIZE>,
    frames: int,
) -> Seq<u32> {
    frame_major(block, whole_frames(frames, BUFFER_SIZE as int))
}

/// Of `count` samples offered to a producing end that has `pending` samples
/// pending in a ring of the given capacity, the number that are taken for
/// certain: as many as the end knows of room for.
pub open spec fn owed(pending: int, capacity: int, count: int) -> int {
    if capacity - pending <= 0 {
        0
    } else if capacity - pending >= count {
        count
    } else {
        capacity - pending
    }
}

/// Whether `tail` is what is left of `whole` when some leading elements are
/// taken off.
pub open spec fn is_tail_of(tail: Seq<u32>, whole: Seq<u32>) -> bool {
    exists|cut: int| 0 <= cut <= whole.len() && tail == #[trigger] whole.skip(cut)
}

/// The number of frames of a block that a request for `frames` frames
/// covers: a block has no more than its channel length.
pub open spec fn whole_frames(frames: int, size: int) -> int {
    if frames <= size {
        frames
    } else {
        size
    }
}

/// Frame `i` of a block: the samples at position `i`, in channel order.
pub open spec fn frame_of<const CHANNELS: usize, const BUFFER_SIZE: usize>(
    block: &Sync2DArray<u32, CHANNELS, BUFFER_SIZE>,
    i: int,
) -> Seq<u32> {
    Seq::new(CHANNELS as nat, |c: int| block.sample(c, i))
}

/// The leading `frames` frames of a block, one after another.
pub open spec fn frame_major<const CHANNELS: usize, const BUFFER_SIZE: usize>(
    block: &Sync2DArray<u32, CHANNELS, BUFFER_SIZE>,
    frames: int,
) -> Seq<u32>
    decreases frames,
{
    if frames <= 0 {
        Seq::empty()
    } else {
        frame_major(block, frames - 1) + frame_of(block, frames - 1)
    }
}

/// The contents after attempts to push each of `samples` in turn.
pub open spec fn after_pushes(items: Seq<u32>, capacity: nat, samples: Seq<u32>) -> Seq<u32>
    decreases samples.len(),
{
    if samples.len() == 0 {
        items
    } else {
        after_push(after_pushes(items, capacity, samples.drop_last()), capacity, samples.last())
    }
}

/// How many samples `n` attempts to pop take out.
pub open spec fn taken(items: Seq<u32>, n: nat) -> int {
    if n <= items.len() {
        n as int
    } else {
        items.len() as int
    }
}

/// What `n` output slots receive: the queued samples in order, then silence.
pub open spec fn drained(items: Seq<u32>, n: nat) -> Seq<u32> {
    Seq::new(
        n,
        |k: int|
            if k < items.len() {
                items[k]
            } else {
                SILENCE
            },
    )
}

/// The frame-major sequence of `frames` frames has `frames × CHANNELS`
/// samples.
pub proof fn lemma_frame_major_len<const CHANNELS: usize, const BUFFER_SIZE: usize>(
    block: &Sync2DArray<u32, CHANNELS, BUFFER_SIZE>,
    frames: int,
)
    requires
        0 <= frames,
    ensures
        frame_major(block, frames).len() == frames * CHANNELS,
    decreases frames,
{
    if frames > 0 {
        lemma_frame_major_len(block, frames - 1);
        assert((frames - 1) * CHANNELS + CHANNELS == frames * CHANNELS) by (nonlinear_arith);
    } else {
        assert(0 * CHANNELS == 0) by (nonlinear_arith);
    }
}

/// Pushing a run of samples appends as many of them as there is room for,
/// in order, and drops the rest.
pub proof fn lemma_after_pushes_is_prefix(items: Seq<u32>, capacity: nat, samples: Seq<u32>)
    requires
        items.len() <= capacity,
    ensures
        after_pushes(items, capacity, samples) == items + samples.take(
            taken(samples, (capacity - items.len()) as nat),
        ),
    decreases samples.len(),
{
    let room = (capacity - items.len()) as nat;
    if samples.len() > 0 {
        let front = samples.drop_last();
        lemma_after_pushes_is_prefix(items, capacity, front);
        let mid = after_pushes(items, capacity, front);
        assert(mid == items + front.take(taken(front, room)));
        if mid.len() < capacity {
            assert(front.take(taken(front, room)) =~= front);
            assert(mid.push(samples.last()) =~= items + samples.take(taken(samples, room)));
        } else {
            assert(front.take(taken(front, room)) =~= samples.take(taken(samples, room)));
        }
    } else {
        assert(items + samples.take(0) =~= items);
    }
}

/// One operation on the channel.
pub enum RingOp {
    Push(u32),
    Pop,
}

/// The contents after a run of operations.
pub open spec fn after_ops(items: Seq<u32>, capacity: nat, ops: Seq<RingOp>) -> Seq<u32>
    decreases ops.len(),
{
    if ops.len() == 0 {
        items
    } else {
        let before = after_ops(items, capacity, ops.drop_last());
        match ops.last() {
            RingOp::Push(v) => after_push(before, capacity, v),
            RingOp::Pop => after_pop(before),
        }
    }
}

/// The samples whose push was accepted during a run of operations, in the
/// order they were pushed.
pub open spec fn accepted(items: Seq<u32>, capacity: nat, ops: Seq<RingOp>) -> Seq<u32>
    decreases ops.len(),
{
    if ops.len() == 0 {
        Seq::empty()
    } else {
        let before = after_ops(items, capacity, ops.drop_last());
        let sofar = accepted(items, capacity, ops.drop_last());
        match ops.last() {
            RingOp::Push(v) => if before.len() < capacity {
                sofar.push(v)
            } else {
                sofar
            },
            RingOp::Pop => sofar,
        }
    }
}

/// The samples that pops returned during a run of operations, in the order
/// they were returned.
pub open spec fn delivered(items: Seq<u32>, capacity: nat, ops: Seq<RingOp>) -> Seq<u32>
    decreases ops.len(),
{
    if ops.len() == 0 {
        Seq::empty()
    } else {
        let before = after_ops(items, capacity, ops.drop_last());
        let sofar = delivered(items, capacity, ops.drop_last());
        match ops.last() {
            RingOp::Push(_) => sofar,
            RingOp::Pop => match oldest(before) {
                Some(v) => sofar.push(v),
                None => sofar,
            },
        }
    }
}

/// First in, first out: after any run of pushes and pops, what was in the
/// channel at the start followed by every accepted sample equals what was
/// popped followed by what is still queued.  So pops return samples in push
/// order, none twice and none lost but those refused as full, and the
/// channel never holds more than its capacity.
pub proof fn lemma_ring_is_fifo(items: Seq<u32>, capacity: nat, ops: Seq<RingOp>)
    requires
        items.len() <= capacity,
    ensures
        items + accepted(items, capacity, ops) == delivered(items, capacity, ops) + after_ops(
            items,
            capacity,
            ops,
        ),
        after_ops(items, capacity, ops).len() <= capacity,
    decreases ops.len(),
{
    if ops.len() == 0 {
        assert(items + Seq::<u32>::empty() =~= Seq::<u32>::empty() + items);
    } else {
        let front = ops.drop_last();
        lemma_ring_is_fifo(items, capacity, front);
        let before = after_ops(items, capacity, front);
        let acc = accepted(items, capacity, front);
        let del = delivered(items, capacity, front);
        assert(items + acc == del + before);
        match ops.last() {
            RingOp::Push(v) => {
                if before.len() < capacity {
                    assert(items + acc.push(v) =~= (items + acc).push(v));
                    assert(del + before.push(v) =~= (del + before).push(v));
                }
            },
            RingOp::Pop => {
                if before.len() > 0 {
                    assert(del.push(before[0]) + before.skip(1) =~= del + before);
                }
            },
        }
    }
}

/// The contents after an attempt to push: the sample is appended when there
/// is room and dropped when there is none.
pub open spec fn after_push(items: Seq<u32>, capacity: nat, sample: u32) -> Seq<u32> {
    if items.len() < capacity {
        items.push(sample)
    } else {
        items
    }
}

/// The contents after an attempt to pop.
pub open spec fn after_pop(items: Seq<u32>) -> Seq<u32> {
    if items.len() > 0 {
        items.skip(1)
    } else {
        items
    }
}

/// The sample an attempt to pop returns.
pub open spec fn oldest(items: Seq<u32>) -> Option<u32> {
    if items.len() > 0 {
        Some(items[0])
    } else {
        None
    }
}

} // verus!
