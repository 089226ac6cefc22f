//! Fixed-capacity planar sample blocks: `CHANNELS` runs of `BUFFER_SIZE`
//! samples each, every channel contiguous.
//!
//! A block has one owner at a time.  The capture side fills and transforms
//! it while audio flows; the control side may look at it only between runs,
//! when no callback is active.  Handing a block to both sides at once is not
//! something this type allows.

use vstd::prelude::*;
use vstd::slice::slice_subrange;

verus! {

/// A planar block of `CHANNELS` channels of `BUFFER_SIZE` samples.
pub struct Sync2DArray<T: Copy, const CHANNELS: usize, const BUFFER_SIZE: usize> {
    data: Vec<T>,
    buffer_size: usize,
}

/// A channel and a position in it name one storage slot, and the slot lies
/// within the storage.
pub proof fn lemma_slot_in_bounds(channels: int, size: int, c: int, i: int)
    requires
        0 <= c < channels,
        0 <= i < size,
    ensures
        0 <= c * size + i < channels * size,
        c * size + size <= channels * size,
        0 <= c * size,
{
    assert(c * size + size == (c + 1) * size) by (nonlinear_arith);
    assert((c + 1) * size <= channels * size) by (nonlinear_arith)
        requires
            c + 1 <= channels,
            0 <= size,
    ;
    assert(0 <= c * size) by (nonlinear_arith)
        requires
            0 <= c,
            0 <= size,
    ;
}

/// Different positions name different storage slots.
pub proof fn lemma_slot_injective(size: int, c1: int, i1: int, c2: int, i2: int)
    requires
        0 <= i1 < size,
        0 <= i2 < size,
        c1 * size + i1 == c2 * size + i2,
    ensures
        c1 == c2,
        i1 == i2,
{
    assert(c1 == c2) by (nonlinear_arith)
        requires
            0 <= i1 < size,
            0 <= i2 < size,
            c1 * size + i1 == c2 * size + i2,
    ;
}

impl<T: Copy, const CHANNELS: usize, const BUFFER_SIZE: usize> Sync2DArray<
    T,
    CHANNELS,
    BUFFER_SIZE,
> {
    /// The storage holds every slot, and the block length fits a channel.
    pub closed spec fn wf(&self) -> bool {
        &&& self.data@.len() == CHANNELS * BUFFER_SIZE
        &&& CHANNELS * BUFFER_SIZE <= usize::MAX
        &&& self.buffer_size <= BUFFER_SIZE
    }

    /// The sample at a position of a channel.
    pub closed spec fn sample(&self, channel: int, idx: int) -> T {
        self.data@[channel * BUFFER_SIZE + idx]
    }

    /// The number of samples per channel that `read` covers.
    pub closed spec fn block_len(&self) -> nat {
        self.buffer_size as nat
    }

    /// One channel, as a sequence of `BUFFER_SIZE` samples.
    pub open spec fn channel(&self, c: int) -> Seq<T> {
        Seq::new(BUFFER_SIZE as nat, |i: int| self.sample(c, i))
    }

    /// The block, channel by channel.
    pub open spec fn view(&self) -> Seq<Seq<T>> {
        Seq::new(CHANNELS as nat, |c: int| self.channel(c))
    }

    /// Whether two blocks agree everywhere outside the leading `frames`
    /// samples of the leading `channels` channels.
    pub open spec fn same_outside(&self, other: &Self, channels: int, frames: int) -> bool {
        forall|c: int, i: int|
            0 <= c < CHANNELS && 0 <= i < BUFFER_SIZE && !(c < channels && i < frames)
                ==> #[trigger] self.sample(c, i) == other.sample(c, i)
    }

    /// The storage of a well-formed block is addressable.
    pub proof fn lemma_storage_fits(&self)
        requires
            self.wf(),
        ensures
            CHANNELS * BUFFER_SIZE <= usize::MAX,
    {
    }

    /// A block with every sample set to `default`.
    pub fn new(default: T, buffer_size: usize) -> (r: Self)
        requires
            CHANNELS * BUFFER_SIZE <= usize::MAX,
            buffer_size <= BUFFER_SIZE,
        ensures
            r.wf(),
            r.block_len() == buffer_size,
            forall|c: int, i: int|
                0 <= c < CHANNELS && 0 <= i < BUFFER_SIZE ==> #[trigger] r.sample(c, i)
                    == default,
    {
        let total: usize = CHANNELS * BUFFER_SIZE;
        let mut data: Vec<T> = Vec::new();
        let mut k: usize = 0;
        while k < total
            invariant
                0 <= k <= total,
                data@.len() == k,
                forall|m: int| 0 <= m < k ==> data@[m] == default,
            decreases total - k,
        {
            data.push(default);
            k = k + 1;
        }
        let r = Sync2DArray { data, buffer_size };
        assert forall|c: int, i: int| 0 <= c < CHANNELS && 0 <= i < BUFFER_SIZE implies #[trigger]
            r.sample(c, i) == default by {
            lemma_slot_in_bounds(CHANNELS as int, BUFFER_SIZE as int, c, i);
        }
        r
    }

    /// The sample at a position of a channel.
    pub fn get(&self, channel: usize, idx: usize) -> (r: T)
        requires
            self.wf(),
            channel < CHANNELS,
            idx < BUFFER_SIZE,
        ensures
            r == self.sample(channel as int, idx as int),
    {
        proof {
            lemma_slot_in_bounds(CHANNELS as int, BUFFER_SIZE as int, channel as int, idx as int);
        }
        self.data[channel * BUFFER_SIZE + idx]
    }

    /// Stores a sample at a position of a channel; every other sample stays.
    pub fn write(&mut self, channel: usize, idx: usize, sample: T)
        requires
            old(self).wf(),
            channel < CHANNELS,
            idx < BUFFER_SIZE,
        ensures
            final(self).wf(),
            final(self).block_len() == old(self).block_len(),
            final(self).sample(channel as int, idx as int) == sample,
            forall|c: int, i: int|
                0 <= c < CHANNELS && 0 <= i < BUFFER_SIZE && !(c == channel && i == idx)
                    ==> #[trigger] final(self).sample(c, i) == old(self).sample(c, i),
    {
        proof {
            lemma_slot_in_bounds(CHANNELS as int, BUFFER_SIZE as int, channel as int, idx as int);
        }
        let k: usize = channel * BUFFER_SIZE + idx;
        self.data.set(k, sample);
        assert forall|c: int, i: int|
            0 <= c < CHANNELS && 0 <= i < BUFFER_SIZE && !(c == channel && i
                == idx) implies #[trigger] self.sample(c, i) == old(self).sample(c, i) by {
            lemma_slot_in_bounds(CHANNELS as int, BUFFER_SIZE as int, c, i);
            if c * BUFFER_SIZE + i == k as int {
                lemma_slot_injective(BUFFER_SIZE as int, c, i, channel as int, idx as int);
            }
        }
    }

    /// The leading `block_len × CHANNELS` slots of the storage, in storage
    /// order: slot `c × BUFFER_SIZE + i` holds sample `i` of channel `c`.
    pub fn read(&self) -> (r: &[T])
        requires
            self.wf(),
        ensures
            r@.len() == self.block_len() * CHANNELS,
            forall|c: int, i: int|
                0 <= c < CHANNELS && 0 <= i < BUFFER_SIZE && c * BUFFER_SIZE + i < r@.len()
                    ==> r@[c * BUFFER_SIZE + i] == #[trigger] self.sample(c, i),
    {
        assert(self.buffer_size * CHANNELS <= CHANNELS * BUFFER_SIZE) by (nonlinear_arith)
            requires
                self.buffer_size <= BUFFER_SIZE,
        ;
        let n: usize = self.buffer_size * CHANNELS;
        let r = slice_subrange(self.data.as_slice(), 0, n);
        assert forall|c: int, i: int|
            0 <= c < CHANNELS && 0 <= i < BUFFER_SIZE && c * BUFFER_SIZE + i
                < r@.len() implies r@[c * BUFFER_SIZE + i] == #[trigger] self.sample(c, i) by {
            lemma_slot_in_bounds(CHANNELS as int, BUFFER_SIZE as int, c, i);
        }
        r
    }

    /// One whole channel.
    pub fn as_ref(&self, channel: usize) -> (r: &[T])
        requires
            self.wf(),
            channel < CHANNELS,
        ensures
            r@ == self.channel(channel as int),
    {
        proof {
            if BUFFER_SIZE > 0 {
                lemma_slot_in_bounds(CHANNELS as int, BUFFER_SIZE as int, channel as int, 0);
            } else {
                assert(channel * BUFFER_SIZE == 0) by (nonlinear_arith)
                    requires
                        BUFFER_SIZE == 0,
                ;
            }
        }
        let start: usize = channel * BUFFER_SIZE;
        let r = slice_subrange(self.data.as_slice(), start, start + BUFFER_SIZE);
        assert(r@ =~= self.channel(channel as int));
        r
    }

    /// Scatters interleaved frames into the block: sample `c` of frame `i`
    /// goes to position `i` of channel `c`.  Returns the number of frames.
    pub fn write_interleaved(&mut self, data: &[T], channels: usize) -> (frames: usize)
        requires
            old(self).wf(),
            0 < channels <= CHANNELS,
            (data@.len() as int) % (channels as int) == 0,
            (data@.len() as int) / (channels as int) <= BUFFER_SIZE,
        ensures
            final(self).wf(),
            final(self).block_len() == old(self).block_len(),
            frames == (data@.len() as int) / (channels as int),
            forall|c: int, i: int|
                0 <= c < channels && 0 <= i < frames ==> #[trigger] final(self).sample(c, i)
                    == data@[i * channels + c],
            final(self).same_outside(old(self), channels as int, frames as int),
    {
        let frames: usize = data.len() / channels;
        assert(data@.len() == frames * channels) by {
            vstd::arithmetic::div_mod::lemma_fundamental_div_mod(
                data@.len() as int,
                channels as int,
            );
            assert(channels * frames == frames * channels) by (nonlinear_arith);
        }
        let mut i: usize = 0;
        while i < frames
            invariant
                0 <= i <= frames,
                frames <= BUFFER_SIZE,
                0 < channels <= CHANNELS,
                data@.len() == frames * channels,
                data@.len() <= usize::MAX,
                self.wf(),
                self.block_len() == old(self).block_len(),
                forall|c: int, m: int|
                    0 <= c < channels && 0 <= m < i ==> #[trigger] self.sample(c, m)
                        == data@[m * channels + c],
                self.same_outside(old(self), channels as int, i as int),
            decreases frames - i,
        {
            let mut j: usize = 0;
            while j < channels
                invariant
                    0 <= i < frames,
                    0 <= j <= channels,
                    frames <= BUFFER_SIZE,
                    0 < channels <= CHANNELS,
                    data@.len() == frames * channels,
                    data@.len() <= usize::MAX,
                    self.wf(),
                    self.block_len() == old(self).block_len(),
                    forall|c: int, m: int|
                        0 <= c < channels && (0 <= m < i || (m == i && c < j))
                            ==> #[trigger] self.sample(c, m) == data@[m * channels + c],
                    forall|c: int, m: int|
                        0 <= c < CHANNELS && 0 <= m < BUFFER_SIZE && !(c < channels && (m < i
                            || (m == i && c < j))) ==> #[trigger] self.sample(c, m) == old(self).sample(c, m),
                decreases channels - j,
            {
                proof {
                    lemma_slot_in_bounds(frames as int, channels as int, i as int, j as int);
                }
                let v: T = data[i * channels + j];
                self.write(j, i, v);
                j = j + 1;
            }
            i = i + 1;
        }
        frames
    }

    /// Copies the leading `frames` samples of the leading `channels`
    /// channels from another block.
    pub fn copy_block_from(&mut self, src: &Self, channels: usize, frames: usize)
        requires
            old(self).wf(),
            src.wf(),
            channels <= CHANNELS,
            frames <= BUFFER_SIZE,
        ensures
            final(self).wf(),
            final(self).block_len() == old(self).block_len(),
            forall|c: int, i: int|
                0 <= c < channels && 0 <= i < frames ==> #[trigger] final(self).sample(c, i)
                    == src.sample(c, i),
            final(self).same_outside(old(self), channels as int, frames as int),
    {
        let mut i: usize = 0;
        while i < frames
            invariant
                0 <= i <= frames,
                frames <= BUFFER_SIZE,
                channels <= CHANNELS,
                self.wf(),
                src.wf(),
                self.block_len() == old(self).block_len(),
                forall|c: int, m: int|
                    0 <= c < channels && 0 <= m < i ==> #[trigger] self.sample(c, m)
                        == src.sample(c, m),
                self.same_outside(old(self), channels as int, i as int),
            decreases frames - i,
        {
            let mut j: usize = 0;
            while j < channels
                invariant
                    0 <= i < frames,
                    0 <= j <= channels,
                    frames <= BUFFER_SIZE,
                    channels <= CHANNELS,
                    self.wf(),
                    src.wf(),
                    self.block_len() == old(self).block_len(),
                    forall|c: int, m: int|
                        0 <= c < channels && (0 <= m < i || (m == i && c < j))
                            ==> #[trigger] self.sample(c, m) == src.sample(c, m),
                    forall|c: int, m: int|
                        0 <= c < CHANNELS && 0 <= m < BUFFER_SIZE && !(c < channels && (m < i
                            || (m == i && c < j))) ==> #[trigger] self.sample(c, m) == old(self).sample(c, m),
                decreases channels - j,
            {
                let v: T = src.get(j, i);
                self.write(j, i, v);
                j = j + 1;
            }
            i = i + 1;
        }
    }

    /// Sets the leading `frames` samples of the leading `channels` channels
    /// to `value`.
    pub fn fill_block(&mut self, value: T, channels: usize, frames: usize)
        requires
            old(self).wf(),
            channels <= CHANNELS,
            frames <= BUFFER_SIZE,
        ensures
            final(self).wf(),
            final(self).block_len() == old(self).block_len(),
            forall|c: int, i: int|
                0 <= c < channels && 0 <= i < frames ==> #[trigger] final(self).sample(c, i)
                    == value,
            final(self).same_outside(old(self), channels as int, frames as int),
    {
        let mut i: usize = 0;
        while i < frames
            invariant
                0 <= i <= frames,
                frames <= BUFFER_SIZE,
                channels <= CHANNELS,
                self.wf(),
                self.block_len() == old(self).block_len(),
                forall|c: int, m: int|
                    0 <= c < channels && 0 <= m < i ==> #[trigger] self.sample(c, m) == value,
                self.same_outside(old(self), channels as int, i as int),
            decreases frames - i,
        {
            let mut j: usize = 0;
            while j < channels
                invariant
                    0 <= i < frames,
                    0 <= j <= channels,
                    frames <= BUFFER_SIZE,
                    channels <= CHANNELS,
                    self.wf(),
                    self.block_len() == old(self).block_len(),
                    forall|c: int, m: int|
                        0 <= c < channels && (0 <= m < i || (m == i && c < j))
                            ==> #[trigger] self.sample(c, m) == value,
                    forall|c: int, m: int|
                        0 <= c < CHANNELS && 0 <= m < BUFFER_SIZE && !(c < channels && (m < i
                            || (m == i && c < j))) ==> #[trigger] self.sample(c, m) == old(self).sample(c, m),
                decreases channels - j,
            {
                self.write(j, i, value);
                j = j + 1;
            }
            i = i + 1;
        }
    }
}

/// Readies the two blocks for the plugin at position `index` of the chain:
/// every plugin but the first takes the previous plugin's output as its
/// input, and each starts from a silent output block.
pub fn prepare_plugin_pass<T: Copy, const CHANNELS: usize, const BUFFER_SIZE: usize>(
    index: usize,
    input: &mut Sync2DArray<T, CHANNELS, BUFFER_SIZE>,
    output: &mut Sync2DArray<T, CHANNELS, BUFFER_SIZE>,
    silence: T,
    channels: usize,
    frames: usize,
)
    requires
        old(input).wf(),
        old(output).wf(),
        channels <= CHANNELS,
        frames <= BUFFER_SIZE,
    ensures
        final(input).wf(),
        final(output).wf(),
        final(input).block_len() == old(input).block_len(),
        final(output).block_len() == old(output).block_len(),
        index == 0 ==> *final(input) == *old(input),
        index > 0 ==> final(input).same_outside(old(input), channels as int, frames as int),
        forall|c: int, i: int|
            index > 0 && 0 <= c < channels && 0 <= i < frames ==> #[trigger] final(input).sample(
                c,
                i,
            ) == old(output).sample(c, i),
        forall|c: int, i: int|
            0 <= c < channels && 0 <= i < frames ==> #[trigger] final(output).sample(c, i)
                == silence,
        final(output).same_outside(old(output), channels as int, frames as int),
{
    if index > 0 {
        input.copy_block_from(output, channels, frames);
    }
    output.fill_block(silence, channels, frames);
}

/// Settles the output block once every plugin has run: an empty chain
/// passes the input through, and any other chain leaves the last plugin's
/// output in place.
pub fn complete_chain<T: Copy, const CHANNELS: usize, const BUFFER_SIZE: usize>(
    plugin_count: usize,
    input: &Sync2DArray<T, CHANNELS, BUFFER_SIZE>,
    output: &mut Sync2DArray<T, CHANNELS, BUFFER_SIZE>,
    channels: usize,
    frames: usize,
)
    requires
        input.wf(),
        old(output).wf(),
        channels <= CHANNELS,
        frames <= BUFFER_SIZE,
    ensures
        final(output).wf(),
        final(output).block_len() == old(output).block_len(),
        plugin_count > 0 ==> *final(output) == *old(output),
        forall|c: int, i: int|
            plugin_count == 0 && 0 <= c < channels && 0 <= i < frames ==> #[trigger] final(output).sample(c, i) == input.sample(c, i),
        final(output).same_outside(old(output), channels as int, frames as int),
{
    if plugin_count == 0 {
        output.copy_block_from(input, channels, frames);
    }
}

} // verus!
