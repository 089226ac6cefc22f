//! Stream formats and the rule by which the engine chooses one of a device's
//! supported configuration ranges.

use vstd::prelude::*;

verus! {

/// Wire format of one sample.
#[derive(Clone, Copy, Debug, PartialEq, Eq, Hash, Structural)]
pub enum SampleFormat {
    I8,
    U8,
    I16,
    U16,
    I32,
    U32,
    F32,
}

/// Frames per second.
#[derive(Clone, Copy, Debug, PartialEq, Eq, Hash, Structural)]
pub struct SampleRate(pub u32);

/// The block sizes a device accepts.
#[derive(Clone, Copy, Debug, PartialEq, Eq, Hash, Structural)]
pub enum SupportedBufferSize {
    Range { min: u32, max: u32 },
    /// The device does not report a range; any size is assumed to work.
    Unknown,
}

/// The block size asked of a stream.
#[derive(Clone, Copy, Debug, PartialEq, Eq, Hash, Structural)]
pub enum BufferSize {
    Default,
    Fixed(u32),
}

/// A family of formats a device supports: one sample format and channel
/// count over a closed interval of sample rates.
#[derive(Clone, Copy, Debug, PartialEq, Eq, Hash, Structural)]
pub struct SupportedStreamConfigRange {
    pub channels: u16,
    pub min_sample_rate: SampleRate,
    pub max_sample_rate: SampleRate,
    pub buffer_size: SupportedBufferSize,
    pub sample_format: SampleFormat,
}

/// A supported range instantiated at one sample rate.
#[derive(Clone, Copy, Debug, PartialEq, Eq, Hash, Structural)]
pub struct SupportedStreamConfig {
    pub channels: u16,
    pub sample_rate: SampleRate,
    pub buffer_size: SupportedBufferSize,
    pub sample_format: SampleFormat,
}

/// The concrete format a stream is opened with.
#[derive(Clone, Copy, Debug, PartialEq, Eq, Hash, Structural)]
pub struct StreamConfig {
    pub channels: u16,
    pub sample_rate: SampleRate,
    pub buffer_size: BufferSize,
}

/// What the caller would like the chosen format to be; an absent field
/// leaves that property free.
#[derive(Clone, Copy, Debug, PartialEq, Eq, Hash, Structural)]
pub struct FormatPreferences {
    pub sample_rate: Option<u32>,
    pub buffer_size: Option<u32>,
    pub sample_format: Option<SampleFormat>,
    pub channels: Option<u16>,
}

/// The four criteria by which candidates are compared, most significant first.
pub struct FormatScore {
    pub rate: int,
    pub size: int,
    pub format: int,
    pub channels: int,
}

impl FormatPreferences {
    /// True when no property at all is asked for.
    pub open spec fn is_empty(self) -> bool {
        self.sample_rate is None && self.buffer_size is None && self.sample_format is None
            && self.channels is None
    }
}

/// Intrinsic rank of a format when nothing is preferred: float first, since
/// it is the plugins' native sample type.
pub open spec fn plain_rank(f: SampleFormat) -> int {
    match f {
        SampleFormat::F32 => 7,
        SampleFormat::I32 => 6,
        SampleFormat::U32 => 5,
        SampleFormat::I16 => 4,
        SampleFormat::U16 => 3,
        SampleFormat::I8 => 2,
        SampleFormat::U8 => 1,
    }
}

/// Intrinsic rank of a format when preferences are given: 32-bit integers
/// first, since many drivers report them as their native wire format.
pub open spec fn driver_rank(f: SampleFormat) -> int {
    match f {
        SampleFormat::I32 => 7,
        SampleFormat::F32 => 6,
        SampleFormat::U32 => 5,
        SampleFormat::I16 => 4,
        SampleFormat::U16 => 3,
        SampleFormat::I8 => 2,
        SampleFormat::U8 => 1,
    }
}

/// Whether a range contains the sample rate.
pub open spec fn rate_in_range(c: SupportedStreamConfigRange, rate: u32) -> bool {
    c.min_sample_rate.0 <= rate <= c.max_sample_rate.0
}

/// Whether a block size is acceptable; an unknown range accepts every size.
pub open spec fn size_in_range(b: SupportedBufferSize, size: u32) -> bool {
    match b {
        SupportedBufferSize::Range { min, max } => min <= size <= max,
        SupportedBufferSize::Unknown => true,
    }
}

/// The format criterion: the intrinsic rank, raised by 100 on an exact match
/// with the preferred format.
pub open spec fn format_score(f: SampleFormat, p: FormatPreferences) -> int {
    let base = if p.is_empty() { plain_rank(f) } else { driver_rank(f) };
    if p.sample_format == Some(f) { base + 100 } else { base }
}

/// The score of one candidate under the preferences.
pub open spec fn score_of(c: SupportedStreamConfigRange, p: FormatPreferences) -> FormatScore {
    FormatScore {
        rate: match p.sample_rate {
            Some(r) => if rate_in_range(c, r) { 1 } else { 0 },
            None => 1,
        },
        size: match p.buffer_size {
            Some(s) => if size_in_range(c.buffer_size, s) { 1 } else { 0 },
            None => 1,
        },
        format: format_score(c.sample_format, p),
        channels: match p.channels {
            Some(n) => if c.channels == n { 1 } else { 0 },
            None => 1,
        },
    }
}

/// Strict lexicographic order on scores: `a` is better than `b`.
pub open spec fn score_gt(a: FormatScore, b: FormatScore) -> bool {
    a.rate > b.rate || (a.rate == b.rate && (a.size > b.size || (a.size == b.size && (a.format
        > b.format || (a.format == b.format && a.channels > b.channels)))))
}

/// `a` is at least as good as `b`.
pub open spec fn score_ge(a: FormatScore, b: FormatScore) -> bool {
    score_gt(a, b) || a == b
}

/// Index of the chosen candidate among a non-empty list: the first one whose
/// score no other exceeds.  Of an empty list it is 0.
pub open spec fn best_index(configs: Seq<SupportedStreamConfigRange>, p: FormatPreferences) -> int
    decreases configs.len(),
{
    if configs.len() <= 1 {
        0
    } else {
        let b = best_index(configs.drop_last(), p);
        if score_gt(score_of(configs.last(), p), score_of(configs[b], p)) {
            configs.len() - 1
        } else {
            b
        }
    }
}

/// The rate at which a chosen range is instantiated: the preferred rate if
/// the range contains it, else the range's maximum.
pub open spec fn instantiated_rate(c: SupportedStreamConfigRange, rate: Option<u32>) -> u32 {
    match rate {
        Some(r) => if rate_in_range(c, r) { r } else { c.max_sample_rate.0 },
        None => c.max_sample_rate.0,
    }
}

/// A range instantiated for the preferences.
pub open spec fn instantiate(c: SupportedStreamConfigRange, rate: Option<u32>)
    -> SupportedStreamConfig {
    SupportedStreamConfig {
        channels: c.channels,
        sample_rate: SampleRate(instantiated_rate(c, rate)),
        buffer_size: c.buffer_size,
        sample_format: c.sample_format,
    }
}

/// The outcome of format selection: nothing of an empty list, else the best
/// candidate instantiated.
pub open spec fn picked(configs: Seq<SupportedStreamConfigRange>, p: FormatPreferences)
    -> Option<SupportedStreamConfig> {
    if configs.len() == 0 {
        None
    } else {
        Some(instantiate(configs[best_index(configs, p)], p.sample_rate))
    }
}

impl SupportedStreamConfigRange {
    pub fn new(
        channels: u16,
        min_sample_rate: SampleRate,
        max_sample_rate: SampleRate,
        buffer_size: SupportedBufferSize,
        sample_format: SampleFormat,
    ) -> (r: Self)
        ensures
            r == (SupportedStreamConfigRange {
                channels,
                min_sample_rate,
                max_sample_rate,
                buffer_size,
                sample_format,
            }),
    {
        SupportedStreamConfigRange {
            channels,
            min_sample_rate,
            max_sample_rate,
            buffer_size,
            sample_format,
        }
    }

    pub fn channels(&self) -> (r: u16)
        ensures
            r == self.channels,
    {
        self.channels
    }

    pub fn min_sample_rate(&self) -> (r: SampleRate)
        ensures
            r == self.min_sample_rate,
    {
        self.min_sample_rate
    }

    pub fn max_sample_rate(&self) -> (r: SampleRate)
        ensures
            r == self.max_sample_rate,
    {
        self.max_sample_rate
    }

    pub fn buffer_size(&self) -> (r: SupportedBufferSize)
        ensures
            r == self.buffer_size,
    {
        self.buffer_size
    }

    pub fn sample_format(&self) -> (r: SampleFormat)
        ensures
            r == self.sample_format,
    {
        self.sample_format
    }

    /// The range fixed at the given rate, if it contains the rate.
    pub fn try_with_sample_rate(self, sample_rate: SampleRate) -> (r: Option<
        SupportedStreamConfig,
    >)
        ensures
            r == if rate_in_range(self, sample_rate.0) {
                Some(instantiate(self, Some(sample_rate.0)))
            } else {
                None
            },
    {
        if self.min_sample_rate.0 <= sample_rate.0 && sample_rate.0 <= self.max_sample_rate.0 {
            Some(self.with_sample_rate(sample_rate))
        } else {
            None
        }
    }

    /// The range fixed at a rate that it contains.
    pub fn with_sample_rate(self, sample_rate: SampleRate) -> (r: SupportedStreamConfig)
        requires
            rate_in_range(self, sample_rate.0),
        ensures
            r == (SupportedStreamConfig {
                channels: self.channels,
                sample_rate,
                buffer_size: self.buffer_size,
                sample_format: self.sample_format,
            }),
    {
        SupportedStreamConfig {
            channels: self.channels,
            sample_rate,
            buffer_size: self.buffer_size,
            sample_format: self.sample_format,
        }
    }

    /// The range fixed at its highest rate.
    pub fn with_max_sample_rate(self) -> (r: SupportedStreamConfig)
        ensures
            r == instantiate(self, None),
    {
        SupportedStreamConfig {
            channels: self.channels,
            sample_rate: self.max_sample_rate,
            buffer_size: self.buffer_size,
            sample_format: self.sample_format,
        }
    }

    /// The score of this candidate, as four small numbers.
    fn score(&self, p: &FormatPreferences) -> (r: (u8, u8, u8, u8))
        ensures
            r.0 == score_of(*self, *p).rate,
            r.1 == score_of(*self, *p).size,
            r.2 == score_of(*self, *p).format,
            r.3 == score_of(*self, *p).channels,
    {
        let rate: u8 = match p.sample_rate {
            Some(r) => if self.min_sample_rate.0 <= r && r <= self.max_sample_rate.0 {
                1
            } else {
                0
            },
            None => 1,
        };
        let size: u8 = match p.buffer_size {
            Some(s) => match self.buffer_size {
                SupportedBufferSize::Range { min, max } => if min <= s && s <= max {
                    1
                } else {
                    0
                },
                SupportedBufferSize::Unknown => 1,
            },
            None => 1,
        };
        let none_given: bool = p.sample_rate.is_none() && p.buffer_size.is_none()
            && p.sample_format.is_none() && p.channels.is_none();
        let base: u8 = match self.sample_format {
            SampleFormat::F32 => if none_given { 7 } else { 6 },
            SampleFormat::I32 => if none_given { 6 } else { 7 },
            SampleFormat::U32 => 5,
            SampleFormat::I16 => 4,
            SampleFormat::U16 => 3,
            SampleFormat::I8 => 2,
            SampleFormat::U8 => 1,
        };
        let format: u8 = match p.sample_format {
            Some(f) => if f == self.sample_format { base + 100 } else { base },
            None => base,
        };
        let channels: u8 = match p.channels {
            Some(n) => if self.channels == n { 1 } else { 0 },
            None => 1,
        };
        (rate, size, format, channels)
    }
}

impl SupportedStreamConfig {
    pub fn channels(&self) -> (r: u16)
        ensures
            r == self.channels,
    {
        self.channels
    }

    pub fn sample_rate(&self) -> (r: SampleRate)
        ensures
            r == self.sample_rate,
    {
        self.sample_rate
    }

    pub fn buffer_size(&self) -> (r: SupportedBufferSize)
        ensures
            r == self.buffer_size,
    {
        self.buffer_size
    }

    pub fn sample_format(&self) -> (r: SampleFormat)
        ensures
            r == self.sample_format,
    {
        self.sample_format
    }

    /// The stream configuration for this format, with the device's default
    /// block size.
    pub fn config(&self) -> (r: StreamConfig)
        ensures
            r == self.spec_config(),
    {
        StreamConfig {
            channels: self.channels,
            sample_rate: self.sample_rate,
            buffer_size: BufferSize::Default,
        }
    }

    pub open spec fn spec_config(self) -> StreamConfig {
        StreamConfig {
            channels: self.channels,
            sample_rate: self.sample_rate,
            buffer_size: BufferSize::Default,
        }
    }
}

/// Executable form of `score_gt` on scores held as small numbers.
fn better(a: (u8, u8, u8, u8), b: (u8, u8, u8, u8)) -> (r: bool)
    ensures
        r == score_gt(
            FormatScore { rate: a.0 as int, size: a.1 as int, format: a.2 as int, channels: a.3 as int },
            FormatScore { rate: b.0 as int, size: b.1 as int, format: b.2 as int, channels: b.3 as int },
        ),
{
    a.0 > b.0 || (a.0 == b.0 && (a.1 > b.1 || (a.1 == b.1 && (a.2 > b.2 || (a.2 == b.2 && a.3
        > b.3)))))
}

/// Chooses the best of a device's supported ranges for the given preferences.
///
/// Candidates are compared by, in this order: whether they contain the
/// preferred sample rate, whether they accept the preferred block size, their
/// format score, and whether they have the preferred channel count.  Among
/// equally good candidates the earliest wins.  The winner is instantiated at
/// the preferred rate if it contains it, else at its maximum rate.
pub fn pick_best_format(
    configs: &Vec<SupportedStreamConfigRange>,
    preferred_sample_rate: Option<u32>,
    preferred_buffer_size: Option<u32>,
    preferred_sample_format: Option<SampleFormat>,
    preferred_channels: Option<u16>,
) -> (r: Option<SupportedStreamConfig>)
    ensures
        r == picked(
            configs@,
            FormatPreferences {
                sample_rate: preferred_sample_rate,
                buffer_size: preferred_buffer_size,
                sample_format: preferred_sample_format,
                channels: preferred_channels,
            },
        ),
{
    let p = FormatPreferences {
        sample_rate: preferred_sample_rate,
        buffer_size: preferred_buffer_size,
        sample_format: preferred_sample_format,
        channels: preferred_channels,
    };
    if configs.len() == 0 {
        return None;
    }
    let mut best: usize = 0;
    let mut best_score: (u8, u8, u8, u8) = configs[0].score(&p);
    let mut i: usize = 1;
    assert(configs@.subrange(0, 1).len() == 1);
    while i < configs.len()
        invariant
            1 <= i <= configs.len(),
            0 <= best < i,
            best == best_index(configs@.subrange(0, i as int), p),
            best_score.0 == score_of(configs@[best as int], p).rate,
            best_score.1 == score_of(configs@[best as int], p).size,
            best_score.2 == score_of(configs@[best as int], p).format,
            best_score.3 == score_of(configs@[best as int], p).channels,
        decreases configs.len() - i,
    {
        let s = configs[i].score(&p);
        proof {
            let next = configs@.subrange(0, i + 1);
            assert(next.drop_last() =~= configs@.subrange(0, i as int));
            assert(next.last() == configs@[i as int]);
            assert(next[best as int] == configs@[best as int]);
        }
        if better(s, best_score) {
            best = i;
            best_score = s;
        }
        i = i + 1;
    }
    assert(configs@.subrange(0, i as int) =~= configs@);
    let c = configs[best];
    match preferred_sample_rate {
        Some(r) => match c.try_with_sample_rate(SampleRate(r)) {
            Some(chosen) => Some(chosen),
            None => Some(c.with_max_sample_rate()),
        },
        None => Some(c.with_max_sample_rate()),
    }
}

/// The chosen index lies within a non-empty list.
pub proof fn lemma_best_index_in_bounds(
    configs: Seq<SupportedStreamConfigRange>,
    p: FormatPreferences,
)
    requires
        configs.len() > 0,
    ensures
        0 <= best_index(configs, p) < configs.len(),
    decreases configs.len(),
{
    if configs.len() > 1 {
        lemma_best_index_in_bounds(configs.drop_last(), p);
    }
}

/// The lexicographic order on scores is total: of two scores one is at least
/// as good as the other.
pub proof fn lemma_score_total(a: FormatScore, b: FormatScore)
    ensures
        score_gt(a, b) || score_ge(b, a),
        !(score_gt(a, b) && score_gt(b, a)),
{
}

/// Format selection is lexicographically optimal and stable: no candidate
/// scores higher than the chosen one, and every candidate before it scores
/// strictly lower.
pub proof fn lemma_best_index_is_first_maximum(
    configs: Seq<SupportedStreamConfigRange>,
    p: FormatPreferences,
    j: int,
)
    requires
        0 <= j < configs.len(),
    ensures
        score_ge(score_of(configs[best_index(configs, p)], p), score_of(configs[j], p)),
        j < best_index(configs, p) ==> score_gt(
            score_of(configs[best_index(configs, p)], p),
            score_of(configs[j], p),
        ),
    decreases configs.len(),
{
    if configs.len() > 1 {
        let front = configs.drop_last();
        lemma_best_index_in_bounds(front, p);
        let b = best_index(front, p);
        assert(front[b] == configs[b]);
        if j < configs.len() - 1 {
            lemma_best_index_is_first_maximum(front, p, j);
            assert(front[j] == configs[j]);
        }
    }
}

/// With no preferences the chosen candidate has the highest-ranked format of
/// the list under the order F32 > I32 > U32 > I16 > U16 > I8 > U8, and is the
/// first candidate of that format.
pub proof fn lemma_no_preference_ranking(configs: Seq<SupportedStreamConfigRange>, j: int)
    requires
        0 <= j < configs.len(),
    ensures
        ({
            let none = FormatPreferences {
                sample_rate: None,
                buffer_size: None,
                sample_format: None,
                channels: None,
            };
            let b = best_index(configs, none);
            &&& plain_rank(configs[b].sample_format) >= plain_rank(configs[j].sample_format)
            &&& j < b ==> plain_rank(configs[b].sample_format) > plain_rank(
                configs[j].sample_format,
            )
            &&& picked(configs, none) == Some(configs[b].with_max_rate())
        }),
{
    let none = FormatPreferences {
        sample_rate: None,
        buffer_size: None,
        sample_format: None,
        channels: None,
    };
    lemma_best_index_is_first_maximum(configs, none, j);
}

/// The ranking without preferences is strict: distinct formats have distinct
/// ranks, with F32 above I32 above U32 above I16 above U16 above I8 above U8.
pub proof fn lemma_plain_rank_strict(a: SampleFormat, b: SampleFormat)
    ensures
        plain_rank(a) == plain_rank(b) <==> a == b,
        plain_rank(SampleFormat::F32) > plain_rank(SampleFormat::I32) > plain_rank(
            SampleFormat::U32,
        ) > plain_rank(SampleFormat::I16) > plain_rank(SampleFormat::U16) > plain_rank(
            SampleFormat::I8,
        ) > plain_rank(SampleFormat::U8),
{
}

/// Of an empty candidate list nothing is chosen, and of a non-empty one
/// something always is.
pub proof fn lemma_picked_none_iff_empty(
    configs: Seq<SupportedStreamConfigRange>,
    p: FormatPreferences,
)
    ensures
        picked(configs, p) is None <==> configs.len() == 0,
{
}

impl SupportedStreamConfigRange {
    /// Spec form of `with_max_sample_rate`.
    pub open spec fn with_max_rate(self) -> SupportedStreamConfig {
        instantiate(self, None)
    }
}

/// A configuration range as a device reports it.  The sample format is
/// absent where the device names one that the engine does not handle.
#[derive(Clone, Copy, Debug, PartialEq, Eq, Hash, Structural)]
pub struct ReportedRange {
    pub channels: u16,
    pub min_sample_rate: SampleRate,
    pub max_sample_rate: SampleRate,
    pub buffer_size: SupportedBufferSize,
    pub sample_format: Option<SampleFormat>,
}

impl ReportedRange {
    /// The range as a candidate for selection, if its format is handled.
    pub open spec fn spec_usable(self) -> Option<SupportedStreamConfigRange> {
        match self.sample_format {
            Some(f) => Some(
                SupportedStreamConfigRange {
                    channels: self.channels,
                    min_sample_rate: self.min_sample_rate,
                    max_sample_rate: self.max_sample_rate,
                    buffer_size: self.buffer_size,
                    sample_format: f,
                },
            ),
            None => None,
        }
    }

    /// The range as a candidate for selection, if its format is handled.
    pub fn usable(&self) -> (r: Option<SupportedStreamConfigRange>)
        ensures
            r == self.spec_usable(),
    {
        match self.sample_format {
            Some(f) => Some(
                SupportedStreamConfigRange {
                    channels: self.channels,
                    min_sample_rate: self.min_sample_rate,
                    max_sample_rate: self.max_sample_rate,
                    buffer_size: self.buffer_size,
                    sample_format: f,
                },
            ),
            None => None,
        }
    }
}

/// The candidates among reported ranges: those of a handled format, in the
/// order reported.
pub open spec fn usable(reported: Seq<ReportedRange>) -> Seq<SupportedStreamConfigRange>
    decreases reported.len(),
{
    if reported.len() == 0 {
        Seq::empty()
    } else {
        match reported.last().spec_usable() {
            Some(c) => usable(reported.drop_last()).push(c),
            None => usable(reported.drop_last()),
        }
    }
}

/// Leaves out the reported ranges whose format the engine does not handle;
/// they are never candidates for selection.
pub fn usable_ranges(reported: &Vec<ReportedRange>) -> (r: Vec<SupportedStreamConfigRange>)
    ensures
        r@ == usable(reported@),
{
    let mut out: Vec<SupportedStreamConfigRange> = Vec::new();
    let mut i: usize = 0;
    assert(reported@.subrange(0, 0) =~= Seq::<ReportedRange>::empty());
    while i < reported.len()
        invariant
            0 <= i <= reported.len(),
            out@ == usable(reported@.subrange(0, i as int)),
        decreases reported.len() - i,
    {
        proof {
            let next = reported@.subrange(0, i + 1);
            assert(next.drop_last() =~= reported@.subrange(0, i as int));
            assert(next.last() == reported@[i as int]);
        }
        match reported[i].usable() {
            Some(c) => {
                out.push(c);
            },
            None => {},
        }
        i = i + 1;
    }
    assert(reported@.subrange(0, i as int) =~= reported@);
    out
}

/// Every candidate stems from a reported range of a handled format.
pub proof fn lemma_usable_keeps_handled(reported: Seq<ReportedRange>, k: int)
    requires
        0 <= k < usable(reported).len(),
    ensures
        exists|j: int|
            0 <= j < reported.len() && (#[trigger] reported[j]).spec_usable() == Some(
                usable(reported)[k],
            ),
    decreases reported.len(),
{
    if reported.len() > 0 {
        let front = reported.drop_last();
        if k < usable(front).len() {
            lemma_usable_keeps_handled(front, k);
            let j = choose|j: int|
                0 <= j < front.len() && (#[trigger] front[j]).spec_usable() == Some(
                    usable(front)[k],
                );
            assert(reported[j] == front[j]);
        } else {
            assert(reported[reported.len() - 1].spec_usable() == Some(usable(reported)[k]));
        }
    }
}

} // verus!
