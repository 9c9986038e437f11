//! Samples, segment and part descriptions, and the segment arithmetic shared by
//! the video and audio tracks.

use std::collections::VecDeque;
use vstd::prelude::*;

verus! {

broadcast use vstd::std_specs::vecdeque::group_vec_dequeue_axioms;

/// How much media time (90 kHz ticks) a track keeps: one hour.
pub const ARCHIVE_LIMIT: u64 = 324_000_000;

/// Nominal segment duration in ticks; parts are offered for the newest three.
pub const SEG_DURATION_PTS: u64 = 172_800;

/// Number of video samples grouped into one part (a tuning constant).
pub const VIDEO_SAMPLES_PER_PART: usize = 8;

/// Number of audio frames grouped into one part.
pub const AUDIO_FRAMES_PER_PART: usize = 15;

/// Number of audio frames grouped into one segment.
pub const AAC_SAMPLES_PER_SEGMENT: usize = 90;

/// Duration of a complete audio segment in ticks (1.92 s).
pub const AAC_SEGMENT_DURATION: u64 = 172_800;

/// Duration of a complete part in ticks (0.32 s).
pub const PART_DURATION: u64 = 28_800;

/// The H.264 `nal_unit_type` of a coded slice of an IDR picture.
pub const NAL_UNIT_TYPE_IDR: u8 = 5;

/// Codec-specific metadata of a sample.
pub enum SampleHeader {
    /// An H.264 slice, with the first byte of its NAL unit (the NAL header).
    Avc(u8),
    /// One AAC access unit.
    Aac,
}

/// One coded unit of a track, with timestamps in 90 kHz ticks.
pub struct Sample {
    pub data: Vec<u8>,
    pub pts: i64,
    pub dts: i64,
    pub header: SampleHeader,
}

/// Errors of segment lookups.
#[derive(Debug, PartialEq, Eq, Structural)]
pub enum SegmentError {
    /// The named dts is not the start of a segment in the buffer.
    BadSampleTime(i64),
    /// The track has no segments (yet).
    NoSegments,
    /// The segment lies outside the window in which parts are offered.
    NoPartsForSegment,
}

/// The value published after every append: the newest segment's sequence
/// number and the index of its newest complete part.
#[derive(Default, Debug, Clone, Copy, PartialEq, Eq, Structural)]
pub struct TrackSequence {
    pub seg: u64,
    pub part: u16,
}

/// Description of one segment of a track.
#[derive(Debug, Clone, Copy, PartialEq, Eq, Structural)]
pub struct SegmentInfo {
    pub dts: i64,
    pub seq: u64,
    /// Duration in 90 kHz ticks; absent while the segment is still open.
    pub duration: Option<u64>,
    pub continuous: bool,
}

impl SegmentInfo {
    /// The segment's identifier: the dts of its first sample.
    pub fn id(&self) -> (r: i64)
        ensures
            r == self.dts,
    {
        self.dts
    }

    /// Duration in 90 kHz ticks, when the segment is complete.
    pub fn duration_ticks(&self) -> (r: Option<u64>)
        ensures
            r == self.duration,
    {
        self.duration
    }

    pub fn is_continuous(&self) -> (r: bool)
        ensures
            r == self.continuous,
    {
        self.continuous
    }

    pub fn sequence_number(&self) -> (r: u64)
        ensures
            r == self.seq,
    {
        self.seq
    }
}

/// Description of one part of a segment.
#[derive(Debug, Clone, Copy, PartialEq, Eq, Structural)]
pub struct PartInfo {
    pub part_id: u64,
    /// Duration in 90 kHz ticks.
    pub duration: Option<u64>,
    pub continuous: bool,
    pub independent: bool,
}

impl PartInfo {
    pub fn id(&self) -> (r: u64)
        ensures
            r == self.part_id,
    {
        self.part_id
    }

    /// Duration in 90 kHz ticks, when the part is complete.
    pub fn duration_ticks(&self) -> (r: Option<u64>)
        ensures
            r == self.duration,
    {
        self.duration
    }

    pub fn is_continuous(&self) -> (r: bool)
        ensures
            r == self.continuous,
    {
        self.continuous
    }

    pub fn is_independent(&self) -> (r: bool)
        ensures
            r == self.independent,
    {
        self.independent
    }
}

/// A sample is an IDR slice when its NAL header names that unit type.
pub open spec fn is_idr(s: Sample) -> bool {
    match s.header {
        SampleHeader::Avc(h) => h & 0x1f == NAL_UNIT_TYPE_IDR,
        SampleHeader::Aac => false,
    }
}

pub fn sample_is_idr(s: &Sample) -> (r: bool)
    ensures
        r == is_idr(*s),
{
    match s.header {
        SampleHeader::Avc(h) => h & 0x1f == NAL_UNIT_TYPE_IDR,
        SampleHeader::Aac => false,
    }
}

/// A segment starting at position `a` follows its predecessor without a
/// timing gap: the dts step into it is at most a nominal segment duration.
/// The first buffered segment is taken as continuous.
pub open spec fn continuous_at(s: Seq<Sample>, a: int) -> bool {
    a == 0 || s[a].dts - s[a - 1].dts <= SEG_DURATION_PTS
}

/// Whether the segment starting at position `a` follows without a timing gap.
pub fn is_continuous_at(samples: &VecDeque<Sample>, a: usize) -> (r: bool)
    requires
        a < samples@.len(),
    ensures
        r == continuous_at(samples@, a as int),
{
    if a == 0 {
        true
    } else {
        let x = &samples[a];
        let y = &samples[a - 1];
        x.dts as i128 - y.dts as i128 <= SEG_DURATION_PTS as i128
    }
}

/// Decode timestamps never go backwards.
pub open spec fn dts_ordered(s: Seq<Sample>) -> bool {
    forall|i: int, j: int| 0 <= i <= j < s.len() ==> s[i].dts <= s[j].dts
}

/// The dts span from the first to the last sample (zero under two samples).
pub open spec fn span(s: Seq<Sample>) -> int {
    if s.len() < 2 {
        0
    } else {
        s[s.len() - 1].dts - s[0].dts
    }
}

/// Where segment `k` ends: at the next segment's start, or at the end.
pub open spec fn seg_end(starts: Seq<int>, n: int, k: int) -> int {
    if k + 1 < starts.len() {
        starts[k + 1]
    } else {
        n
    }
}

/// Segment starts are increasing positions within the samples.
pub open spec fn starts_ok(starts: Seq<int>, n: int) -> bool {
    &&& forall|k: int| 0 <= k < starts.len() ==> 0 <= #[trigger] starts[k] < n
    &&& forall|k: int| 0 <= k < starts.len() - 1 ==> #[trigger] starts[k] < starts[k + 1]
}

/// Whether some sample in positions `[a, b)` is an IDR.
pub open spec fn group_has_idr(s: Seq<Sample>, a: int, b: int) -> bool {
    exists|j: int| a <= j < b && is_idr(#[trigger] s[j])
}

/// The complete parts of the segment occupying `[start, end)`, `per_part`
/// samples each; a trailing incomplete group is left out.
pub open spec fn part_list(s: Seq<Sample>, start: int, end: int, per_part: int, video: bool) -> Seq<
    PartInfo,
> {
    Seq::new(
        ((end - start) / per_part) as nat,
        |p: int|
            PartInfo {
                part_id: p as u64,
                duration: Some(PART_DURATION),
                continuous: true,
                independent: video && group_has_idr(
                    s,
                    start + p * per_part,
                    start + p * per_part + per_part,
                ),
            },
    )
}

/// `k` is the first segment whose start has the given dts.
pub open spec fn first_segment_at(s: Seq<Sample>, starts: Seq<int>, dts: i64, k: int) -> bool {
    &&& 0 <= k < starts.len()
    &&& s[starts[k]].dts == dts
    &&& forall|j: int| 0 <= j < k ==> s[#[trigger] starts[j]].dts != dts
}

/// No segment starts at the given dts.
pub open spec fn no_segment_at(s: Seq<Sample>, starts: Seq<int>, dts: i64) -> bool {
    forall|j: int| 0 <= j < starts.len() ==> s[#[trigger] starts[j]].dts != dts
}

pub proof fn lemma_first_segment_unique(s: Seq<Sample>, starts: Seq<int>, dts: i64, k1: int, k2: int)
    requires
        first_segment_at(s, starts, dts, k1),
        first_segment_at(s, starts, dts, k2),
    ensures
        k1 == k2,
{
    if k1 < k2 {
        assert(s[starts[k1]].dts != dts);
    } else if k2 < k1 {
        assert(s[starts[k2]].dts != dts);
    }
}

pub proof fn lemma_first_segment_exists(s: Seq<Sample>, starts: Seq<int>, dts: i64, k: int)
    requires
        0 <= k < starts.len(),
        s[starts[k]].dts == dts,
    ensures
        first_segment_at(s, starts, dts, first_k(s, starts, dts)),
    decreases k,
{
    if exists|j: int| 0 <= j < k && #[trigger] s[starts[j]].dts == dts {
        let j = choose|j: int| 0 <= j < k && #[trigger] s[starts[j]].dts == dts;
        lemma_first_segment_exists(s, starts, dts, j);
    } else {
        assert(first_segment_at(s, starts, dts, k));
    }
}

/// The first segment whose start has the given dts (meaningful when there is one).
pub open spec fn first_k(s: Seq<Sample>, starts: Seq<int>, dts: i64) -> int {
    choose|k: int| first_segment_at(s, starts, dts, k)
}

pub proof fn lemma_first_k(s: Seq<Sample>, starts: Seq<int>, dts: i64, k: int)
    requires
        first_segment_at(s, starts, dts, k),
    ensures
        first_k(s, starts, dts) == k,
{
    lemma_first_segment_unique(s, starts, dts, k, first_k(s, starts, dts));
}

/// The starts as mathematical integers.
pub open spec fn int_starts(starts: Seq<usize>) -> Seq<int> {
    starts.map_values(|x: usize| x as int)
}

/// Finds the first segment whose first sample has the given dts.
pub fn find_segment(samples: &VecDeque<Sample>, starts: &Vec<usize>, dts: i64) -> (r: Option<usize>)
    requires
        starts_ok(int_starts(starts@), samples@.len() as int),
    ensures
        r matches Some(k) ==> k < starts@.len(),
        match r {
            Some(k) => first_segment_at(samples@, int_starts(starts@), dts, k as int),
            None => no_segment_at(samples@, int_starts(starts@), dts),
        },
{
    let ghost is = int_starts(starts@);
    let mut k: usize = 0;
    while k < starts.len()
        invariant
            is == int_starts(starts@),
            starts_ok(is, samples@.len() as int),
            k <= starts.len(),
            forall|j: int| 0 <= j < k ==> samples@[#[trigger] is[j]].dts != dts,
            is.len() == starts@.len(),
        decreases starts.len() - k,
    {
        assert(is[k as int] == starts@[k as int] as int);
        assert(0 <= is[k as int] < samples@.len());
        let idx = starts[k];
        assert(idx < samples@.len());
        let sample = &samples[idx];
        if sample.dts == dts {
            return Some(k);
        }
        k = k + 1;
    }
    None
}

/// Lists the complete parts of the segment occupying `[start, end)`.
pub fn parts_in(samples: &VecDeque<Sample>, start: usize, end: usize, per_part: usize, video: bool) -> (r:
    Vec<PartInfo>)
    requires
        start <= end <= samples@.len(),
        per_part > 0,
    ensures
        r@ == part_list(samples@, start as int, end as int, per_part as int, video),
{
    let ghost s = samples@;
    let count = (end - start) / per_part;
    let mut r: Vec<PartInfo> = Vec::new();
    let mut p: usize = 0;
    while p < count
        invariant
            s == samples@,
            start <= end <= s.len(),
            per_part > 0,
            count == (end - start) / per_part as int,
            p <= count,
            r@.len() == p,
            forall|q: int|
                0 <= q < p ==> r@[q] == #[trigger] part_list(
                    s,
                    start as int,
                    end as int,
                    per_part as int,
                    video,
                )[q],
        decreases count - p,
    {
        assert(p * per_part + per_part <= end - start) by (nonlinear_arith)
            requires
                p < count,
                count == (end - start) / per_part as int,
                per_part > 0,
                start <= end,
        ;
        let a = start + p * per_part;
        let b = a + per_part;
        let mut idr = false;
        let mut j = a;
        while j < b
            invariant
                s == samples@,
                a <= j <= b <= s.len(),
                idr == (exists|i: int| a <= i < j && is_idr(#[trigger] s[i])),
            decreases b - j,
        {
            if sample_is_idr(&samples[j]) {
                idr = true;
            }
            j = j + 1;
        }
        r.push(
            PartInfo {
                part_id: p as u64,
                duration: Some(PART_DURATION),
                continuous: true,
                independent: video && idr,
            },
        );
        p = p + 1;
    }
    assert(r@ =~= part_list(s, start as int, end as int, per_part as int, video));
    r
}

/// The dts span of the buffered samples, as a wide integer.
pub fn span_of(samples: &VecDeque<Sample>) -> (r: i128)
    ensures
        r == span(samples@),
{
    let n = samples.len();
    if n < 2 {
        0
    } else {
        samples[n - 1].dts as i128 - samples[0].dts as i128
    }
}

} // verus!

verus! {

/// Number of parts counted up to part `pid` of the segment at `dts`, over
/// segments `k..` in order, stopping at the first segment that starts later.
pub open spec fn parts_upto(
    s: Seq<Sample>,
    starts: Seq<int>,
    per: int,
    dts: i64,
    pid: int,
    k: int,
) -> int
    decreases starts.len() - k,
{
    if k < 0 || k >= starts.len() || s[starts[k]].dts > dts {
        0
    } else {
        let np = (seg_end(starts, s.len() as int, k) - starts[k]) / per;
        (if s[starts[k]].dts == dts {
            if pid + 1 < np {
                pid + 1
            } else {
                np
            }
        } else {
            np
        }) + parts_upto(s, starts, per, dts, pid, k + 1)
    }
}

/// Counts the parts of the buffered segments up to and including part `pid`
/// of the segment at `dts`.
pub fn count_parts_upto(samples: &VecDeque<Sample>, starts: &Vec<usize>, per: usize, dts: i64, pid: u64) -> (r:
    u64)
    requires
        starts_ok(int_starts(starts@), samples@.len() as int),
        per > 0,
    ensures
        r == parts_upto(samples@, int_starts(starts@), per as int, dts, pid as int, 0),
        r <= samples@.len(),
{
    let ghost is = int_starts(starts@);
    let ghost s = samples@;
    let n = samples.len();
    let c = starts.len();
    assert(is.len() == c);
    let mut acc: u64 = 0;
    let mut k: usize = 0;
    let mut stop = false;
    while k < c && !stop
        invariant
            is == int_starts(starts@),
            s == samples@,
            n == s.len(),
            c == is.len(),
            starts_ok(is, n as int),
            per > 0,
            k <= c,
            acc <= (if k < c { is[k as int] } else { n as int }),
            stop ==> parts_upto(s, is, per as int, dts, pid as int, k as int) == 0,
            acc + parts_upto(s, is, per as int, dts, pid as int, k as int) == parts_upto(
                s,
                is,
                per as int,
                dts,
                pid as int,
                0,
            ),
        decreases c - k + (if stop { 0int } else { 1int }),
    {
        assert(is[k as int] == starts@[k as int] as int);
        let a = starts[k];
        let sa = &samples[a];
        if sa.dts > dts {
            stop = true;
        } else {
            let end = if k + 1 < c {
                assert(is[k + 1] == starts@[k + 1] as int);
                starts[k + 1]
            } else {
                n
            };
            let np = ((end - a) / per) as u64;
            assert((end - a) / per as int <= end - a) by (nonlinear_arith)
                requires
                    per > 0,
                    end >= a,
            ;
            let add = if sa.dts == dts {
                if pid < np {
                    pid + 1
                } else {
                    np
                }
            } else {
                np
            };
            acc = acc + add;
            k = k + 1;
        }
    }
    acc
}

/// Finds the first buffered sample with the given dts.
pub fn sample_at(samples: &VecDeque<Sample>, dts: i64) -> (r: Option<&Sample>)
    ensures
        match r {
            Some(x) => exists|i: int|
                0 <= i < samples@.len() && samples@[i] == *x && x.dts == dts && forall|j: int|
                    0 <= j < i ==> #[trigger] samples@[j].dts != dts,
            None => forall|j: int| 0 <= j < samples@.len() ==> #[trigger] samples@[j].dts != dts,
        },
{
    let n = samples.len();
    let mut i: usize = 0;
    while i < n
        invariant
            n == samples@.len(),
            i <= n,
            forall|j: int| 0 <= j < i ==> #[trigger] samples@[j].dts != dts,
        decreases n - i,
    {
        let x = &samples[i];
        if x.dts == dts {
            return Some(x);
        }
        i = i + 1;
    }
    None
}

} // verus!
