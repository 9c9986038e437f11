//! Planning of fMP4 media fragments (`moof` + `mdat`) from buffered samples.

use std::collections::VecDeque;
use vstd::prelude::*;
use crate::model::Sample;
use crate::timestamp::WRAP;

verus! {

broadcast use vstd::std_specs::vecdeque::group_vec_dequeue_axioms;

/// Placeholder duration (ticks) for a video sample whose neighbour is out of scope.
pub const VIDEO_PLACEHOLDER_DURATION: u32 = 3600;

/// Duration (ticks) given to every audio frame.
pub const AUDIO_FRAME_DURATION: u32 = 1920;

/// Default sample duration declared in an audio track fragment header
/// (samples per AAC frame).
pub const AAC_SAMPLES_IN_FRAME: u32 = 1024;

/// Sample flags of ISO/IEC 14496-12, 8.8.3.1.
#[derive(Debug, Clone, Copy, PartialEq, Eq, Structural)]
pub struct FragmentFlags {
    pub is_leading: u8,
    pub sample_depends_on: u8,
    pub sample_is_depended_on: u8,
    pub sample_has_redundancy: u8,
    pub sample_padding_value: u8,
    pub sample_is_non_sync_sample: bool,
    pub sample_degradation_priority: u16,
}

/// One row of the track run.
#[derive(Debug, Clone, Copy, PartialEq, Eq, Structural)]
pub struct FragmentSample {
    pub duration: Option<u32>,
    pub size: u32,
    pub composition_time_offset: i32,
}

/// Everything a media fragment holds, before box encoding.
pub struct FragmentPlan {
    pub sequence_number: u32,
    pub base_media_decode_time: u32,
    pub video: bool,
    pub default_sample_duration: Option<u32>,
    pub default_sample_flags: Option<FragmentFlags>,
    pub first_sample_flags: Option<FragmentFlags>,
    pub samples: Vec<FragmentSample>,
    pub data: Vec<u8>,
}

/// Flags for a sample that is not a sync sample and depends on others.
/// The sum of the durations of a run, when every row has one.
pub open spec fn run_duration(rows: Seq<FragmentSample>) -> Option<int>
    decreases rows.len(),
{
    if rows.len() == 0 {
        Some(0)
    } else {
        match (run_duration(rows.drop_last()), rows.last().duration) {
            (Some(t), Some(d)) => Some(t + d),
            _ => None,
        }
    }
}

impl FragmentPlan {
    /// The total duration of the run; none when a row has no duration or
    /// the total exceeds `u32`.
    pub fn duration(&self) -> (r: Option<u32>)
        ensures
            match run_duration(self.samples@) {
                Some(t) => if t <= u32::MAX { r == Some(t as u32) } else { r is None },
                None => r is None,
            },
    {
        let mut total: u64 = 0;
        let mut i: usize = 0;
        while i < self.samples.len()
            invariant
                i <= self.samples@.len(),
                run_duration(self.samples@.take(i as int)) == Some(total as int),
                total <= u32::MAX,
            decreases self.samples@.len() - i,
        {
            proof {
                assert(self.samples@.take(i + 1).drop_last() =~= self.samples@.take(i as int));
                assert(self.samples@.take(i + 1).last() == self.samples@[i as int]);
            }
            match self.samples[i].duration {
                Some(d) => {
                    if total + d as u64 > u32::MAX as u64 {
                        proof {
                            lemma_run_duration_grows(self.samples@, i + 1);
                        }
                        return None;
                    }
                    total = total + d as u64;
                },
                None => {
                    proof {
                        lemma_run_duration_none(self.samples@, i + 1);
                    }
                    return None;
                },
            }
            i = i + 1;
        }
        assert(self.samples@.take(self.samples@.len() as int) =~= self.samples@);
        Some(total as u32)
    }

    /// The composition offset of the first row, or zero.
    pub fn start_time(&self) -> (r: i32)
        ensures
            r == if self.samples@.len() > 0 { self.samples@[0].composition_time_offset } else { 0 },
    {
        if self.samples.len() > 0 {
            self.samples[0].composition_time_offset
        } else {
            0
        }
    }
}

proof fn lemma_run_duration_grows(rows: Seq<FragmentSample>, i: int)
    requires
        0 <= i <= rows.len(),
        run_duration(rows.take(i)) matches Some(t) && t > u32::MAX,
    ensures
        run_duration(rows) matches Some(t) ==> t > u32::MAX,
    decreases rows.len() - i,
{
    if i < rows.len() {
        assert(rows.take(i + 1).drop_last() =~= rows.take(i));
        assert(rows.take(i + 1).last() == rows[i]);
        if rows[i].duration is Some {
            lemma_run_duration_grows(rows, i + 1);
        } else {
            lemma_run_duration_none(rows, i + 1);
        }
    } else {
        assert(rows.take(i) =~= rows);
    }
}

proof fn lemma_run_duration_none(rows: Seq<FragmentSample>, i: int)
    requires
        0 <= i <= rows.len(),
        run_duration(rows.take(i)) is None,
    ensures
        run_duration(rows) is None,
    decreases rows.len() - i,
{
    if i < rows.len() {
        assert(rows.take(i + 1).drop_last() =~= rows.take(i));
        lemma_run_duration_none(rows, i + 1);
    } else {
        assert(rows.take(i) =~= rows);
    }
}

pub open spec fn non_sync_flags() -> FragmentFlags {
    FragmentFlags {
        is_leading: 0,
        sample_depends_on: 1,
        sample_is_depended_on: 0,
        sample_has_redundancy: 0,
        sample_padding_value: 0,
        sample_is_non_sync_sample: true,
        sample_degradation_priority: 0,
    }
}

/// Flags for a sync sample that depends on no other.
pub open spec fn sync_flags() -> FragmentFlags {
    FragmentFlags {
        is_leading: 0,
        sample_depends_on: 2,
        sample_is_depended_on: 0,
        sample_has_redundancy: 0,
        sample_padding_value: 0,
        sample_is_non_sync_sample: false,
        sample_degradation_priority: 0,
    }
}

/// Big-endian encoding of a 32-bit value.
pub open spec fn be32(x: u32) -> Seq<u8> {
    seq![
        (x / 0x100_0000) as u8,
        ((x / 0x1_0000) % 0x100) as u8,
        ((x / 0x100) % 0x100) as u8,
        (x % 0x100) as u8,
    ]
}

/// What `mdat` holds for one sample: video slices get a 4-byte length prefix.
pub open spec fn sample_bytes(s: Sample, video: bool) -> Seq<u8> {
    if video {
        be32(s.data@.len() as u32) + s.data@
    } else {
        s.data@
    }
}

/// The `mdat` payload for a run of samples.
pub open spec fn payload(s: Seq<Sample>, video: bool) -> Seq<u8>
    decreases s.len(),
{
    if s.len() == 0 {
        Seq::empty()
    } else {
        payload(s.drop_last(), video) + sample_bytes(s.last(), video)
    }
}

/// Presentation time of sample `i` relative to the first sample, where a pts
/// below the first one is taken to have wrapped.
pub open spec fn pts_key(s: Seq<Sample>, i: int) -> int {
    if s[i].pts < s[0].pts {
        s[i].pts + WRAP - s[0].pts
    } else {
        s[i].pts - s[0].pts
    }
}

/// Presentation order: by relative pts, then by decode position.
pub open spec fn pts_before(s: Seq<Sample>, i: int, j: int) -> bool {
    pts_key(s, i) < pts_key(s, j) || (pts_key(s, i) == pts_key(s, j) && i < j)
}

/// `j` is the sample that follows `i` in presentation order.
pub open spec fn is_successor(s: Seq<Sample>, i: int, j: int) -> bool {
    &&& 0 <= j < s.len()
    &&& pts_before(s, i, j)
    &&& forall|m: int| 0 <= m < s.len() && #[trigger] pts_before(s, i, m) ==> !pts_before(s, m, j)
}

/// Duration of video sample `i`: the gap to its successor in presentation
/// order; the placeholder for the first sample and for the last one in
/// presentation order.
pub open spec fn video_duration(s: Seq<Sample>, i: int) -> u32 {
    if i == 0 {
        VIDEO_PLACEHOLDER_DURATION
    } else if exists|j: int| is_successor(s, i, j) {
        let j = choose|j: int| is_successor(s, i, j);
        (pts_key(s, j) - pts_key(s, i)) as u32
    } else {
        VIDEO_PLACEHOLDER_DURATION
    }
}

/// The track-run row of sample `i`.
pub open spec fn fragment_sample(s: Seq<Sample>, i: int, video: bool) -> FragmentSample {
    FragmentSample {
        duration: Some(if video { video_duration(s, i) } else { AUDIO_FRAME_DURATION }),
        size: sample_bytes(s[i], video).len() as u32,
        composition_time_offset: (s[i].pts - s[i].dts) as i32,
    }
}

/// The decode time declared for a run: the first sample's pts, low 32 bits.
pub open spec fn base_decode_time(s: Seq<Sample>) -> u32 {
    if s.len() > 0 {
        (s[0].pts as int % 0x1_0000_0000) as u32
    } else {
        0
    }
}

/// A plan describes the run `s` with the given fragment sequence number.
pub open spec fn plan_matches(p: FragmentPlan, s: Seq<Sample>, video: bool, sequence_number: u32) -> bool {
    &&& p.sequence_number == sequence_number
    &&& p.base_media_decode_time == base_decode_time(s)
    &&& p.video == video
    &&& p.default_sample_duration == if video { None } else { Some(AAC_SAMPLES_IN_FRAME) }
    &&& p.default_sample_flags == if video { Some(non_sync_flags()) } else { None::<FragmentFlags> }
    &&& p.first_sample_flags == if video { Some(sync_flags()) } else { None::<FragmentFlags> }
    &&& p.samples@ == Seq::new(s.len(), |i: int| fragment_sample(s, i, video))
    &&& p.data@ == payload(s, video)
}

pub proof fn lemma_successor_unique(s: Seq<Sample>, i: int, j1: int, j2: int)
    requires
        is_successor(s, i, j1),
        is_successor(s, i, j2),
    ensures
        j1 == j2,
{
    assert(!pts_before(s, j1, j2));
    assert(!pts_before(s, j2, j1));
}

fn sample_flags(sync: bool) -> (r: FragmentFlags)
    ensures
        r == if sync { sync_flags() } else { non_sync_flags() },
{
    FragmentFlags {
        is_leading: 0,
        sample_depends_on: if sync { 2 } else { 1 },
        sample_is_depended_on: 0,
        sample_has_redundancy: 0,
        sample_padding_value: 0,
        sample_is_non_sync_sample: !sync,
        sample_degradation_priority: 0,
    }
}

/// Appends the big-endian bytes of `x`.
pub fn push_be32(out: &mut Vec<u8>, x: u32)
    ensures
        final(out)@ == old(out)@ + be32(x),
{
    out.push((x / 0x100_0000) as u8);
    out.push(((x / 0x1_0000) % 0x100) as u8);
    out.push(((x / 0x100) % 0x100) as u8);
    out.push((x % 0x100) as u8);
    assert(out@ =~= old(out)@ + be32(x));
}

fn key_of(samples: &VecDeque<Sample>, a: usize, i: usize) -> (r: i128)
    requires
        a <= i < samples@.len(),
    ensures
        r == pts_key(samples@.subrange(a as int, samples@.len() as int), i - a),
{
    let p0 = samples[a].pts as i128;
    let p = samples[i].pts as i128;
    if p < p0 {
        p + WRAP as i128 - p0
    } else {
        p - p0
    }
}

/// Plans the fragment carrying samples `[a, b)` of a track.
pub fn plan_fragment(samples: &VecDeque<Sample>, a: usize, b: usize, video: bool, sequence_number: u32) -> (r:
    FragmentPlan)
    requires
        a <= b <= samples@.len(),
    ensures
        plan_matches(r, samples@.subrange(a as int, b as int), video, sequence_number),
{
    let ghost s = samples@.subrange(a as int, b as int);
    let ghost full = samples@.subrange(a as int, samples@.len() as int);
    let n = b - a;
    let mut rows: Vec<FragmentSample> = Vec::new();
    let mut data: Vec<u8> = Vec::new();
    let mut i: usize = 0;
    while i < n
        invariant
            s == samples@.subrange(a as int, b as int),
            full == samples@.subrange(a as int, samples@.len() as int),
            n == b - a,
            a <= b <= samples@.len(),
            i <= n,
            rows@.len() == i,
            forall|k: int| 0 <= k < i ==> rows@[k] == #[trigger] fragment_sample(s, k, video),
            data@ == payload(s.take(i as int), video),
        decreases n - i,
    {
        let x = &samples[a + i];
        assert(*x == s[i as int]);
        let before = data.len();
        if video {
            push_be32(&mut data, x.data.len() as u32);
        }
        data.extend_from_slice(x.data.as_slice());
        let size = (data.len() - before) as u32;
        proof {
            assert(s.take(i + 1).drop_last() =~= s.take(i as int));
            assert(s.take(i + 1).last() == s[i as int]);
            assert(data@ =~= payload(s.take(i + 1), video));
        }
        let duration = if !video {
            AUDIO_FRAME_DURATION
        } else if i == 0 {
            VIDEO_PLACEHOLDER_DURATION
        } else {
            // the successor of sample i in presentation order
            let ki = key_of(samples, a, a + i);
            let mut best: Option<usize> = None;
            let mut j: usize = 0;
            while j < n
                invariant
                    s == samples@.subrange(a as int, b as int),
                    full == samples@.subrange(a as int, samples@.len() as int),
                    n == b - a,
                    a <= b <= samples@.len(),
                    0 < i < n,
                    j <= n,
                    ki == pts_key(s, i as int),
                    match best {
                        Some(m) => m < j && pts_before(s, i as int, m as int) && forall|q: int|
                            0 <= q < j && #[trigger] pts_before(s, i as int, q) ==> !pts_before(
                                s,
                                q,
                                m as int,
                            ),
                        None => forall|q: int| 0 <= q < j ==> !#[trigger] pts_before(s, i as int, q),
                    },
                decreases n - j,
            {
                proof {
                    assert forall|q: int| 0 <= q < n implies pts_key(s, q) == pts_key(full, q) by {}
                }
                let kj = key_of(samples, a, a + j);
                if kj > ki || (kj == ki && j > i) {
                    match best {
                        Some(m) => {
                            let km = key_of(samples, a, a + m);
                            if kj < km {
                                best = Some(j);
                            }
                        },
                        None => {
                            best = Some(j);
                        },
                    }
                }
                j = j + 1;
            }
            match best {
                Some(m) => {
                    let km = key_of(samples, a, a + m);
                    proof {
                        assert forall|q: int| 0 <= q < n implies pts_key(s, q) == pts_key(full, q) by {}
                        assert(is_successor(s, i as int, m as int));
                        let c = choose|c: int| is_successor(s, i as int, c);
                        lemma_successor_unique(s, i as int, c, m as int);
                    }
                    (km - ki) as u32
                },
                None => VIDEO_PLACEHOLDER_DURATION,
            }
        };
        let cto = (x.pts as i128 - x.dts as i128) as i32;
        proof {
            assert(size == sample_bytes(s[i as int], video).len() as u32);
        }
        rows.push(FragmentSample { duration: Some(duration), size, composition_time_offset: cto });
        i = i + 1;
    }
    assert(s.take(n as int) =~= s);
    assert(rows@ =~= Seq::new(s.len(), |k: int| fragment_sample(s, k, video)));
    let base = if n > 0 {
        let x = &samples[a];
        let p = x.pts as i128 + 0x1_0000_0000_0000_0000;
        assert(p % 0x1_0000_0000 == x.pts as int % 0x1_0000_0000) by (nonlinear_arith)
            requires
                p == x.pts as int + 0x1_0000_0000_0000_0000,
        ;
        (p % 0x1_0000_0000) as u32
    } else {
        0
    };
    FragmentPlan {
        sequence_number,
        base_media_decode_time: base,
        video,
        default_sample_duration: if video { None } else { Some(AAC_SAMPLES_IN_FRAME) },
        default_sample_flags: if video { Some(sample_flags(false)) } else { None },
        first_sample_flags: if video { Some(sample_flags(true)) } else { None },
        samples: rows,
        data,
    }
}

} // verus!
