//! The AAC track: a ring of audio frames grouped into fixed-size segments.

use std::collections::VecDeque;
use vstd::prelude::*;
use crate::model::{
    ARCHIVE_LIMIT, SEG_DURATION_PTS, AUDIO_FRAMES_PER_PART, AAC_SAMPLES_PER_SEGMENT,
    AAC_SEGMENT_DURATION, Sample, SegmentError, TrackSequence, SegmentInfo, PartInfo, dts_ordered,
    span, seg_end, starts_ok, part_list, first_segment_at, no_segment_at, int_starts, find_segment,
    parts_in, span_of, parts_upto, count_parts_upto, sample_at, first_k, lemma_first_k, continuous_at, is_continuous_at,
};

verus! {

broadcast use vstd::std_specs::vecdeque::group_vec_dequeue_axioms;

/// Number of (possibly incomplete) audio segments over `n` frames.
pub open spec fn aac_segment_count(n: int) -> int {
    (n + AAC_SAMPLES_PER_SEGMENT - 1) / AAC_SAMPLES_PER_SEGMENT as int
}

/// Segment starts of an audio track: every 90th frame.
pub open spec fn aac_starts(n: int) -> Seq<int> {
    Seq::new(aac_segment_count(n) as nat, |k: int| k * AAC_SAMPLES_PER_SEGMENT)
}

pub proof fn lemma_aac_starts(n: int)
    requires
        n >= 0,
    ensures
        starts_ok(aac_starts(n), n),
        aac_starts(n).len() <= n,
        forall|k: int| 0 <= k < aac_starts(n).len() ==> #[trigger] seg_end(aac_starts(n), n, k) == if k
            * 90 + 90 <= n {
            k * 90 + 90
        } else {
            n
        },
{
    assert forall|k: int| 0 <= k < aac_starts(n).len() implies 0 <= #[trigger] aac_starts(n)[k] < n by {
        assert(k * 90 < n) by (nonlinear_arith)
            requires
                0 <= k < (n + 89) / 90,
        ;
    }
    assert forall|k: int| 0 <= k < aac_starts(n).len() implies #[trigger] seg_end(aac_starts(n), n, k)
        == if k * 90 + 90 <= n {
        k * 90 + 90
    } else {
        n
    } by {
        if k + 1 < aac_starts(n).len() {
            assert((k + 1) * 90 < n) by (nonlinear_arith)
                requires
                    0 <= k + 1 < (n + 89) / 90,
            ;
        } else {
            assert(n <= k * 90 + 90) by (nonlinear_arith)
                requires
                    k + 1 >= (n + 89) / 90,
                    n >= 0,
            ;
        }
    }
    assert((n + 89) / 90 <= n || n == 0) by (nonlinear_arith)
        requires
            n >= 0,
    ;
}

/// Computes the segment starts of an audio track of `n` frames.
pub fn aac_positions(n: usize) -> (r: Vec<usize>)
    ensures
        int_starts(r@) == aac_starts(n as int),
{
    let count = n / AAC_SAMPLES_PER_SEGMENT + if n % AAC_SAMPLES_PER_SEGMENT == 0 {
        0
    } else {
        1
    };
    assert(count == (n + 89) / 90) by (nonlinear_arith)
        requires
            count == n / 90 + if n % 90 == 0 { 0int } else { 1int },
            n >= 0,
    ;
    let mut r: Vec<usize> = Vec::new();
    let mut k: usize = 0;
    while k < count
        invariant
            count == (n + 89) / 90,
            k <= count,
            k == r@.len(),
            forall|j: int| 0 <= j < k ==> r@[j] == j * 90,
        decreases count - k,
    {
        assert(k * 90 < n) by (nonlinear_arith)
            requires
                0 <= k < (n + 89) / 90,
        ;
        r.push(k * AAC_SAMPLES_PER_SEGMENT);
        k = k + 1;
    }
    assert(int_starts(r@) =~= aac_starts(n as int));
    r
}

/// Removing the first `e` segments (90 frames each) is the fewest whole
/// segments, never the newest, whose removal brings the span within the limit.
pub open spec fn aac_eviction(s: Seq<Sample>, e: int) -> bool {
    &&& 0 <= e
    &&& 90 * e <= s.len()
    &&& (span(s.skip(90 * e)) <= ARCHIVE_LIMIT || s.len() - 90 * e <= 90)
    &&& forall|e2: int|
        0 <= e2 < e ==> span(s.skip(#[trigger] (90 * e2))) > ARCHIVE_LIMIT && s.len() - 90 * e2 > 90
}

/// Channels of an MPEG-4 channel configuration: 1 to 6 as numbered, 7 for
/// eight channels; none for configurations signalled in-band or reserved.
pub open spec fn channel_count(config: u8) -> Option<u32> {
    if 1 <= config <= 6 {
        Some(config as u32)
    } else if config == 7 {
        Some(8)
    } else {
        None
    }
}

/// The segment description of audio segment `k`.
pub open spec fn aac_segment(s: Seq<Sample>, first: u64, k: int) -> SegmentInfo {
    SegmentInfo {
        dts: s[k * 90].dts,
        seq: (first + k) as u64,
        duration: if k * 90 + 90 <= s.len() {
            Some(AAC_SEGMENT_DURATION)
        } else {
            None
        },
        continuous: continuous_at(s, k * 90),
    }
}

/// An audio track.
pub struct AacTrack {
    pub samples: VecDeque<Sample>,
    pub audio_object_type: u8,
    pub frequency_index: u8,
    pub channel_config: u8,
    pub max_bitrate: Option<u32>,
    /// Number of segments evicted before the head of the buffer.
    pub first_seg_num: u64,
    /// Number of complete parts of the segments evicted before the head.
    pub first_part_num: u64,
    /// The samples evicted so far, oldest first.
    pub evicted: Ghost<Seq<Sample>>,
}

impl AacTrack {
    /// Every sample ever appended, oldest first.
    pub open spec fn history(&self) -> Seq<Sample> {
        self.evicted@ + self.samples@
    }

    pub open spec fn starts(&self) -> Seq<int> {
        aac_starts(self.samples@.len() as int)
    }

    pub open spec fn segment_count(&self) -> int {
        aac_segment_count(self.samples@.len() as int)
    }

    pub open spec fn spec_segments(&self) -> Seq<SegmentInfo> {
        Seq::new(
            self.segment_count() as nat,
            |k: int| aac_segment(self.samples@, self.first_seg_num, k),
        )
    }

    pub open spec fn seg_start(&self, k: int) -> int {
        self.starts()[k]
    }

    pub open spec fn seg_end(&self, k: int) -> int {
        seg_end(self.starts(), self.samples@.len() as int, k)
    }

    /// The complete parts of segment `k`.
    pub open spec fn spec_parts(&self, k: int) -> Seq<PartInfo> {
        part_list(
            self.samples@,
            self.seg_start(k),
            self.seg_end(k),
            AUDIO_FRAMES_PER_PART as int,
            false,
        )
    }

    pub open spec fn spec_msn(&self) -> int {
        self.first_seg_num + self.segment_count()
    }

    /// The newest segment's number and the index of its newest complete part
    /// (0 while it has none), once there is a segment.
    pub open spec fn spec_sequence(&self) -> Option<TrackSequence> {
        let c = self.segment_count();
        let np = self.spec_parts(c - 1).len();
        if c == 0 {
            None
        } else {
            Some(
                TrackSequence {
                    seg: (self.first_seg_num + c - 1) as u64,
                    part: if np == 0 { 0 } else { (np - 1) as u16 },
                },
            )
        }
    }

    /// `self` is `old` after `push(sample)`: the history grows by the sample,
    /// the fewest whole 90-frame leading segments that bring the span within
    /// the limit are evicted and counted, and the configuration stays.
    pub open spec fn is_push_of(&self, old: AacTrack, sample: Sample) -> bool {
        &&& self.wf()
        &&& self.history() == old.history().push(sample)
        &&& exists|e: int|
            aac_eviction(old.samples@.push(sample), e) && self.samples@ == old.samples@.push(sample).skip(90 * e)
                && self.first_seg_num == old.first_seg_num + e && self.first_part_num == old.first_part_num + 6
                * e && self.evicted@ == old.evicted@
                + old.samples@.push(sample).take(90 * e)
        &&& self.audio_object_type == old.audio_object_type
        &&& self.frequency_index == old.frequency_index
        &&& self.channel_config == old.channel_config
        &&& self.max_bitrate == old.max_bitrate
    }

    /// Every invariant but the bound on the buffered duration.
    pub open spec fn inv(&self) -> bool {
        &&& dts_ordered(self.samples@)
        &&& self.first_seg_num + self.samples@.len() < u64::MAX
        &&& self.first_part_num + self.samples@.len() < u64::MAX
        &&& self.first_seg_num * 90 == self.evicted@.len()
    }

    /// The buffered span is within the archive limit, unless the buffer holds
    /// no more than its newest segment (which is never evicted).
    pub open spec fn wf(&self) -> bool {
        &&& self.inv()
        &&& (span(self.samples@) <= ARCHIVE_LIMIT || self.samples@.len() <= 90)
    }

    /// A frame can be appended when its dts does not go backwards and the
    /// segment counter cannot overflow.
    pub open spec fn spec_accepts(&self, s: Sample) -> bool {
        &&& (self.samples@.len() > 0 ==> self.samples@.last().dts <= s.dts)
        &&& self.first_seg_num + self.samples@.len() + 1 < u64::MAX
        &&& self.first_part_num + self.samples@.len() + 1 < u64::MAX
    }

    pub fn new(audio_object_type: u8, frequency_index: u8, channel_config: u8, max_bitrate: Option<u32>) -> (r:
        AacTrack)
        ensures
            r.wf(),
            r.samples@.len() == 0,
            r.history().len() == 0,
            r.first_seg_num == 0,
            r.first_part_num == 0,
            r.audio_object_type == audio_object_type,
            r.frequency_index == frequency_index,
            r.channel_config == channel_config,
            r.max_bitrate == max_bitrate,
    {
        AacTrack {
            samples: VecDeque::new(),
            audio_object_type,
            frequency_index,
            channel_config,
            max_bitrate,
            first_seg_num: 0,
            first_part_num: 0,
            evicted: Ghost(Seq::empty()),
        }
    }

    pub fn accepts(&self, sample: &Sample) -> (r: bool)
        requires
            self.wf(),
        ensures
            r == self.spec_accepts(*sample),
    {
        let n = self.samples.len();
        if self.first_seg_num >= u64::MAX - 1 - n as u64 || self.first_part_num >= u64::MAX - 1 - n as u64 {
            return false;
        }
        if n > 0 {
            let last = &self.samples[n - 1];
            last.dts <= sample.dts
        } else {
            true
        }
    }

    /// Appends a frame, evicts whole leading segments while the buffered
    /// duration exceeds the archive limit, and returns the value to publish to
    /// waiting readers.
    pub fn push(&mut self, sample: Sample) -> (r: Option<TrackSequence>)
        requires
            old(self).wf(),
            old(self).spec_accepts(sample),
        ensures
            final(self).wf(),
            final(self).history() == old(self).history().push(sample),
            exists|e: int|
                aac_eviction(old(self).samples@.push(sample), e) && final(self).samples@ == old(
                    self,
                ).samples@.push(sample).skip(90 * e) && final(self).first_seg_num == old(self).first_seg_num
                    + e && final(self).evicted@ == old(self).evicted@ + old(self).samples@.push(sample).take(
                    90 * e,
                ),
            final(self).audio_object_type == old(self).audio_object_type,
            final(self).frequency_index == old(self).frequency_index,
            final(self).channel_config == old(self).channel_config,
            final(self).max_bitrate == old(self).max_bitrate,
            final(self).is_push_of(*old(self), sample),
            r == final(self).spec_sequence(),
    {
        let ghost old_hist = self.history();
        let ghost s0 = self.samples@;
        let ghost f0 = self.first_seg_num;
        self.samples.push_back(sample);
        proof {
            assert(self.history() =~= old_hist.push(sample));
            assert(dts_ordered(self.samples@)) by {
                assert forall|i: int, j: int| 0 <= i <= j < self.samples@.len() implies
                    self.samples@[i].dts <= self.samples@[j].dts by {
                    if j == s0.len() && i < j {
                        assert(s0[i].dts <= s0.last().dts);
                    }
                }
            }
        }
        let ghost old_ev = self.evicted@;
        let mut over = span_of(&self.samples) > ARCHIVE_LIMIT as i128 && self.samples.len() > 90;
        let ghost mut e: int = 0;
        proof {
            assert(self.samples@ =~= s0.push(sample).skip(0));
            assert(self.evicted@ =~= old_ev + s0.push(sample).take(0));
        }
        while over
            invariant
                self.inv(),
                over == (span(self.samples@) > ARCHIVE_LIMIT && self.samples@.len() > 90),
                self.history() == old_hist.push(sample),
                0 <= e,
                90 * e <= s0.len() + 1,
                self.samples@ == s0.push(sample).skip(90 * e),
                self.first_seg_num == f0 + e,
                self.first_part_num == old(self).first_part_num + 6 * e,
                self.evicted@ == old_ev + s0.push(sample).take(90 * e),
                forall|e2: int|
                    0 <= e2 < e ==> span(s0.push(sample).skip(#[trigger] (90 * e2))) > ARCHIVE_LIMIT
                        && s0.len() + 1 - 90 * e2 > 90,
                self.audio_object_type == old(self).audio_object_type,
                self.frequency_index == old(self).frequency_index,
                self.channel_config == old(self).channel_config,
                self.max_bitrate == old(self).max_bitrate,
            decreases self.samples@.len(),
        {
            self.remove_one_segment();
            proof {
                let s2 = s0.push(sample);
                assert(self.samples@ =~= s2.skip(90 * (e + 1)));
                assert(self.evicted@ =~= old_ev + s2.take(90 * (e + 1)));
                e = e + 1;
            }
            over = span_of(&self.samples) > ARCHIVE_LIMIT as i128 && self.samples.len() > 90;
        }
        proof {
            assert(aac_eviction(s0.push(sample), e));
        }
        self.current_sequence()
    }

    /// Removes the oldest segment: the 90 frames at the head.
    fn remove_one_segment(&mut self)
        requires
            old(self).inv(),
            old(self).samples@.len() > 90,
        ensures
            final(self).inv(),
            final(self).samples@ == old(self).samples@.skip(90),
            final(self).evicted@ == old(self).evicted@ + old(self).samples@.take(90),
            final(self).first_seg_num == old(self).first_seg_num + 1,
            final(self).first_part_num == old(self).first_part_num + 6,
            final(self).history() == old(self).history(),
            final(self).audio_object_type == old(self).audio_object_type,
            final(self).frequency_index == old(self).frequency_index,
            final(self).channel_config == old(self).channel_config,
            final(self).max_bitrate == old(self).max_bitrate,
    {
        let ghost s0 = self.samples@;
        let ghost ev0 = self.evicted@;
        let ghost h0 = self.history();
        let mut i: usize = 0;
        while i < AAC_SAMPLES_PER_SEGMENT
            invariant
                i <= 90,
                90 < s0.len(),
                self.samples@ == s0.skip(i as int),
                self.evicted@ == ev0 + s0.take(i as int),
                self.history() == h0,
                dts_ordered(s0),
                self.first_seg_num + s0.len() < u64::MAX,
                self.first_seg_num == old(self).first_seg_num,
                self.first_part_num == old(self).first_part_num,
                self.first_part_num + s0.len() < u64::MAX,
                self.first_seg_num * 90 == ev0.len(),
                self.audio_object_type == old(self).audio_object_type,
                self.frequency_index == old(self).frequency_index,
                self.channel_config == old(self).channel_config,
                self.max_bitrate == old(self).max_bitrate,
            decreases 90 - i,
        {
            let x = self.samples.pop_front().unwrap();
            proof {
                assert(self.samples@ =~= s0.skip(i + 1));
                self.evicted = Ghost(self.evicted@.push(x));
                assert(self.evicted@ =~= ev0 + s0.take(i + 1));
                assert(self.history() =~= h0);
            }
            i = i + 1;
        }
        self.first_seg_num = self.first_seg_num + 1;
        self.first_part_num = self.first_part_num + 6;
        proof {
            assert(dts_ordered(self.samples@)) by {
                assert forall|a: int, b: int| 0 <= a <= b < self.samples@.len() implies
                    self.samples@[a].dts <= self.samples@[b].dts by {
                    assert(self.samples@[a] == s0[a + 90]);
                    assert(self.samples@[b] == s0[b + 90]);
                }
            }
        }
    }

    /// The segments present in the buffer, oldest first.
    pub fn segments(&self) -> (r: Vec<SegmentInfo>)
        requires
            self.wf(),
        ensures
            r@ == self.spec_segments(),
    {
        let n = self.samples.len();
        let starts = aac_positions(n);
        proof {
            lemma_aac_starts(n as int);
        }
        let c = starts.len();
        assert(int_starts(starts@).len() == starts@.len());
        let mut r: Vec<SegmentInfo> = Vec::new();
        let mut k: usize = 0;
        while k < c
            invariant
                self.wf(),
                n == self.samples@.len(),
                int_starts(starts@) == aac_starts(n as int),
                starts_ok(aac_starts(n as int), n as int),
                c == starts@.len(),
                c <= n,
                k <= c,
                r@.len() == k,
                forall|j: int| 0 <= j < k ==> r@[j] == #[trigger] self.spec_segments()[j],
            decreases c - k,
        {
            let ghost is = aac_starts(n as int);
            assert(is[k as int] == starts@[k as int] as int);
            let a = starts[k];
            let sa = &self.samples[a];
            let duration = if n - a >= 90 {
                Some(AAC_SEGMENT_DURATION)
            } else {
                None
            };
            r.push(
                SegmentInfo {
                    dts: sa.dts,
                    seq: self.first_seg_num + k as u64,
                    duration,
                    continuous: is_continuous_at(&self.samples, a),
                },
            );
            k = k + 1;
        }
        assert(r@ =~= self.spec_segments());
        r
    }

    /// The number of the newest segment plus one: segments evicted and present.
    pub fn media_sequence_number(&self) -> (r: u64)
        requires
            self.wf(),
        ensures
            r == self.spec_msn(),
    {
        let n = self.samples.len();
        let starts = aac_positions(n);
        proof {
            lemma_aac_starts(n as int);
        }
        assert(int_starts(starts@).len() == starts@.len());
        self.first_seg_num + starts.len() as u64
    }

    /// The positions `[start, end)` of the first segment whose first frame has the given dts.
    pub fn segment_bounds(&self, dts: i64) -> (r: Result<(usize, usize), SegmentError>)
        requires
            self.wf(),
        ensures
            r matches Ok((a, b)) ==> a <= b <= self.samples@.len(),
            match r {
                Ok((a, b)) => exists|k: int|
                    first_segment_at(self.samples@, self.starts(), dts, k) && a == self.seg_start(k)
                        && b == self.seg_end(k),
                Err(e) => e == SegmentError::BadSampleTime(dts) && no_segment_at(
                    self.samples@,
                    self.starts(),
                    dts,
                ),
            },
    {
        let n = self.samples.len();
        let starts = aac_positions(n);
        proof {
            lemma_aac_starts(n as int);
        }
        match find_segment(&self.samples, &starts, dts) {
            Some(k) => {
                let ghost is = self.starts();
                assert(int_starts(starts@).len() == starts@.len());
                assert(first_segment_at(self.samples@, self.starts(), dts, k as int));
                assert(is[k as int] == starts@[k as int] as int);
                let a = starts[k];
                let b = if n - a >= 90 {
                    a + 90
                } else {
                    n
                };
                assert(a == self.seg_start(k as int));
                assert(b == self.seg_end(k as int));
                Ok((a, b))
            },
            None => Err(SegmentError::BadSampleTime(dts)),
        }
    }

    /// The frames of the segment beginning at `dts`.
    pub fn segment_samples(&self, dts: i64) -> (r: Result<Vec<&Sample>, SegmentError>)
        requires
            self.wf(),
        ensures
            match r {
                Ok(v) => exists|k: int|
                    first_segment_at(self.samples@, self.starts(), dts, k) && v@.len() == self.seg_end(
                        k,
                    ) - self.seg_start(k) && forall|i: int|
                        0 <= i < v@.len() ==> *v@[i] == self.samples@[self.seg_start(k) + i],
                Err(e) => e == SegmentError::BadSampleTime(dts) && no_segment_at(
                    self.samples@,
                    self.starts(),
                    dts,
                ),
            },
    {
        let (a, b) = self.segment_bounds(dts)?;
        let mut v: Vec<&Sample> = Vec::new();
        let mut i = a;
        while i < b
            invariant
                a <= i <= b <= self.samples@.len(),
                v@.len() == i - a,
                forall|j: int| 0 <= j < v@.len() ==> *v@[j] == self.samples@[a + j],
            decreases b - i,
        {
            v.push(&self.samples[i]);
            i = i + 1;
        }
        Ok(v)
    }

    /// The complete parts of the segment beginning at `dts`.
    pub fn parts(&self, dts: i64) -> (r: Result<Vec<PartInfo>, SegmentError>)
        requires
            self.wf(),
        ensures
            match r {
                Ok(v) => exists|k: int|
                    first_segment_at(self.samples@, self.starts(), dts, k) && v@ == self.spec_parts(k),
                Err(e) => e == SegmentError::BadSampleTime(dts) && no_segment_at(
                    self.samples@,
                    self.starts(),
                    dts,
                ),
            },
    {
        let (a, b) = self.segment_bounds(dts)?;
        let v = parts_in(&self.samples, a, b, AUDIO_FRAMES_PER_PART, false);
        proof {
            let k = choose|k: int|
                first_segment_at(self.samples@, self.starts(), dts, k) && a == self.seg_start(k) && b
                    == self.seg_end(k);
            assert(v@ == self.spec_parts(k));
        }
        Ok(v)
    }

    /// The value to publish to waiting readers for the current buffer.
    pub fn current_sequence(&self) -> (r: Option<TrackSequence>)
        requires
            self.wf(),
        ensures
            r == self.spec_sequence(),
    {
        let n = self.samples.len();
        let starts = aac_positions(n);
        proof {
            lemma_aac_starts(n as int);
        }
        assert(int_starts(starts@).len() == starts@.len());
        let c = starts.len();
        if c == 0 {
            return None;
        }
        let ghost is = self.starts();
        assert(is[c - 1] == starts@[c - 1] as int);
        let a = starts[c - 1];
        let np = (n - a) / AUDIO_FRAMES_PER_PART;
        let part: u16 = if np == 0 {
            0
        } else {
            (np - 1) as u16
        };
        Some(TrackSequence { seg: self.first_seg_num + (c - 1) as u64, part })
    }

    /// The stable sequence number of the segment beginning at `dts`.
    pub fn segment_number_for(&self, dts: i64) -> (r: Option<u64>)
        requires
            self.wf(),
        ensures
            match r {
                Some(n) => first_segment_at(self.samples@, self.starts(), dts, first_k(self.samples@, self.starts(), dts))
                    && n == self.first_seg_num + first_k(self.samples@, self.starts(), dts),
                None => no_segment_at(self.samples@, self.starts(), dts),
            },
    {
        let starts = aac_positions(self.samples.len());
        proof {
            lemma_aac_starts(self.samples@.len() as int);
        }
        match find_segment(&self.samples, &starts, dts) {
            Some(k) => {
                assert(int_starts(starts@).len() == starts@.len());
                assert(first_segment_at(self.samples@, self.starts(), dts, k as int));
                proof {
                    lemma_first_k(self.samples@, self.starts(), dts, k as int);
                }
                Some(self.first_seg_num + k as u64)
            },
            None => None,
        }
    }

    /// The stable number of part `part_id` of the segment at `dts`: the parts
    /// of evicted segments, then the buffered parts up to and including it.
    pub fn part_number_for(&self, dts: i64, part_id: u64) -> (r: Option<u64>)
        requires
            self.wf(),
        ensures
            r == Some(
                (self.first_part_num + parts_upto(
                    self.samples@,
                    self.starts(),
                    AUDIO_FRAMES_PER_PART as int,
                    dts,
                    part_id as int,
                    0,
                )) as u64,
            ),
    {
        let starts = aac_positions(self.samples.len());
        proof {
            lemma_aac_starts(self.samples@.len() as int);
        }
        Some(self.first_part_num + count_parts_upto(&self.samples, &starts, AUDIO_FRAMES_PER_PART, dts, part_id))
    }

    /// The first buffered sample with the given dts.
    pub fn sample(&self, dts: i64) -> (r: Option<&Sample>)
        ensures
            match r {
                Some(x) => exists|i: int|
                    0 <= i < self.samples@.len() && self.samples@[i] == *x && x.dts == dts && forall|j: int|
                        0 <= j < i ==> #[trigger] self.samples@[j].dts != dts,
                None => forall|j: int| 0 <= j < self.samples@.len() ==> #[trigger] self.samples@[j].dts != dts,
            },
    {
        sample_at(&self.samples, dts)
    }

    /// The buffered samples, oldest first.
    pub fn samples(&self) -> (r: &VecDeque<Sample>)
        ensures
            r@ == self.samples@,
    {
        &self.samples
    }

    /// The declared maximum bitrate, if any.
    pub fn bandwidth(&self) -> (r: Option<u32>)
        ensures
            r == self.max_bitrate,
    {
        self.max_bitrate
    }

    /// The target duration advertised for segments, in whole seconds.
    pub fn max_chunk_duration(&self) -> (r: u32)
        ensures
            r == 2,
    {
        2
    }

    /// The channel count of the channel configuration, when it names one.
    pub fn channels(&self) -> (r: Option<u32>)
        ensures
            r == channel_count(self.channel_config),
    {
        if self.channel_config >= 1 && self.channel_config <= 6 {
            Some(self.channel_config as u32)
        } else if self.channel_config == 7 {
            Some(8)
        } else {
            None
        }
    }

    /// The MPEG-4 audio object type.
    pub fn profile(&self) -> (r: u8)
        ensures
            r == self.audio_object_type,
    {
        self.audio_object_type
    }

    /// The sampling frequency index.
    pub fn frequency(&self) -> (r: u8)
        ensures
            r == self.frequency_index,
    {
        self.frequency_index
    }

    /// The channel configuration.
    pub fn channel_config(&self) -> (r: u8)
        ensures
            r == self.channel_config,
    {
        self.channel_config
    }

    /// The dts of the newest frame.
    pub fn latest_dts(&self) -> (r: Result<i64, SegmentError>)
        ensures
            match r {
                Ok(d) => self.samples@.len() > 0 && d == self.samples@.last().dts,
                Err(e) => self.samples@.len() == 0 && e == SegmentError::NoSegments,
            },
    {
        let n = self.samples.len();
        if n == 0 {
            return Err(SegmentError::NoSegments);
        }
        let latest = &self.samples[n - 1];
        Ok(latest.dts)
    }

    /// Whether the segment at `dts` is recent enough (within three segment
    /// durations of the newest frame) to offer parts.
    pub fn has_parts(&self, dts: i64) -> (r: bool)
        ensures
            r == (self.samples@.len() > 0 && dts as int >= self.samples@.last().dts as int - 3
                * SEG_DURATION_PTS),
    {
        let n = self.samples.len();
        if n == 0 {
            return false;
        }
        let latest = &self.samples[n - 1];
        dts as i128 >= latest.dts as i128 - 3 * SEG_DURATION_PTS as i128
    }
}

} // verus!
