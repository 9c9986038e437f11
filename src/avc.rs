//! The H.264 track: a ring of slices whose segments begin at IDR pictures.

use std::collections::VecDeque;
use vstd::prelude::*;
use crate::model::{
    ARCHIVE_LIMIT, SEG_DURATION_PTS, VIDEO_SAMPLES_PER_PART, Sample, SegmentError,
    TrackSequence, SegmentInfo, PartInfo, is_idr, sample_is_idr, dts_ordered, span, seg_end,
    starts_ok, part_list, first_segment_at, no_segment_at, int_starts, find_segment, parts_in,
    span_of, parts_upto, count_parts_upto, sample_at, first_k, lemma_first_k, continuous_at, is_continuous_at,
};
use crate::sps::{SpsInfo, spec_dimensions, spec_codec};

verus! {

broadcast use vstd::std_specs::vecdeque::group_vec_dequeue_axioms;

/// Positions of the IDR samples, in order.
pub open spec fn idr_indices(s: Seq<Sample>) -> Seq<int>
    decreases s.len(),
{
    if s.len() == 0 {
        Seq::empty()
    } else {
        let prev = idr_indices(s.drop_last());
        if is_idr(s.last()) {
            prev.push(s.len() - 1)
        } else {
            prev
        }
    }
}

/// Number of IDR samples, which is the number of segments they begin.
pub open spec fn idr_count(s: Seq<Sample>) -> nat {
    idr_indices(s).len()
}

pub proof fn lemma_idr_indices(s: Seq<Sample>)
    ensures
        starts_ok(idr_indices(s), s.len() as int),
        forall|k: int| 0 <= k < idr_indices(s).len() ==> is_idr(s[#[trigger] idr_indices(s)[k]]),
        idr_indices(s).len() <= s.len(),
    decreases s.len(),
{
    if s.len() > 0 {
        let p = s.drop_last();
        lemma_idr_indices(p);
        assert forall|k: int| 0 <= k < idr_indices(p).len() implies #[trigger] s[idr_indices(p)[k]]
            == p[idr_indices(p)[k]] by {}
    }
}

/// Every IDR position is a segment start, and starts strictly increase.
pub proof fn lemma_idr_indices_complete(s: Seq<Sample>)
    ensures
        forall|j: int| 0 <= j < s.len() && is_idr(#[trigger] s[j]) ==> exists|k: int|
            0 <= k < idr_indices(s).len() && idr_indices(s)[k] == j,
        forall|a: int, b: int|
            0 <= a < b < idr_indices(s).len() ==> #[trigger] idr_indices(s)[a] < #[trigger] idr_indices(s)[b],
    decreases s.len(),
{
    if s.len() > 0 {
        let p = s.drop_last();
        lemma_idr_indices_complete(p);
        lemma_idr_indices(p);
        let ip = idr_indices(p);
        assert forall|j: int| 0 <= j < s.len() && is_idr(#[trigger] s[j]) implies exists|k: int|
            0 <= k < idr_indices(s).len() && idr_indices(s)[k] == j by {
            if j < s.len() - 1 {
                assert(p[j] == s[j]);
                let k = choose|k: int| 0 <= k < ip.len() && ip[k] == j;
                assert(idr_indices(s)[k] == j);
            } else {
                assert(idr_indices(s)[ip.len() as int] == j);
            }
        }
    }
}

pub proof fn lemma_idr_count_append(a: Seq<Sample>, b: Seq<Sample>)
    ensures
        idr_count(a + b) == idr_count(a) + idr_count(b),
    decreases b.len(),
{
    if b.len() > 0 {
        assert((a + b).drop_last() =~= a + b.drop_last());
        assert((a + b).last() == b.last());
        lemma_idr_count_append(a, b.drop_last());
    } else {
        assert(a + b =~= a);
    }
}

pub proof fn lemma_idr_count_single(x: Sample)
    ensures
        idr_count(seq![x]) == if is_idr(x) { 1nat } else { 0nat },
{
    assert(seq![x].drop_last() =~= Seq::<Sample>::empty());
    assert(seq![x].last() == x);
    assert(idr_indices(Seq::<Sample>::empty()).len() == 0);
}

/// Computes the positions of the IDR samples.
pub fn idr_positions(samples: &VecDeque<Sample>) -> (r: Vec<usize>)
    ensures
        int_starts(r@) == idr_indices(samples@),
{
    let ghost s = samples@;
    let n = samples.len();
    let mut r: Vec<usize> = Vec::new();
    let mut i: usize = 0;
    while i < n
        invariant
            s == samples@,
            n == s.len(),
            i <= n,
            int_starts(r@) == idr_indices(s.take(i as int)),
        decreases n - i,
    {
        assert(s.take(i + 1).drop_last() =~= s.take(i as int));
        assert(s.take(i + 1).last() == s[i as int]);
        if sample_is_idr(&samples[i]) {
            r.push(i);
            assert(int_starts(r@) =~= idr_indices(s.take(i as int)).push(i as int));
        }
        i = i + 1;
    }
    assert(s.take(n as int) =~= s);
    r
}

/// The segment description of segment `k`, given the samples, their segment
/// starts and the number of the first segment in the buffer.
pub open spec fn avc_segment(s: Seq<Sample>, first: u64, k: int) -> SegmentInfo {
    let st = idr_indices(s);
    SegmentInfo {
        dts: s[st[k]].dts,
        seq: (first + k) as u64,
        duration: if k + 1 < st.len() {
            Some((s[st[k + 1]].dts - s[st[k]].dts) as u64)
        } else {
            None
        },
        continuous: continuous_at(s, st[k]),
    }
}

/// Where eviction may cut the buffer: at its start or at a later IDR.
pub open spec fn cut_point(s: Seq<Sample>, k: int) -> bool {
    k == 0 || (0 < k < s.len() && is_idr(s[k]))
}

/// The buffer holds at most one segment: no IDR after its first sample.
pub open spec fn single_segment(s: Seq<Sample>) -> bool {
    forall|j: int| 0 < j < s.len() ==> !is_idr(#[trigger] s[j])
}

/// Removing the first `k` samples is the fewest whole leading segments, never
/// the newest, whose removal brings the buffered span within the archive limit.
pub open spec fn eviction_point(s: Seq<Sample>, k: int) -> bool {
    &&& 0 <= k < s.len()
    &&& cut_point(s, k)
    &&& (span(s.skip(k)) <= ARCHIVE_LIMIT || single_segment(s.skip(k)))
    &&& forall|j: int|
        0 <= j < k && #[trigger] cut_point(s, j) ==> span(s.skip(j)) > ARCHIVE_LIMIT && !single_segment(
            s.skip(j),
        )
}

/// Whether an IDR follows the first buffered sample.
fn has_later_idr(samples: &VecDeque<Sample>) -> (r: bool)
    ensures
        r == !single_segment(samples@),
{
    let n = samples.len();
    let mut i: usize = 1;
    while i < n
        invariant
            n == samples@.len(),
            1 <= i,
            forall|j: int| 0 < j < i && j < n ==> !is_idr(#[trigger] samples@[j]),
        decreases n - i,
    {
        if sample_is_idr(&samples[i]) {
            return true;
        }
        i = i + 1;
    }
    false
}

/// A video track.
pub struct AvcTrack {
    pub sps: SpsInfo,
    pub sps_bytes: Vec<u8>,
    pub pps_bytes: Vec<u8>,
    pub samples: VecDeque<Sample>,
    pub max_bitrate: Option<u32>,
    /// Number of segments evicted before the head of the buffer.
    pub first_seg_num: u64,
    /// Number of complete parts of the segments evicted before the head.
    pub first_part_num: u64,
    /// The samples evicted so far, oldest first.
    pub evicted: Ghost<Seq<Sample>>,
}

impl AvcTrack {
    /// Every sample ever appended, oldest first.
    pub open spec fn history(&self) -> Seq<Sample> {
        self.evicted@ + self.samples@
    }

    pub open spec fn starts(&self) -> Seq<int> {
        idr_indices(self.samples@)
    }

    pub open spec fn segment_count(&self) -> int {
        idr_count(self.samples@) as int
    }

    pub open spec fn spec_segments(&self) -> Seq<SegmentInfo> {
        Seq::new(
            idr_count(self.samples@),
            |k: int| avc_segment(self.samples@, self.first_seg_num, k),
        )
    }

    pub open spec fn seg_start(&self, k: int) -> int {
        self.starts()[k]
    }

    pub open spec fn seg_end(&self, k: int) -> int {
        seg_end(self.starts(), self.samples@.len() as int, k)
    }

    /// The complete parts of segment `k`.
    pub open spec fn spec_parts(&self, k: int) -> Seq<PartInfo> {
        part_list(
            self.samples@,
            self.seg_start(k),
            self.seg_end(k),
            VIDEO_SAMPLES_PER_PART as int,
            true,
        )
    }

    pub open spec fn spec_msn(&self) -> int {
        self.first_seg_num + self.segment_count()
    }

    /// The newest segment's number and the index of its newest complete part
    /// (0 while it has none), once there is a segment.
    pub open spec fn spec_sequence(&self) -> Option<TrackSequence> {
        let c = self.segment_count();
        let np = self.spec_parts(c - 1).len();
        if c == 0 {
            None
        } else {
            Some(
                TrackSequence {
                    seg: (self.first_seg_num + c - 1) as u64,
                    part: if np == 0 { 0 } else { (np - 1) as u16 },
                },
            )
        }
    }

    /// `self` is `old` after `push(sample)`: the history grows by the sample,
    /// the fewest whole leading segments that bring the span within the limit
    /// are evicted and counted, and the parameter sets and bitrate stay.
    pub open spec fn is_push_of(&self, old: AvcTrack, sample: Sample) -> bool {
        &&& self.wf()
        &&& self.history() == old.history().push(sample)
        &&& exists|k: int|
            eviction_point(old.samples@.push(sample), k) && self.samples@ == old.samples@.push(sample).skip(k)
                && self.evicted@ == old.evicted@ + old.samples@.push(sample).take(k) && self.first_seg_num
                == old.first_seg_num + idr_count(old.samples@.push(sample).take(k))
        &&& self.first_part_num >= old.first_part_num
        &&& self.sps == old.sps
        &&& self.sps_bytes@ == old.sps_bytes@
        &&& self.pps_bytes@ == old.pps_bytes@
        &&& self.max_bitrate == old.max_bitrate
    }

    /// Every invariant but the bound on the buffered duration.
    pub open spec fn inv(&self) -> bool {
        &&& dts_ordered(self.samples@)
        &&& self.first_seg_num == idr_count(self.evicted@)
        &&& self.first_seg_num + self.samples@.len() < u64::MAX
        &&& self.first_part_num + self.samples@.len() < u64::MAX
    }

    /// The buffered span is within the archive limit, unless the buffer holds
    /// no more than its newest segment (which is never evicted).
    pub open spec fn wf(&self) -> bool {
        &&& self.inv()
        &&& (span(self.samples@) <= ARCHIVE_LIMIT || single_segment(self.samples@))
    }

    /// A sample can be appended when its dts does not go backwards and the
    /// segment counter cannot overflow.
    pub open spec fn spec_accepts(&self, s: Sample) -> bool {
        &&& (self.samples@.len() > 0 ==> self.samples@.last().dts <= s.dts)
        &&& self.first_seg_num + self.samples@.len() + 1 < u64::MAX
        &&& self.first_part_num + self.samples@.len() + 1 < u64::MAX
    }

    pub fn new(sps: SpsInfo, sps_bytes: Vec<u8>, pps_bytes: Vec<u8>, max_bitrate: Option<u32>) -> (r:
        AvcTrack)
        ensures
            r.wf(),
            r.samples@.len() == 0,
            r.history().len() == 0,
            r.first_seg_num == 0,
            r.first_part_num == 0,
            r.sps == sps,
            r.sps_bytes@ == sps_bytes@,
            r.pps_bytes@ == pps_bytes@,
            r.max_bitrate == max_bitrate,
    {
        AvcTrack {
            sps,
            sps_bytes,
            pps_bytes,
            samples: VecDeque::new(),
            max_bitrate,
            first_seg_num: 0,
            first_part_num: 0,
            evicted: Ghost(Seq::empty()),
        }
    }

    pub fn accepts(&self, sample: &Sample) -> (r: bool)
        requires
            self.wf(),
        ensures
            r == self.spec_accepts(*sample),
    {
        let n = self.samples.len();
        if self.first_seg_num >= u64::MAX - 1 - n as u64 || self.first_part_num >= u64::MAX - 1 - n as u64 {
            return false;
        }
        if n > 0 {
            let last = &self.samples[n - 1];
            last.dts <= sample.dts
        } else {
            true
        }
    }

    /// Appends a sample, then evicts whole leading segments while the
    /// buffered duration exceeds the archive limit, and returns the value to
    /// publish to waiting readers.
    pub fn push(&mut self, sample: Sample) -> (r: Option<TrackSequence>)
        requires
            old(self).wf(),
            old(self).spec_accepts(sample),
        ensures
            final(self).wf(),
            final(self).history() == old(self).history().push(sample),
            old(self).evicted@.len() <= final(self).evicted@.len(),
            final(self).evicted@.subrange(0, old(self).evicted@.len() as int) == old(self).evicted@,
            exists|k: int|
                eviction_point(old(self).samples@.push(sample), k) && final(self).samples@ == old(
                    self,
                ).samples@.push(sample).skip(k) && final(self).evicted@ == old(self).evicted@ + old(
                    self,
                ).samples@.push(sample).take(k) && final(self).first_seg_num == old(self).first_seg_num
                    + idr_count(old(self).samples@.push(sample).take(k)),
            final(self).sps == old(self).sps,
            final(self).sps_bytes@ == old(self).sps_bytes@,
            final(self).pps_bytes@ == old(self).pps_bytes@,
            final(self).max_bitrate == old(self).max_bitrate,
            final(self).is_push_of(*old(self), sample),
            final(self).samples@.len() > 0 && final(self).samples@.last() == sample,
            r == final(self).spec_sequence(),
    {
        let ghost old_hist = self.history();
        let ghost old_ev = self.evicted@;
        let ghost s0 = self.samples@;
        self.samples.push_back(sample);
        proof {
            assert(self.history() =~= old_hist.push(sample));
            assert(dts_ordered(self.samples@)) by {
                assert forall|i: int, j: int| 0 <= i <= j < self.samples@.len() implies
                    self.samples@[i].dts <= self.samples@[j].dts by {
                    if j == s0.len() && i < j {
                        assert(s0[i].dts <= s0.last().dts);
                    }
                }
            }
        }
        let mut over = span_of(&self.samples) > ARCHIVE_LIMIT as i128 && has_later_idr(&self.samples);
        let ghost mut c: int = 0;
        proof {
            assert(self.samples@ =~= s0.push(sample).skip(0));
            assert(self.evicted@ =~= old_ev + s0.push(sample).take(0));
        }
        while over
            invariant
                self.inv(),
                over == (span(self.samples@) > ARCHIVE_LIMIT && !single_segment(self.samples@)),
                self.history() == old_hist.push(sample),
                self.first_part_num >= old(self).first_part_num,
                old_ev.len() <= self.evicted@.len(),
                self.evicted@.subrange(0, old_ev.len() as int) == old_ev,
                0 <= c < s0.len() + 1,
                self.samples@ == s0.push(sample).skip(c),
                self.evicted@ == old_ev + s0.push(sample).take(c),
                cut_point(s0.push(sample), c),
                forall|j: int| 0 <= j < c && #[trigger] cut_point(s0.push(sample), j) ==> span(
                    s0.push(sample).skip(j),
                ) > ARCHIVE_LIMIT && !single_segment(s0.push(sample).skip(j)),
                self.sps == old(self).sps,
                self.sps_bytes@ == old(self).sps_bytes@,
                self.pps_bytes@ == old(self).pps_bytes@,
                self.max_bitrate == old(self).max_bitrate,
            decreases self.samples@.len(),
        {
            let ghost before = self.samples@;
            let ghost ev_before = self.evicted@;
            self.remove_one_segment();
            proof {
                let s2 = s0.push(sample);
                let m = choose|m: int|
                    1 <= m < before.len() && self.samples@ == before.skip(m) && is_idr(before[m]) && (forall|i: int|
                        0 < i < m ==> !is_idr(#[trigger] before[i]))
                        && self.evicted@ == ev_before + before.take(m);
                assert forall|j: int| 0 <= j < c + m && #[trigger] cut_point(s2, j) implies span(s2.skip(j))
                    > ARCHIVE_LIMIT && !single_segment(s2.skip(j)) by {
                    if j > c {
                        assert(s2[j] == before[j - c]);
                    }
                }
                if c + m < s2.len() {
                    assert(s2[c + m] == before[m]);
                }
                assert(self.samples@ =~= s2.skip(c + m));
                assert(self.evicted@ =~= old_ev + s2.take(c + m));
                c = c + m;
            }
            over = span_of(&self.samples) > ARCHIVE_LIMIT as i128 && has_later_idr(&self.samples);
        }
        proof {
            lemma_idr_count_append(old_ev, s0.push(sample).take(c));
            assert(eviction_point(s0.push(sample), c));
        }
        self.current_sequence()
    }

    /// Removes the oldest sample and the non-IDR samples that follow it, so
    /// that an IDR (or nothing) is at the head; counts a segment as evicted
    /// when the removed run began with an IDR.
    fn remove_one_segment(&mut self)
        requires
            old(self).inv(),
            old(self).samples@.len() > 0,
            !single_segment(old(self).samples@),
        ensures
            final(self).inv(),
            final(self).samples@.len() < old(self).samples@.len(),
            final(self).history() == old(self).history(),
            old(self).evicted@.len() <= final(self).evicted@.len(),
            final(self).evicted@.subrange(0, old(self).evicted@.len() as int) == old(self).evicted@,
            exists|m: int|
                1 <= m < old(self).samples@.len() && final(self).samples@ == old(self).samples@.skip(m)
                    && is_idr(old(self).samples@[m]) && (forall|i: int|
                    0 < i < m ==> !is_idr(#[trigger] old(self).samples@[i])) && final(self).evicted@ == old(
                    self,
                ).evicted@ + old(self).samples@.take(m) && final(self).first_part_num == old(
                    self,
                ).first_part_num + if is_idr(old(self).samples@[0]) { m / 8 } else { 0 },
            final(self).sps == old(self).sps,
            final(self).sps_bytes@ == old(self).sps_bytes@,
            final(self).pps_bytes@ == old(self).pps_bytes@,
            final(self).max_bitrate == old(self).max_bitrate,
    {
        let ghost ev0 = self.evicted@;
        let ghost h0 = self.history();
        let ghost s0 = self.samples@;
        let ghost mut m: int = 1;
        let mut removed: u64 = 1;
        let first = self.samples.pop_front().unwrap();
        let was_idr = sample_is_idr(&first);
        proof {
            lemma_idr_count_append(self.evicted@, seq![first]);
            lemma_idr_count_single(first);
            assert(self.evicted@.push(first) =~= self.evicted@ + seq![first]);
            self.evicted = Ghost(self.evicted@.push(first));
            assert(self.history() =~= h0);
            assert(self.samples@ =~= s0.skip(1));
            assert(self.evicted@ =~= ev0 + s0.take(1));
        }
        if was_idr {
            self.first_seg_num = self.first_seg_num + 1;
        }
        assert(first == s0[0]);
        let mut more = self.samples.len() > 0 && !sample_is_idr(&self.samples[0]);
        while more
            invariant
                dts_ordered(self.samples@),
                self.first_seg_num == idr_count(self.evicted@),
                self.first_seg_num + self.samples@.len() < u64::MAX,
                self.samples@.len() < old(self).samples@.len(),
                ev0.len() <= self.evicted@.len(),
                self.history() == h0,
                self.evicted@.subrange(0, ev0.len() as int) == ev0,
                more == (self.samples@.len() > 0 && !is_idr(self.samples@[0])),
                1 <= m <= s0.len(),
                self.samples@ == s0.skip(m),
                forall|i: int| 0 < i < m ==> !is_idr(#[trigger] s0[i]),
                self.evicted@ == ev0 + s0.take(m),
                removed == m,
                was_idr == is_idr(s0[0]),
                self.first_part_num == old(self).first_part_num,
                old(self).first_part_num + s0.len() < u64::MAX,
                self.sps == old(self).sps,
                self.sps_bytes@ == old(self).sps_bytes@,
                self.pps_bytes@ == old(self).pps_bytes@,
                self.max_bitrate == old(self).max_bitrate,
            decreases self.samples@.len(),
        {
            let x = self.samples.pop_front().unwrap();
            proof {
                let e0 = self.evicted@;
                assert(e0.subrange(0, ev0.len() as int) == ev0);
                lemma_idr_count_append(self.evicted@, seq![x]);
                lemma_idr_count_single(x);
                assert(self.evicted@.push(x) =~= self.evicted@ + seq![x]);
                let e1 = self.evicted@;
                self.evicted = Ghost(self.evicted@.push(x));
                assert(self.evicted@.subrange(0, ev0.len() as int) =~= e1.subrange(0, ev0.len() as int));
                assert(self.history() =~= h0);
                assert(s0[m] == x);
                m = m + 1;
                assert(self.samples@ =~= s0.skip(m));
                assert(self.evicted@ =~= ev0 + s0.take(m));
            }
            removed = removed + 1;
            more = self.samples.len() > 0 && !sample_is_idr(&self.samples[0]);
        }
        if was_idr {
            self.first_part_num = self.first_part_num + removed / (VIDEO_SAMPLES_PER_PART as u64);
        }
    }

    /// The segments present in the buffer, oldest first.
    pub fn segments(&self) -> (r: Vec<SegmentInfo>)
        requires
            self.wf(),
        ensures
            r@ == self.spec_segments(),
    {
        let ghost s = self.samples@;
        let starts = idr_positions(&self.samples);
        proof {
            lemma_idr_indices(s);
        }
        let c = starts.len();
        assert(int_starts(starts@).len() == starts@.len());
        let mut r: Vec<SegmentInfo> = Vec::new();
        let mut k: usize = 0;
        while k < c
            invariant
                self.wf(),
                s == self.samples@,
                int_starts(starts@) == idr_indices(s),
                starts_ok(idr_indices(s), s.len() as int),
                c == starts@.len(),
                c <= s.len(),
                k <= c,
                r@.len() == k,
                forall|j: int| 0 <= j < k ==> r@[j] == #[trigger] self.spec_segments()[j],
            decreases c - k,
        {
            let ghost is = idr_indices(s);
            assert(is[k as int] == starts@[k as int] as int);
            let a = starts[k];
            let sa = &self.samples[a];
            let duration = if k + 1 < c {
                assert(is[k + 1] == starts@[k + 1] as int);
                assert(is[k as int] < is[k + 1]);
                let b = starts[k + 1];
                let sb = &self.samples[b];
                Some((sb.dts as i128 - sa.dts as i128) as u64)
            } else {
                None
            };
            r.push(
                SegmentInfo {
                    dts: sa.dts,
                    seq: self.first_seg_num + k as u64,
                    duration,
                    continuous: is_continuous_at(&self.samples, a),
                },
            );
            k = k + 1;
        }
        assert(r@ =~= self.spec_segments());
        r
    }

    /// The number of the newest segment plus one: segments evicted and present.
    pub fn media_sequence_number(&self) -> (r: u64)
        requires
            self.wf(),
        ensures
            r == self.spec_msn(),
    {
        let starts = idr_positions(&self.samples);
        proof {
            lemma_idr_indices(self.samples@);
        }
        self.first_seg_num + starts.len() as u64
    }

    /// The positions `[start, end)` of the first segment whose IDR has the given dts.
    pub fn segment_bounds(&self, dts: i64) -> (r: Result<(usize, usize), SegmentError>)
        requires
            self.wf(),
        ensures
            r matches Ok((a, b)) ==> a <= b <= self.samples@.len(),
            match r {
                Ok((a, b)) => exists|k: int|
                    first_segment_at(self.samples@, self.starts(), dts, k) && a == self.seg_start(k)
                        && b == self.seg_end(k),
                Err(e) => e == SegmentError::BadSampleTime(dts) && no_segment_at(
                    self.samples@,
                    self.starts(),
                    dts,
                ),
            },
    {
        let starts = idr_positions(&self.samples);
        proof {
            lemma_idr_indices(self.samples@);
        }
        match find_segment(&self.samples, &starts, dts) {
            Some(k) => {
                let ghost is = self.starts();
                assert(int_starts(starts@).len() == starts@.len());
                assert(first_segment_at(self.samples@, self.starts(), dts, k as int));
                assert(is[k as int] == starts@[k as int] as int);
                assert(k < starts.len());
                let a = starts[k];
                let b = if k + 1 < starts.len() {
                    assert(is[k + 1] == starts@[k + 1] as int);
                    starts[k + 1]
                } else {
                    self.samples.len()
                };
                assert(a == self.seg_start(k as int));
                assert(b == self.seg_end(k as int));
                Ok((a, b))
            },
            None => Err(SegmentError::BadSampleTime(dts)),
        }
    }

    /// The samples of the segment beginning at `dts`, up to the next segment.
    pub fn segment_samples(&self, dts: i64) -> (r: Result<Vec<&Sample>, SegmentError>)
        requires
            self.wf(),
        ensures
            match r {
                Ok(v) => exists|k: int|
                    first_segment_at(self.samples@, self.starts(), dts, k) && v@.len() == self.seg_end(
                        k,
                    ) - self.seg_start(k) && forall|i: int|
                        0 <= i < v@.len() ==> *v@[i] == self.samples@[self.seg_start(k) + i],
                Err(e) => e == SegmentError::BadSampleTime(dts) && no_segment_at(
                    self.samples@,
                    self.starts(),
                    dts,
                ),
            },
    {
        let (a, b) = self.segment_bounds(dts)?;
        proof {
            lemma_idr_indices(self.samples@);
        }
        let mut v: Vec<&Sample> = Vec::new();
        let mut i = a;
        while i < b
            invariant
                a <= i <= b <= self.samples@.len(),
                v@.len() == i - a,
                forall|j: int| 0 <= j < v@.len() ==> *v@[j] == self.samples@[a + j],
            decreases b - i,
        {
            v.push(&self.samples[i]);
            i = i + 1;
        }
        Ok(v)
    }

    /// The complete parts of the segment beginning at `dts`.
    pub fn parts(&self, dts: i64) -> (r: Result<Vec<PartInfo>, SegmentError>)
        requires
            self.wf(),
        ensures
            match r {
                Ok(v) => exists|k: int|
                    first_segment_at(self.samples@, self.starts(), dts, k) && v@ == self.spec_parts(k),
                Err(e) => e == SegmentError::BadSampleTime(dts) && no_segment_at(
                    self.samples@,
                    self.starts(),
                    dts,
                ),
            },
    {
        let (a, b) = self.segment_bounds(dts)?;
        let v = parts_in(&self.samples, a, b, VIDEO_SAMPLES_PER_PART, true);
        proof {
            let k = choose|k: int|
                first_segment_at(self.samples@, self.starts(), dts, k) && a == self.seg_start(k) && b
                    == self.seg_end(k);
            assert(v@ == self.spec_parts(k));
        }
        Ok(v)
    }

    /// The value to publish to waiting readers for the current buffer.
    pub fn current_sequence(&self) -> (r: Option<TrackSequence>)
        requires
            self.wf(),
        ensures
            r == self.spec_sequence(),
    {
        let starts = idr_positions(&self.samples);
        proof {
            lemma_idr_indices(self.samples@);
        }
        let c = starts.len();
        if c == 0 {
            return None;
        }
        let ghost is = self.starts();
        assert(is[c - 1] == starts@[c - 1] as int);
        let a = starts[c - 1];
        let np = (self.samples.len() - a) / VIDEO_SAMPLES_PER_PART;
        let part: u16 = if np == 0 {
            0
        } else {
            (np - 1) as u16
        };
        Some(TrackSequence { seg: self.first_seg_num + (c - 1) as u64, part })
    }

    /// The stable sequence number of the segment beginning at `dts`.
    pub fn segment_number_for(&self, dts: i64) -> (r: Option<u64>)
        requires
            self.wf(),
        ensures
            match r {
                Some(n) => first_segment_at(self.samples@, self.starts(), dts, first_k(self.samples@, self.starts(), dts))
                    && n == self.first_seg_num + first_k(self.samples@, self.starts(), dts),
                None => no_segment_at(self.samples@, self.starts(), dts),
            },
    {
        let starts = idr_positions(&self.samples);
        proof {
            lemma_idr_indices(self.samples@);
        }
        match find_segment(&self.samples, &starts, dts) {
            Some(k) => {
                assert(int_starts(starts@).len() == starts@.len());
                assert(first_segment_at(self.samples@, self.starts(), dts, k as int));
                proof {
                    lemma_first_k(self.samples@, self.starts(), dts, k as int);
                }
                Some(self.first_seg_num + k as u64)
            },
            None => None,
        }
    }

    /// The stable number of part `part_id` of the segment at `dts`: the parts
    /// of evicted segments, then the buffered parts up to and including it.
    pub fn part_number_for(&self, dts: i64, part_id: u64) -> (r: Option<u64>)
        requires
            self.wf(),
        ensures
            r == Some(
                (self.first_part_num + parts_upto(
                    self.samples@,
                    self.starts(),
                    VIDEO_SAMPLES_PER_PART as int,
                    dts,
                    part_id as int,
                    0,
                )) as u64,
            ),
    {
        let starts = idr_positions(&self.samples);
        proof {
            lemma_idr_indices(self.samples@);
        }
        Some(self.first_part_num + count_parts_upto(&self.samples, &starts, VIDEO_SAMPLES_PER_PART, dts, part_id))
    }

    /// The first buffered sample with the given dts.
    pub fn sample(&self, dts: i64) -> (r: Option<&Sample>)
        ensures
            match r {
                Some(x) => exists|i: int|
                    0 <= i < self.samples@.len() && self.samples@[i] == *x && x.dts == dts && forall|j: int|
                        0 <= j < i ==> #[trigger] self.samples@[j].dts != dts,
                None => forall|j: int| 0 <= j < self.samples@.len() ==> #[trigger] self.samples@[j].dts != dts,
            },
    {
        sample_at(&self.samples, dts)
    }

    /// The buffered samples, oldest first.
    pub fn samples(&self) -> (r: &VecDeque<Sample>)
        ensures
            r@ == self.samples@,
    {
        &self.samples
    }

    /// The declared maximum bitrate, if any.
    pub fn bandwidth(&self) -> (r: Option<u32>)
        ensures
            r == self.max_bitrate,
    {
        self.max_bitrate
    }

    /// The target duration advertised for segments, in whole seconds.
    pub fn max_chunk_duration(&self) -> (r: u32)
        ensures
            r == 2,
    {
        2
    }

    /// What the track reads of its sequence parameter set.
    pub fn sps(&self) -> (r: &SpsInfo)
        ensures
            *r == self.sps,
    {
        &self.sps
    }

    /// The exact bytes of the sequence parameter set NAL unit.
    pub fn sps_bytes(&self) -> (r: &[u8])
        ensures
            r@ == self.sps_bytes@,
    {
        self.sps_bytes.as_slice()
    }

    /// The exact bytes of the picture parameter set NAL unit.
    pub fn pps_bytes(&self) -> (r: &[u8])
        ensures
            r@ == self.pps_bytes@,
    {
        self.pps_bytes.as_slice()
    }

    /// Picture width and height in pixels.
    pub fn dimensions(&self) -> (r: (u32, u32))
        ensures
            r == spec_dimensions(self.sps),
    {
        self.sps.dimensions()
    }

    /// The RFC 6381 codec string of the track.
    pub fn rfc6381_codec(&self) -> (r: String)
        ensures
            r@ == spec_codec(self.sps),
    {
        self.sps.rfc6381_codec()
    }

    /// Whether the segment at `dts` is recent enough (within three segment
    /// durations of the newest sample) to offer parts.
    pub fn has_parts(&self, dts: i64) -> (r: bool)
        ensures
            r == (self.samples@.len() > 0 && dts as int >= self.samples@.last().dts as int - 3
                * SEG_DURATION_PTS),
    {
        let n = self.samples.len();
        if n == 0 {
            return false;
        }
        let latest = &self.samples[n - 1];
        dts as i128 >= latest.dts as i128 - 3 * SEG_DURATION_PTS as i128
    }
}

} // verus!
