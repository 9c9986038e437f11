//! Properties that relate several operations of the tracks.

use vstd::prelude::*;
use crate::aac::{AacTrack, aac_segment_count, lemma_aac_starts};
use crate::avc::{AvcTrack, single_segment, idr_count, lemma_idr_count_append, lemma_idr_indices, lemma_idr_indices_complete};
use crate::model::is_idr;
use crate::encode::declared_decode_time;
use crate::fragment::base_decode_time;
use crate::media::run_of;
use crate::model::{ARCHIVE_LIMIT, span, AUDIO_FRAMES_PER_PART, VIDEO_SAMPLES_PER_PART, first_segment_at, no_segment_at, first_k, lemma_first_segment_exists};
use crate::request::{Route, TrackRequest, route_of};
use crate::uri::{lemma_segment_uri_round_trip, segment_path};

verus! {

/// Every segment listed by `segments()` can be looked up by its dts: the
/// lookup does not fail, and the segment it finds begins with a sample of
/// that dts.
pub proof fn lemma_avc_listed_segments_found(t: AvcTrack, k: int)
    requires
        t.wf(),
        0 <= k < t.segment_count(),
    ensures
        ({
            let d = t.spec_segments()[k].dts;
            &&& !no_segment_at(t.samples@, t.starts(), d)
            &&& forall|j: int|
                first_segment_at(t.samples@, t.starts(), d, j) ==> t.seg_start(j) < t.seg_end(j)
                    && t.samples@[t.seg_start(j)].dts == d
        }),
{
    lemma_idr_indices(t.samples@);
    let d = t.spec_segments()[k].dts;
    assert(t.samples@[t.starts()[k]].dts == d);
}

/// Every segment listed by `segments()` of an audio track can be looked up
/// by its dts: it holds 1 to 90 frames, the first of that dts and none
/// earlier.
pub proof fn lemma_aac_listed_segments_found(t: AacTrack, k: int)
    requires
        t.wf(),
        0 <= k < t.segment_count(),
    ensures
        ({
            let d = t.spec_segments()[k].dts;
            &&& !no_segment_at(t.samples@, t.starts(), d)
            &&& forall|j: int|
                first_segment_at(t.samples@, t.starts(), d, j) ==> t.seg_start(j) < t.seg_end(j)
                    && t.seg_end(j) - t.seg_start(j) <= 90 && t.samples@[t.seg_start(j)].dts == d
                    && forall|i: int| t.seg_start(j) <= i < t.seg_end(j) ==> #[trigger] t.samples@[i].dts >= d
        }),
{
    lemma_aac_starts(t.samples@.len() as int);
    let d = t.spec_segments()[k].dts;
    assert(t.starts()[k] == k * 90);
    assert(t.samples@[t.starts()[k]].dts == d);
}

/// Within a video segment only the first part is independent: the group
/// holding the segment's IDR, and no other, since the next IDR begins the
/// next segment.
pub proof fn lemma_only_first_part_independent(t: AvcTrack, k: int, p: int)
    requires
        t.wf(),
        0 <= k < t.segment_count(),
        0 <= p < t.spec_parts(k).len(),
    ensures
        t.spec_parts(k)[p].independent <==> p == 0,
{
    let s = t.samples@;
    lemma_idr_indices(s);
    lemma_idr_indices_complete(s);
    let st = t.starts();
    let a = t.seg_start(k);
    let e = t.seg_end(k);
    assert(p * 8 + 8 <= e - a) by (nonlinear_arith)
        requires
            0 <= p < (e - a) / 8,
    ;
    if p == 0 {
        assert(is_idr(s[a]));
        assert(a <= a < a + 8);
    } else {
        assert forall|j: int| a + p * 8 <= j < a + p * 8 + 8 implies !is_idr(#[trigger] s[j]) by {
            if is_idr(s[j]) {
                let k2 = choose|k2: int| 0 <= k2 < st.len() && st[k2] == j;
                assert(p * 8 >= 8) by (nonlinear_arith)
                    requires
                        p >= 1,
                ;
                if k2 <= k {
                    if k2 < k {
                        assert(st[k2] < st[k]);
                    }
                } else if k + 1 < st.len() {
                    if k2 > k + 1 {
                        assert(st[k + 1] < st[k2]);
                    }
                }
            }
        }
    }
}

/// The buffered duration stays within the archive limit, except while the
/// buffer holds no more than its newest segment, whose span it then is.
pub proof fn lemma_buffer_duration(t: AvcTrack)
    requires
        t.wf(),
    ensures
        span(t.samples@) <= ARCHIVE_LIMIT || single_segment(t.samples@),
{
}

/// The buffered duration of an audio track stays within the archive limit,
/// except while the buffer holds no more than its newest segment.
pub proof fn lemma_aac_buffer_duration(t: AacTrack)
    requires
        t.wf(),
    ensures
        span(t.samples@) <= ARCHIVE_LIMIT || t.samples@.len() <= 90,
{
}

/// The media sequence number of a video track counts every segment ever
/// produced: one per IDR sample appended, evicted or still buffered.
pub proof fn lemma_msn_counts_all_segments(t: AvcTrack)
    requires
        t.wf(),
    ensures
        t.spec_msn() == idr_count(t.history()),
{
    lemma_idr_count_append(t.evicted@, t.samples@);
}

/// The media sequence number of an audio track counts every segment ever
/// produced: one per 90 frames appended, the trailing partial one included.
pub proof fn lemma_aac_msn_counts_all_segments(t: AacTrack)
    requires
        t.wf(),
    ensures
        t.spec_msn() == aac_segment_count(t.history().len() as int),
{
    let f = t.first_seg_num as int;
    let n = t.samples@.len() as int;
    assert(t.history().len() == 90 * f + n);
    assert((90 * f + n + 89) / 90 == f + (n + 89) / 90) by (nonlinear_arith)
        requires
            f >= 0,
            n >= 0,
    ;
}

/// A value is published after every append once there is a segment: it
/// names the newest segment, numbered one below the media sequence number,
/// and its newest complete part.
pub proof fn lemma_published_sequence(t: AvcTrack)
    requires
        t.wf(),
    ensures
        t.spec_sequence() matches Some(q) ==> q.seg == t.spec_msn() - 1 && (t.spec_parts(
            t.segment_count() - 1,
        ).len() > 0 ==> q.part == (t.spec_parts(t.segment_count() - 1).len() - 1) as u16),
        t.spec_sequence() is None <==> t.segment_count() == 0,
{
    lemma_idr_indices(t.samples@);
}

/// A value is published after every append to an audio track once there is
/// a segment: it names the newest segment, numbered one below the media
/// sequence number, and its newest complete part.
pub proof fn lemma_aac_published_sequence(t: AacTrack)
    requires
        t.wf(),
    ensures
        t.spec_sequence() matches Some(q) ==> q.seg == t.spec_msn() - 1 && (t.spec_parts(
            t.segment_count() - 1,
        ).len() > 0 ==> q.part == (t.spec_parts(t.segment_count() - 1).len() - 1) as u16),
        t.spec_sequence() is None <==> t.segment_count() == 0,
{
    lemma_aac_starts(t.samples@.len() as int);
}

/// A media segment fetched by the dts of a listed segment declares that dts,
/// modulo 2^32, as its decode time, when segment-starting samples carry equal
/// pts and dts. `b` is the result that `make_avc_segment` gives for that dts.
pub proof fn lemma_segment_decode_time(t: AvcTrack, k: int, b: Seq<u8>)
    requires
        t.wf(),
        0 <= k < t.segment_count(),
        forall|j: int|
            0 <= j < t.segment_count() ==> #[trigger] t.samples@[t.starts()[j]].pts == t.samples@[t.starts()[j]].dts,
        declared_decode_time(b) == Some(
            base_decode_time(
                run_of(
                    t.samples@,
                    t.seg_start(first_k(t.samples@, t.starts(), t.spec_segments()[k].dts)),
                    t.seg_end(first_k(t.samples@, t.starts(), t.spec_segments()[k].dts)),
                    None,
                    VIDEO_SAMPLES_PER_PART as int,
                ),
            ) as int,
        ),
    ensures
        !no_segment_at(t.samples@, t.starts(), t.spec_segments()[k].dts),
        declared_decode_time(b) == Some(t.spec_segments()[k].dts as int % 0x1_0000_0000),
{
    lemma_idr_indices(t.samples@);
    let d = t.spec_segments()[k].dts;
    assert(t.samples@[t.starts()[k]].dts == d);
    lemma_first_segment_exists(t.samples@, t.starts(), d, k);
    let j = first_k(t.samples@, t.starts(), d);
    let run = t.samples@.subrange(t.seg_start(j), t.seg_end(j));
    assert(run[0] == t.samples@[t.starts()[j]]);
    assert(run[0].pts == d);
}

/// An audio segment fetched by the dts of a listed segment declares that dts,
/// modulo 2^32, as its decode time, when segment-starting frames carry equal
/// pts and dts. `b` is the result that `make_aac_segment` gives for that dts.
pub proof fn lemma_aac_segment_decode_time(t: AacTrack, k: int, b: Seq<u8>)
    requires
        t.wf(),
        0 <= k < t.segment_count(),
        forall|j: int|
            0 <= j < t.segment_count() ==> #[trigger] t.samples@[t.starts()[j]].pts == t.samples@[t.starts()[j]].dts,
        declared_decode_time(b) == Some(
            base_decode_time(
                run_of(
                    t.samples@,
                    t.seg_start(first_k(t.samples@, t.starts(), t.spec_segments()[k].dts)),
                    t.seg_end(first_k(t.samples@, t.starts(), t.spec_segments()[k].dts)),
                    None,
                    AUDIO_FRAMES_PER_PART as int,
                ),
            ) as int,
        ),
    ensures
        !no_segment_at(t.samples@, t.starts(), t.spec_segments()[k].dts),
        declared_decode_time(b) == Some(t.spec_segments()[k].dts as int % 0x1_0000_0000),
{
    lemma_aac_starts(t.samples@.len() as int);
    let d = t.spec_segments()[k].dts;
    assert(t.starts()[k] == k * 90);
    assert(t.samples@[t.starts()[k]].dts == d);
    lemma_first_segment_exists(t.samples@, t.starts(), d, k);
    let j = first_k(t.samples@, t.starts(), d);
    let run = t.samples@.subrange(t.seg_start(j), t.seg_end(j));
    assert(run[0] == t.samples@[t.starts()[j]]);
    assert(run[0].pts == d);
}

/// Round trip from a manifest to a media segment: the URI of listed segment
/// `k` of track `id` routes to a request for that segment's dts; a segment
/// exists there, so `make_avc_segment` succeeds; and the fragment it serves
/// (`b`) declares that dts modulo 2^32 as its decode time, when
/// segment-starting samples carry equal pts and dts.
pub proof fn lemma_manifest_segment_round_trip(t: AvcTrack, id: usize, k: int, b: Seq<u8>)
    requires
        t.wf(),
        0 <= k < t.segment_count(),
        forall|j: int|
            0 <= j < t.segment_count() ==> #[trigger] t.samples@[t.starts()[j]].pts == t.samples@[t.starts()[j]].dts,
        declared_decode_time(b) == Some(
            base_decode_time(
                run_of(
                    t.samples@,
                    t.seg_start(first_k(t.samples@, t.starts(), t.spec_segments()[k].dts)),
                    t.seg_end(first_k(t.samples@, t.starts(), t.spec_segments()[k].dts)),
                    None,
                    VIDEO_SAMPLES_PER_PART as int,
                ),
            ) as int,
        ),
    ensures
        route_of(segment_path(id, t.spec_segments()[k].dts)) == Route::Track(
            id,
            TrackRequest::Segment(t.spec_segments()[k].dts),
        ),
        !no_segment_at(t.samples@, t.starts(), t.spec_segments()[k].dts),
        declared_decode_time(b) == Some(t.spec_segments()[k].dts as int % 0x1_0000_0000),
{
    lemma_segment_uri_round_trip(id, t.spec_segments()[k].dts);
    lemma_segment_decode_time(t, k, b);
}

} // verus!
