//! Media segments and parts of a track, as fMP4 bytes.

use vstd::prelude::*;
use crate::aac::AacTrack;
use crate::avc::AvcTrack;
use crate::encode::{declared_decode_time, encode_fragment, encoded_fragment, plan_bytes, rows_uniform};
use crate::fragment::{
    AAC_SAMPLES_IN_FRAME, FragmentPlan, base_decode_time, fragment_sample, non_sync_flags, payload,
    plan_fragment, plan_matches, sync_flags,
};
use crate::model::{
    AUDIO_FRAMES_PER_PART, VIDEO_SAMPLES_PER_PART, Sample, SegmentError, first_segment_at,
    no_segment_at, first_k, lemma_first_k, parts_upto,
};

verus! {

/// Failures of segment and part requests.
#[derive(Debug, PartialEq, Eq, Structural)]
pub enum FragmentError {
    /// The request named no segment of the buffer.
    Segment(SegmentError),
    /// The fragment could not be assembled.
    BuilderFailure,
}

/// The positions of the samples carried by a whole segment `[a, b)` or by
/// part `p` of it (`per` samples from `a + p * per`, fewer at the end, none
/// past it).
pub open spec fn run_bounds(a: int, b: int, part: Option<u64>, per: int) -> (int, int) {
    match part {
        None => (a, b),
        Some(p) => {
            let st = a + p * per;
            if st >= b {
                (b, b)
            } else if st + per <= b {
                (st, st + per)
            } else {
                (st, b)
            }
        },
    }
}

/// The samples carried by a segment or one of its parts.
pub open spec fn run_of(s: Seq<Sample>, a: int, b: int, part: Option<u64>, per: int) -> Seq<Sample> {
    let (x, y) = run_bounds(a, b, part, per);
    s.subrange(x, y)
}

fn run_range(a: usize, b: usize, part: Option<u64>, per: usize) -> (r: (usize, usize))
    requires
        a <= b,
        per > 0,
    ensures
        r.0 == run_bounds(a as int, b as int, part, per as int).0,
        r.1 == run_bounds(a as int, b as int, part, per as int).1,
        a <= r.0 <= r.1 <= b,
{
    match part {
        None => (a, b),
        Some(p) => {
            let groups = ((b - a) / per) as u64;
            if p > groups {
                assert(a + p * per >= b) by (nonlinear_arith)
                    requires
                        p > groups,
                        groups == (b - a) / per as int,
                        per > 0,
                        a <= b,
                ;
                (b, b)
            } else {
                assert(p * per <= b - a) by (nonlinear_arith)
                    requires
                        p <= groups,
                        groups == (b - a) / per as int,
                        per > 0,
                        a <= b,
                ;
                let st = a + (p as usize) * per;
                if st >= b {
                    (b, b)
                } else if b - st >= per {
                    (st, st + per)
                } else {
                    (st, b)
                }
            }
        },
    }
}

/// Plans the fragment for the segment at `dts` (or one of its parts) of a video track.
pub fn create_avc_stream(track: &AvcTrack, dts: i64, part: Option<u64>, sequence_number: u32) -> (r:
    Result<FragmentPlan, SegmentError>)
    requires
        track.wf(),
    ensures
        match r {
            Ok(p) => first_segment_at(track.samples@, track.starts(), dts, first_k(track.samples@, track.starts(), dts))
                && plan_matches(
                    p,
                    run_of(
                        track.samples@,
                        track.seg_start(first_k(track.samples@, track.starts(), dts)),
                        track.seg_end(first_k(track.samples@, track.starts(), dts)),
                        part,
                        VIDEO_SAMPLES_PER_PART as int,
                    ),
                    true,
                    sequence_number,
                ),
            Err(e) => e == SegmentError::BadSampleTime(dts) && no_segment_at(
                track.samples@,
                track.starts(),
                dts,
            ),
        },
{
    let (a, b) = track.segment_bounds(dts)?;
    proof {
        let k = choose|k: int|
            first_segment_at(track.samples@, track.starts(), dts, k) && a == track.seg_start(k) && b
                == track.seg_end(k);
        lemma_first_k(track.samples@, track.starts(), dts, k);
    }
    let (x, y) = run_range(a, b, part, VIDEO_SAMPLES_PER_PART);
    Ok(plan_fragment(track.samples(), x, y, true, sequence_number))
}

/// Plans the fragment for the segment at `dts` (or one of its parts) of an audio track.
pub fn create_aac_stream(track: &AacTrack, dts: i64, part: Option<u64>, sequence_number: u32) -> (r:
    Result<FragmentPlan, SegmentError>)
    requires
        track.wf(),
    ensures
        match r {
            Ok(p) => first_segment_at(track.samples@, track.starts(), dts, first_k(track.samples@, track.starts(), dts))
                && plan_matches(
                    p,
                    run_of(
                        track.samples@,
                        track.seg_start(first_k(track.samples@, track.starts(), dts)),
                        track.seg_end(first_k(track.samples@, track.starts(), dts)),
                        part,
                        AUDIO_FRAMES_PER_PART as int,
                    ),
                    false,
                    sequence_number,
                ),
            Err(e) => e == SegmentError::BadSampleTime(dts) && no_segment_at(
                track.samples@,
                track.starts(),
                dts,
            ),
        },
{
    let (a, b) = track.segment_bounds(dts)?;
    proof {
        let k = choose|k: int|
            first_segment_at(track.samples@, track.starts(), dts, k) && a == track.seg_start(k) && b
                == track.seg_end(k);
        lemma_first_k(track.samples@, track.starts(), dts, k);
    }
    let (x, y) = run_range(a, b, part, AUDIO_FRAMES_PER_PART);
    Ok(plan_fragment(track.samples(), x, y, false, sequence_number))
}

/// The encoded fragment carrying the run `run`, with the given fragment
/// sequence number: video rows are non-sync by default with a sync first
/// sample, audio rows have a default duration of one AAC frame.
pub open spec fn run_fragment(run: Seq<Sample>, video: bool, sequence_number: u32) -> Seq<u8> {
    encoded_fragment(
        sequence_number,
        video,
        if video { None } else { Some(AAC_SAMPLES_IN_FRAME) },
        if video { Some(non_sync_flags()) } else { None },
        if video { Some(sync_flags()) } else { None },
        Seq::new(run.len(), |i: int| fragment_sample(run, i, video)),
        payload(run, video),
        base_decode_time(run),
    )
}

proof fn lemma_plan_rows(p: FragmentPlan, run: Seq<Sample>, video: bool, sequence_number: u32)
    requires
        plan_matches(p, run, video, sequence_number),
    ensures
        rows_uniform(p.samples@),
        plan_bytes(p) == run_fragment(run, video, sequence_number),
{
}

fn encode_plan(plan: Result<FragmentPlan, SegmentError>) -> (r: Result<Vec<u8>, FragmentError>)
    requires
        plan matches Ok(p) ==> rows_uniform(p.samples@),
    ensures
        match plan {
            Err(e) => r == Err::<Vec<u8>, FragmentError>(FragmentError::Segment(e)),
            Ok(p) => r matches Ok(b) && b@ == plan_bytes(p) && declared_decode_time(b@) == Some(
                p.base_media_decode_time as int,
            ),
        },
{
    match plan {
        Err(e) => Err(FragmentError::Segment(e)),
        Ok(p) => match encode_fragment(&p) {
            Ok(b) => Ok(b),
            Err(_) => Err(FragmentError::BuilderFailure),
        },
    }
}

/// The fMP4 media segment starting at `dts` of a video track: whenever that
/// segment exists, the fragment of its run, numbered by its sequence number,
/// whose `tfdt` carries the run's first pts.
pub fn make_avc_segment(track: &AvcTrack, dts: i64) -> (r: Result<Vec<u8>, FragmentError>)
    requires
        track.wf(),
    ensures
        no_segment_at(track.samples@, track.starts(), dts) ==> r == Err::<Vec<u8>, FragmentError>(
            FragmentError::Segment(SegmentError::BadSampleTime(dts)),
        ),
        !no_segment_at(track.samples@, track.starts(), dts) ==> (r matches Ok(b) && first_segment_at(
            track.samples@,
            track.starts(),
            dts,
            first_k(track.samples@, track.starts(), dts),
        ) && declared_decode_time(b@) == Some(
            base_decode_time(
                run_of(track.samples@, track.seg_start(first_k(track.samples@, track.starts(), dts)), track.seg_end(first_k(track.samples@, track.starts(), dts)), None, VIDEO_SAMPLES_PER_PART as int),
            ) as int,
        )),
        !no_segment_at(track.samples@, track.starts(), dts) ==> (r matches Ok(b) && b@ == run_fragment(
            run_of(track.samples@, track.seg_start(first_k(track.samples@, track.starts(), dts)), track.seg_end(first_k(track.samples@, track.starts(), dts)), None, VIDEO_SAMPLES_PER_PART as int),
            true,
            (track.first_seg_num + first_k(track.samples@, track.starts(), dts)) as u32,
        )),
{
    let seq = match track.segment_number_for(dts) {
        Some(n) => n as u32,
        None => return Err(FragmentError::Segment(SegmentError::BadSampleTime(dts))),
    };
    let plan = create_avc_stream(track, dts, None, seq);
    proof {
        if plan is Ok {
            lemma_plan_rows(
                plan->Ok_0,
                run_of(
                    track.samples@,
                    track.seg_start(first_k(track.samples@, track.starts(), dts)),
                    track.seg_end(first_k(track.samples@, track.starts(), dts)),
                    None,
                    VIDEO_SAMPLES_PER_PART as int,
                ),
                true,
                seq,
            );
        }
    }
    encode_plan(plan)
}

/// The fMP4 part `part_id` of the segment starting at `dts` of a video track:
/// whenever that segment exists, the fragment of its part's run, whose `tfdt`
/// carries the run's first pts.
pub fn make_avc_part(track: &AvcTrack, dts: i64, part_id: u64) -> (r: Result<Vec<u8>, FragmentError>)
    requires
        track.wf(),
    ensures
        no_segment_at(track.samples@, track.starts(), dts) ==> r == Err::<Vec<u8>, FragmentError>(
            FragmentError::Segment(SegmentError::BadSampleTime(dts)),
        ),
        !no_segment_at(track.samples@, track.starts(), dts) ==> (r matches Ok(b) && first_segment_at(
            track.samples@,
            track.starts(),
            dts,
            first_k(track.samples@, track.starts(), dts),
        ) && declared_decode_time(b@) == Some(
            base_decode_time(
                run_of(track.samples@, track.seg_start(first_k(track.samples@, track.starts(), dts)), track.seg_end(first_k(track.samples@, track.starts(), dts)), Some(part_id), VIDEO_SAMPLES_PER_PART as int),
            ) as int,
        )),
        !no_segment_at(track.samples@, track.starts(), dts) ==> (r matches Ok(b) && b@ == run_fragment(
            run_of(track.samples@, track.seg_start(first_k(track.samples@, track.starts(), dts)), track.seg_end(first_k(track.samples@, track.starts(), dts)), Some(part_id), VIDEO_SAMPLES_PER_PART as int),
            true,
            ((track.first_part_num + parts_upto(track.samples@, track.starts(), VIDEO_SAMPLES_PER_PART as int, dts, part_id as int, 0)) as u64) as u32,
        )),
{
    let seq = match track.part_number_for(dts, part_id) {
        Some(n) => n as u32,
        None => 1,
    };
    let plan = create_avc_stream(track, dts, Some(part_id), seq);
    proof {
        if plan is Ok {
            lemma_plan_rows(
                plan->Ok_0,
                run_of(
                    track.samples@,
                    track.seg_start(first_k(track.samples@, track.starts(), dts)),
                    track.seg_end(first_k(track.samples@, track.starts(), dts)),
                    Some(part_id),
                    VIDEO_SAMPLES_PER_PART as int,
                ),
                true,
                seq,
            );
        }
    }
    encode_plan(plan)
}

/// The fMP4 media segment starting at `dts` of an audio track: whenever that
/// segment exists, the fragment of its run, numbered by its sequence number,
/// whose `tfdt` carries the run's first pts.
pub fn make_aac_segment(track: &AacTrack, dts: i64) -> (r: Result<Vec<u8>, FragmentError>)
    requires
        track.wf(),
    ensures
        no_segment_at(track.samples@, track.starts(), dts) ==> r == Err::<Vec<u8>, FragmentError>(
            FragmentError::Segment(SegmentError::BadSampleTime(dts)),
        ),
        !no_segment_at(track.samples@, track.starts(), dts) ==> (r matches Ok(b) && first_segment_at(
            track.samples@,
            track.starts(),
            dts,
            first_k(track.samples@, track.starts(), dts),
        ) && declared_decode_time(b@) == Some(
            base_decode_time(
                run_of(track.samples@, track.seg_start(first_k(track.samples@, track.starts(), dts)), track.seg_end(first_k(track.samples@, track.starts(), dts)), None, AUDIO_FRAMES_PER_PART as int),
            ) as int,
        )),
        !no_segment_at(track.samples@, track.starts(), dts) ==> (r matches Ok(b) && b@ == run_fragment(
            run_of(track.samples@, track.seg_start(first_k(track.samples@, track.starts(), dts)), track.seg_end(first_k(track.samples@, track.starts(), dts)), None, AUDIO_FRAMES_PER_PART as int),
            false,
            (track.first_seg_num + first_k(track.samples@, track.starts(), dts)) as u32,
        )),
{
    let seq = match track.segment_number_for(dts) {
        Some(n) => n as u32,
        None => return Err(FragmentError::Segment(SegmentError::BadSampleTime(dts))),
    };
    let plan = create_aac_stream(track, dts, None, seq);
    proof {
        if plan is Ok {
            lemma_plan_rows(
                plan->Ok_0,
                run_of(
                    track.samples@,
                    track.seg_start(first_k(track.samples@, track.starts(), dts)),
                    track.seg_end(first_k(track.samples@, track.starts(), dts)),
                    None,
                    AUDIO_FRAMES_PER_PART as int,
                ),
                false,
                seq,
            );
        }
    }
    encode_plan(plan)
}

/// The fMP4 part `part_id` of the segment starting at `dts` of an audio track:
/// whenever that segment exists, the fragment of its part's run, whose `tfdt`
/// carries the run's first pts.
pub fn make_aac_part(track: &AacTrack, dts: i64, part_id: u64) -> (r: Result<Vec<u8>, FragmentError>)
    requires
        track.wf(),
    ensures
        no_segment_at(track.samples@, track.starts(), dts) ==> r == Err::<Vec<u8>, FragmentError>(
            FragmentError::Segment(SegmentError::BadSampleTime(dts)),
        ),
        !no_segment_at(track.samples@, track.starts(), dts) ==> (r matches Ok(b) && first_segment_at(
            track.samples@,
            track.starts(),
            dts,
            first_k(track.samples@, track.starts(), dts),
        ) && declared_decode_time(b@) == Some(
            base_decode_time(
                run_of(track.samples@, track.seg_start(first_k(track.samples@, track.starts(), dts)), track.seg_end(first_k(track.samples@, track.starts(), dts)), Some(part_id), AUDIO_FRAMES_PER_PART as int),
            ) as int,
        )),
        !no_segment_at(track.samples@, track.starts(), dts) ==> (r matches Ok(b) && b@ == run_fragment(
            run_of(track.samples@, track.seg_start(first_k(track.samples@, track.starts(), dts)), track.seg_end(first_k(track.samples@, track.starts(), dts)), Some(part_id), AUDIO_FRAMES_PER_PART as int),
            false,
            ((track.first_part_num + parts_upto(track.samples@, track.starts(), AUDIO_FRAMES_PER_PART as int, dts, part_id as int, 0)) as u64) as u32,
        )),
{
    let seq = match track.part_number_for(dts, part_id) {
        Some(n) => n as u32,
        None => 1,
    };
    let plan = create_aac_stream(track, dts, Some(part_id), seq);
    proof {
        if plan is Ok {
            lemma_plan_rows(
                plan->Ok_0,
                run_of(
                    track.samples@,
                    track.seg_start(first_k(track.samples@, track.starts(), dts)),
                    track.seg_end(first_k(track.samples@, track.starts(), dts)),
                    Some(part_id),
                    AUDIO_FRAMES_PER_PART as int,
                ),
                false,
                seq,
            );
        }
    }
    encode_plan(plan)
}

} // verus!
