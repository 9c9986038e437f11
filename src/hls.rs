//! Master and per-track media manifests of the store.

use vstd::prelude::*;
use vstd::string::StringExecFns;
use crate::aac::AacTrack;
use crate::avc::{AvcTrack, idr_positions, lemma_idr_indices};
use crate::aac::{aac_positions, channel_count, lemma_aac_starts};
use crate::manifest::{format_utc_millis, in_chrono_range, media_manifest, render_media_manifest, utc_millis_text};
use crate::model::{
    AUDIO_FRAMES_PER_PART, SEG_DURATION_PTS, VIDEO_SAMPLES_PER_PART, PartInfo, Sample, SegmentInfo,
    int_starts, parts_in, starts_ok,
};
use crate::sps::spec_dimensions;
use crate::store::{Store, Track, TrackId};
use crate::text::{dec, push_dec};

verus! {

broadcast use vstd::std_specs::vecdeque::group_vec_dequeue_axioms;

/// Whether a segment starting at `dts` is among those that offer parts.
pub open spec fn offers_parts(s: Seq<Sample>, dts: i64) -> bool {
    s.len() > 0 && dts as int >= s.last().dts as int - 3 * SEG_DURATION_PTS
}

/// `col` lists, for each video segment, its parts when it offers them.
pub open spec fn avc_column(t: AvcTrack, col: Seq<Option<Vec<PartInfo>>>) -> bool {
    &&& col.len() == t.segment_count()
    &&& forall|k: int|
        0 <= k < col.len() ==> match #[trigger] col[k] {
            Some(v) => offers_parts(t.samples@, t.spec_segments()[k].dts) && v@ == t.spec_parts(k),
            None => !offers_parts(t.samples@, t.spec_segments()[k].dts),
        }
}

/// `col` lists, for each audio segment, its parts when it offers them.
pub open spec fn aac_column(t: AacTrack, col: Seq<Option<Vec<PartInfo>>>) -> bool {
    &&& col.len() == t.segment_count()
    &&& forall|k: int|
        0 <= k < col.len() ==> match #[trigger] col[k] {
            Some(v) => offers_parts(t.samples@, t.spec_segments()[k].dts) && v@ == t.spec_parts(k),
            None => !offers_parts(t.samples@, t.spec_segments()[k].dts),
        }
}

/// Milliseconds since the epoch of a media timestamp, given the offset.
pub open spec fn utc_millis(dts: i64, offset: i64) -> int {
    (dts + offset) / 90
}

/// The wall-clock text is present only for a first segment of a store whose
/// offset is known, and is then chrono's text for that segment's instant.
pub open spec fn pdt_ok(segs: Seq<SegmentInfo>, offset: Option<i64>, pdt: Option<String>) -> bool {
    match pdt {
        Some(t) => segs.len() > 0 && offset is Some && t@ == utc_millis_text(
            utc_millis(segs[0].dts, offset->0) as i64,
        ),
        None => !(segs.len() > 0 && offset is Some && in_chrono_range(utc_millis(segs[0].dts, offset->0))),
    }
}

/// The `#EXT-X-PROGRAM-DATE-TIME` text of a segment starting at `dts`.
pub fn program_date_time(dts: i64, offset: i64) -> (r: Option<String>)
    ensures
        r matches Some(t) ==> t@ == utc_millis_text(utc_millis(dts, offset) as i64),
        in_chrono_range(utc_millis(dts, offset)) ==> r is Some,
{
    let t = dts as i128 + offset as i128;
    let ms = if t >= 0 {
        t / 90
    } else {
        0 - (0 - t + 89) / 90
    };
    assert(ms == t as int / 90) by (nonlinear_arith)
        requires
            t >= 0 ==> ms == t as int / 90,
            t < 0 ==> ms == 0 - (0 - t + 89) / 90,
    ;
    format_utc_millis(ms as i64)
}

fn first_pdt(segs: &Vec<SegmentInfo>, offset: Option<i64>) -> (r: Option<String>)
    ensures
        pdt_ok(segs@, offset, r),
        (segs@.len() == 0 || offset is None) ==> r is None,
{
    match offset {
        Some(off) => {
            if segs.len() > 0 {
                program_date_time(segs[0].dts, off)
            } else {
                None
            }
        },
        None => None,
    }
}

fn has_parts_at(samples: &std::collections::VecDeque<Sample>, dts: i64) -> (r: bool)
    ensures
        r == offers_parts(samples@, dts),
{
    let n = samples.len();
    if n == 0 {
        return false;
    }
    let latest = &samples[n - 1];
    dts as i128 >= latest.dts as i128 - 3 * SEG_DURATION_PTS as i128
}

/// The parts offered by each segment of a video track.
pub fn avc_part_column(t: &AvcTrack, segs: &Vec<SegmentInfo>) -> (r: Vec<Option<Vec<PartInfo>>>)
    requires
        t.wf(),
        segs@ == t.spec_segments(),
    ensures
        avc_column(*t, r@),
{
    let starts = idr_positions(&t.samples);
    proof {
        lemma_idr_indices(t.samples@);
    }
    assert(int_starts(starts@).len() == starts@.len());
    let c = starts.len();
    let n = t.samples.len();
    let mut col: Vec<Option<Vec<PartInfo>>> = Vec::new();
    let mut k: usize = 0;
    while k < c
        invariant
            t.wf(),
            segs@ == t.spec_segments(),
            int_starts(starts@) == t.starts(),
            starts_ok(t.starts(), n as int),
            c == starts@.len(),
            c == t.segment_count(),
            n == t.samples@.len(),
            k <= c,
            col@.len() == k,
            forall|j: int|
                0 <= j < k ==> match #[trigger] col@[j] {
                    Some(v) => offers_parts(t.samples@, t.spec_segments()[j].dts) && v@ == t.spec_parts(j),
                    None => !offers_parts(t.samples@, t.spec_segments()[j].dts),
                },
        decreases c - k,
    {
        let ghost is = t.starts();
        assert(is[k as int] == starts@[k as int] as int);
        let a = starts[k];
        let b = if k + 1 < c {
            assert(is[k + 1] == starts@[k + 1] as int);
            starts[k + 1]
        } else {
            n
        };
        if has_parts_at(&t.samples, segs[k].dts) {
            col.push(Some(parts_in(&t.samples, a, b, VIDEO_SAMPLES_PER_PART, true)));
        } else {
            col.push(None);
        }
        k = k + 1;
    }
    col
}

/// The parts offered by each segment of an audio track.
pub fn aac_part_column(t: &AacTrack, segs: &Vec<SegmentInfo>) -> (r: Vec<Option<Vec<PartInfo>>>)
    requires
        t.wf(),
        segs@ == t.spec_segments(),
    ensures
        aac_column(*t, r@),
{
    let n = t.samples.len();
    let starts = aac_positions(n);
    proof {
        lemma_aac_starts(n as int);
    }
    assert(int_starts(starts@).len() == starts@.len());
    let c = starts.len();
    let mut col: Vec<Option<Vec<PartInfo>>> = Vec::new();
    let mut k: usize = 0;
    while k < c
        invariant
            t.wf(),
            segs@ == t.spec_segments(),
            int_starts(starts@) == t.starts(),
            starts_ok(t.starts(), n as int),
            c == starts@.len(),
            c == t.segment_count(),
            n == t.samples@.len(),
            k <= c,
            col@.len() == k,
            forall|j: int|
                0 <= j < k ==> match #[trigger] col@[j] {
                    Some(v) => offers_parts(t.samples@, t.spec_segments()[j].dts) && v@ == t.spec_parts(j),
                    None => !offers_parts(t.samples@, t.spec_segments()[j].dts),
                },
        decreases c - k,
    {
        let ghost is = t.starts();
        assert(is[k as int] == starts@[k as int] as int);
        let a = starts[k];
        let b = if k + 1 < c {
            assert(is[k + 1] == starts@[k + 1] as int);
            starts[k + 1]
        } else {
            n
        };
        if has_parts_at(&t.samples, segs[k].dts) {
            col.push(Some(parts_in(&t.samples, a, b, AUDIO_FRAMES_PER_PART, false)));
        } else {
            col.push(None);
        }
        k = k + 1;
    }
    col
}

/// The media manifest of a track: target duration 2 s, its segments, the
/// parts of the recent ones, and the first segment's wall-clock time when the
/// offset is known.
pub open spec fn is_track_manifest(track: Track, pts_to_utc: Option<i64>, text: Seq<char>) -> bool {
    exists|col: Seq<Option<Vec<PartInfo>>>, pdt: Option<String>|
        #![auto]
        text == media_manifest(2, track.spec_segments(), col, pdt) && pdt_ok(
            track.spec_segments(),
            pts_to_utc,
            pdt,
        ) && ((track.spec_segments().len() == 0 || pts_to_utc is None) ==> pdt is None) && match track {
            Track::Avc(t) => avc_column(t, col),
            Track::Aac(t) => aac_column(t, col),
        }
}

pub fn track_media_manifest(track: &Track, pts_to_utc: Option<i64>) -> (r: String)
    requires
        track.wf(),
    ensures
        is_track_manifest(*track, pts_to_utc, r@),
{
    match track {
        Track::Avc(t) => {
            let segs = t.segments();
            let col = avc_part_column(t, &segs);
            let pdt = first_pdt(&segs, pts_to_utc);
            let ghost g = pdt;
            let r = render_media_manifest(t.max_chunk_duration(), &segs, &col, pdt);
            assert(r@ == media_manifest(2, track.spec_segments(), col@, g));
            assert(is_track_manifest(*track, pts_to_utc, r@));
            r
        },
        Track::Aac(t) => {
            let segs = t.segments();
            let col = aac_part_column(t, &segs);
            let pdt = first_pdt(&segs, pts_to_utc);
            let ghost g = pdt;
            let r = render_media_manifest(t.max_chunk_duration(), &segs, &col, pdt);
            assert(r@ == media_manifest(2, track.spec_segments(), col@, g));
            assert(is_track_manifest(*track, pts_to_utc, r@));
            r
        },
    }
}

/// The media manifest of track `id`, when the store has that track.
pub fn media_manifest_of(store: &Store, id: TrackId) -> (r: Option<String>)
    requires
        store.wf(),
    ensures
        r is Some <==> id.0 < store.tracks@.len(),
        r matches Some(t) ==> is_track_manifest(store.tracks@[id.0 as int], store.pts_to_utc, t@),
{
    match store.get_track(id) {
        Some(t) => {
            assert(store.tracks@[id.0 as int].wf());
            Some(track_media_manifest(t, store.pts_to_utc))
        },
        None => None,
    }
}

/// The master manifest's lines for track number `id`.
pub open spec fn master_entry(id: int, t: Track) -> Seq<char> {
    match t {
        Track::Avc(a) => "#EXT-X-STREAM-INF:"@ + (match a.max_bitrate {
            Some(b) => "BANDWIDTH="@ + dec(b as nat) + ","@,
            None => Seq::empty(),
        }) + "RESOLUTION="@ + dec(spec_dimensions(a.sps).0 as nat) + "x"@ + dec(
            spec_dimensions(a.sps).1 as nat,
        ) + ",AUDIO=\"default-audio-group\"\n"@ + "track/"@ + dec(id as nat) + "/media.m3u8\n"@,
        Track::Aac(a) => "#EXT-X-MEDIA:TYPE=AUDIO,URI=\"track/"@ + dec(id as nat)
            + "/media.m3u8\",GROUP-ID=\"default-audio-group\",NAME=\"audio-"@ + dec(id as nat)
            + "\",AUTOSELECT=YES"@ + (match channel_count(a.channel_config) {
            Some(c) => ",CHANNELS=\""@ + dec(c as nat) + "\""@,
            None => Seq::empty(),
        }) + "\n"@,
    }
}

pub open spec fn master_entries(tracks: Seq<Track>) -> Seq<char>
    decreases tracks.len(),
{
    if tracks.len() == 0 {
        Seq::empty()
    } else {
        master_entries(tracks.drop_last()) + master_entry(tracks.len() - 1, tracks.last())
    }
}

/// The master manifest of a store with the given tracks.
pub open spec fn master_text(tracks: Seq<Track>) -> Seq<char> {
    "#EXTM3U\n"@ + "#EXT-X-VERSION:7\n"@ + "#EXT-X-INDEPENDENT-SEGMENTS\n"@ + "\n"@ + master_entries(tracks)
}

#[verifier::rlimit(50)]
fn push_master_entry(text: &mut String, id: usize, track: &Track)
    ensures
        final(text)@ == old(text)@ + master_entry(id as int, *track),
{
    match track {
        Track::Avc(a) => {
            let (width, height) = a.dimensions();
            text.append("#EXT-X-STREAM-INF:");
            match a.bandwidth() {
                Some(b) => {
                    text.append("BANDWIDTH=");
                    push_dec(text, b as u64);
                    text.append(",");
                },
                None => {},
            }
            text.append("RESOLUTION=");
            push_dec(text, width as u64);
            text.append("x");
            push_dec(text, height as u64);
            text.append(",AUDIO=\"default-audio-group\"\n");
            text.append("track/");
            push_dec(text, id as u64);
            text.append("/media.m3u8\n");
        },
        Track::Aac(a) => {
            text.append("#EXT-X-MEDIA:TYPE=AUDIO,URI=\"track/");
            push_dec(text, id as u64);
            text.append("/media.m3u8\",GROUP-ID=\"default-audio-group\",NAME=\"audio-");
            push_dec(text, id as u64);
            text.append("\",AUTOSELECT=YES");
            match a.channels() {
                Some(c) => {
                    text.append(",CHANNELS=\"");
                    push_dec(text, c as u64);
                    text.append("\"");
                },
                None => {},
            }
            text.append("\n");
        },
    }
    assert(text@ =~= old(text)@ + master_entry(id as int, *track));
}

/// The master manifest: one stream per video track, one audio rendition per
/// audio track.
pub fn master_manifest(store: &Store) -> (r: String)
    ensures
        r@ == master_text(store.tracks@),
{
    let mut text = String::new();
    text.append("#EXTM3U\n");
    text.append("#EXT-X-VERSION:7\n");
    text.append("#EXT-X-INDEPENDENT-SEGMENTS\n");
    text.append("\n");
    let ghost head = text@;
    let mut i: usize = 0;
    while i < store.tracks.len()
        invariant
            i <= store.tracks@.len(),
            text@ == head + master_entries(store.tracks@.take(i as int)),
        decreases store.tracks@.len() - i,
    {
        push_master_entry(&mut text, i, &store.tracks[i]);
        proof {
            assert(store.tracks@.take(i + 1).drop_last() =~= store.tracks@.take(i as int));
            assert(store.tracks@.take(i + 1).last() == store.tracks@[i as int]);
        }
        i = i + 1;
    }
    assert(store.tracks@.take(store.tracks@.len() as int) =~= store.tracks@);
    text
}

} // verus!
