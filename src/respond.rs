//! Answers to requests: status, content kind and body, or a wait on a track.

use vstd::prelude::*;
use vstd::string::StringExecFns;
use crate::hls::{is_track_manifest, master_manifest, master_text, track_media_manifest};
use crate::encode::declared_decode_time;
use crate::fragment::base_decode_time;
use crate::init::{
    aac_init_bytes, avc_init_bytes, make_aac_initialisation_segment, make_avc_initialisation_segment,
    spec_channels, spec_fmp4_profile, spec_frequency, spec_profile, unsupported_avc_profile,
};
use crate::sps::spec_dimensions;
use crate::media::{
    FragmentError, make_aac_part, make_aac_segment, make_avc_part, make_avc_segment, run_fragment,
    run_of,
};
use crate::model::{
    AUDIO_FRAMES_PER_PART, VIDEO_SAMPLES_PER_PART, Sample, TrackSequence, first_k, no_segment_at,
    parts_upto,
};
use crate::request::{
    HlsRequest, PathError, ReloadDecision, Route, TrackRequest, hls_request_params, reload_decision,
    route, route_of, spec_decision, uri_request,
};
use crate::store::{Store, Track, TrackId};
use crate::text::{dec, sdec, push_dec, push_sdec};

verus! {

/// The kind of content of a response body.
#[derive(Debug, Clone, Copy, PartialEq, Eq, Structural)]
pub enum ContentKind {
    Playlist,
    Mp4,
    Plain,
}

/// A response body.
pub enum Body {
    Text(String),
    Binary(Vec<u8>),
}

/// A response to send.
pub struct HttpResponse {
    pub status: u16,
    pub kind: ContentKind,
    pub body: Body,
    /// A `Link` header announcing the part a waiting client asked to have pushed.
    pub link: Option<String>,
}

/// What to do with a request.
pub enum Outcome {
    Respond(HttpResponse),
    /// Wait on the track's notifications until `wakes` accepts a value, then
    /// answer with `respond_after_wait`.
    Wait(TrackId, HlsRequest),
}

/// The status of a refused path.
pub open spec fn path_error_status(e: PathError) -> u16 {
    match e {
        PathError::UnknownPath => 404,
        PathError::NoTrackAction => 404,
        _ => 400,
    }
}

pub fn path_error_message(e: PathError) -> (r: &'static str) {
    match e {
        PathError::UnknownPath => "I don't know that one",
        PathError::BadTrackId => "Bad track id",
        PathError::NoTrackAction => "What do you want to do with this track?",
        PathError::UnknownTrackAction => "Don't know how to do that to a track",
        PathError::InvalidSegmentId => "Invalid segment id",
        PathError::InvalidPartRequest => "Invalid part request",
        PathError::InvalidPartId => "Invalid part id",
        PathError::UnknownSegmentKind => "Don't know how to produce such a segment",
    }
}

fn plain(status: u16, message: &str) -> (r: HttpResponse)
    ensures
        r.status == status,
        r.kind == ContentKind::Plain,
        r.link is None,
{
    HttpResponse { status, kind: ContentKind::Plain, body: Body::Text(String::from_str(message)), link: None }
}

/// The body of a refusal of a request too far ahead of the live edge.
pub open spec fn too_early_text(msn: u64, current: u64) -> Seq<char> {
    "Sequence number "@ + dec(msn as nat) + " requested too early ("@ + dec(current as nat) + " + "@ + dec(
        (msn - current) as nat,
    ) + ")"@
}

pub fn too_early_message(msn: u64, current: u64) -> (r: String)
    requires
        msn > current,
    ensures
        r@ == too_early_text(msn, current),
{
    let mut t = String::new();
    t.append("Sequence number ");
    push_dec(&mut t, msn);
    t.append(" requested too early (");
    push_dec(&mut t, current);
    t.append(" + ");
    push_dec(&mut t, msn - current);
    t.append(")");
    assert(t@ =~= too_early_text(msn, current));
    t
}

/// The `Link` header value announcing part `part` of the segment at `dts`.
pub open spec fn preload_text(id: usize, dts: i64, part: u16) -> Seq<char> {
    "</track/"@ + dec(id as nat) + "/segment/"@ + sdec(dts as int) + "/part/"@ + dec(part as nat)
        + ".mp4>; rel=preload; as=video; type=video/mp4"@
}

pub fn preload_link(id: usize, dts: i64, part: u16) -> (r: String)
    ensures
        r@ == preload_text(id, dts, part),
{
    let mut t = String::new();
    t.append("</track/");
    push_dec(&mut t, id as u64);
    t.append("/segment/");
    push_sdec(&mut t, dts);
    t.append("/part/");
    push_dec(&mut t, part as u64);
    t.append(".mp4>; rel=preload; as=video; type=video/mp4");
    assert(t@ =~= preload_text(id, dts, part));
    t
}

fn manifest_response(track: &Track, pts_to_utc: Option<i64>) -> (r: HttpResponse)
    requires
        track.wf(),
    ensures
        r.status == 200,
        r.kind == ContentKind::Playlist,
        r.link is None,
        r.body matches Body::Text(t) && is_track_manifest(*track, pts_to_utc, t@),
{
    HttpResponse {
        status: 200,
        kind: ContentKind::Playlist,
        body: Body::Text(track_media_manifest(track, pts_to_utc)),
        link: None,
    }
}

fn fragment_response(r: Result<Vec<u8>, FragmentError>) -> (out: HttpResponse)
    ensures
        r matches Ok(b) ==> out.kind == ContentKind::Mp4 && (out.body matches Body::Binary(c) && c@ == b@),
        out.status == match r {
            Ok(_) => 200u16,
            Err(FragmentError::Segment(_)) => 404u16,
            Err(FragmentError::BuilderFailure) => 500u16,
        },
{
    match r {
        Ok(b) => HttpResponse { status: 200, kind: ContentKind::Mp4, body: Body::Binary(b), link: None },
        Err(FragmentError::Segment(_)) => plain(404, "No such segment"),
        Err(FragmentError::BuilderFailure) => plain(500, "Problem creating segment"),
    }
}

/// No segment of the track starts at `dts`.
pub open spec fn track_lacks_segment(t: Track, dts: i64) -> bool {
    match t {
        Track::Avc(a) => no_segment_at(a.samples@, a.starts(), dts),
        Track::Aac(a) => no_segment_at(a.samples@, a.starts(), dts),
    }
}

/// The samples served for the segment at `dts` of a track, or for one of its parts.
pub open spec fn served_run(t: Track, dts: i64, part: Option<u64>) -> Seq<Sample> {
    match t {
        Track::Avc(a) => run_of(
            a.samples@,
            a.seg_start(first_k(a.samples@, a.starts(), dts)),
            a.seg_end(first_k(a.samples@, a.starts(), dts)),
            part,
            VIDEO_SAMPLES_PER_PART as int,
        ),
        Track::Aac(a) => run_of(
            a.samples@,
            a.seg_start(first_k(a.samples@, a.starts(), dts)),
            a.seg_end(first_k(a.samples@, a.starts(), dts)),
            part,
            AUDIO_FRAMES_PER_PART as int,
        ),
    }
}

/// The fragment sequence number of the segment at `dts`, or of one of its parts.
pub open spec fn served_number(t: Track, dts: i64, part: Option<u64>) -> u32 {
    match (t, part) {
        (Track::Avc(a), None) => (a.first_seg_num + first_k(a.samples@, a.starts(), dts)) as u32,
        (Track::Aac(a), None) => (a.first_seg_num + first_k(a.samples@, a.starts(), dts)) as u32,
        (Track::Avc(a), Some(p)) => ((a.first_part_num + parts_upto(a.samples@, a.starts(), VIDEO_SAMPLES_PER_PART as int, dts, p as int, 0)) as u64) as u32,
        (Track::Aac(a), Some(p)) => ((a.first_part_num + parts_upto(a.samples@, a.starts(), AUDIO_FRAMES_PER_PART as int, dts, p as int, 0)) as u64) as u32,
    }
}

/// The answer to a segment or part request on an existing track: 404 when no
/// segment starts at `dts`, else the fragment of the served run, whose `tfdt`
/// carries the run's first pts.
pub open spec fn fragment_answer(t: Track, dts: i64, part: Option<u64>, resp: HttpResponse) -> bool {
    if track_lacks_segment(t, dts) {
        resp.status == 404
    } else {
        &&& resp.status == 200
        &&& resp.kind == ContentKind::Mp4
        &&& resp.body matches Body::Binary(b) && declared_decode_time(b@) == Some(
            base_decode_time(served_run(t, dts, part)) as int,
        ) && b@ == run_fragment(served_run(t, dts, part), t is Avc, served_number(t, dts, part))
    }
}

/// The answer to an initialization segment request on an existing track.
pub open spec fn init_answer(t: Track, resp: HttpResponse) -> bool {
    match t {
        Track::Avc(a) => if unsupported_avc_profile(a.sps.profile_idc) {
            resp.status == 500
        } else {
            &&& resp.status == 200
            &&& resp.kind == ContentKind::Mp4
            &&& resp.body matches Body::Binary(b) && b@ == avc_init_bytes(
                ((spec_dimensions(a.sps).0 as int * 0x1_0000) % 0x1_0000_0000) as u32,
                ((spec_dimensions(a.sps).1 as int * 0x1_0000) % 0x1_0000_0000) as u32,
                90000,
                0,
                spec_dimensions(a.sps).0 as u16,
                spec_dimensions(a.sps).1 as u16,
                a.sps.profile_idc,
                0,
                a.sps.level_idc,
                a.sps_bytes@,
                a.pps_bytes@,
            )
        },
        Track::Aac(a) => if spec_profile(a.audio_object_type) is Some && 2 <= a.frequency_index <= 12 && (
        a.channel_config == 1 || a.channel_config == 2) {
            &&& resp.status == 200
            &&& resp.kind == ContentKind::Mp4
            &&& resp.body matches Body::Binary(b) && b@ == aac_init_bytes(
                spec_fmp4_profile(spec_profile(a.audio_object_type)->0),
                spec_frequency(a.frequency_index)->0,
                spec_channels(a.channel_config)->0,
                90000,
                0,
            )
        } else {
            resp.status == 500
        },
    }
}

/// Answers a request for `path` (with the full request `uri`, for its query).
pub fn handle(store: &Store, path: &[u8], uri: &str) -> (r: Outcome)
    requires
        store.wf(),
    ensures
        match route_of(path@) {
            Route::Master => (r matches Outcome::Respond(resp) && resp.status == 200 && (resp.body matches Body::Text(
                t,
            ) && t@ == master_text(store.tracks@))),
            Route::Invalid(e) => (r matches Outcome::Respond(resp) && resp.status == path_error_status(e)),
            Route::Track(id, req) => if id >= store.tracks@.len() {
                (r matches Outcome::Respond(resp) && resp.status == 404)
            } else {
                match req {
                    TrackRequest::Invalid(e) => (r matches Outcome::Respond(resp) && resp.status
                        == path_error_status(e)),
                    TrackRequest::MediaManifest => exists|q: HlsRequest|
                        #![trigger uri_request(uri@, q)]
                        uri_request(uri@, q) && match r {
                            Outcome::Wait(tid, q2) => tid.0 == id && q2 == q && spec_decision(
                                store.tracks@[id as int].spec_msn() as u64,
                                q,
                            ) == ReloadDecision::Wait,
                            Outcome::Respond(resp) => match spec_decision(
                                store.tracks@[id as int].spec_msn() as u64,
                                q,
                            ) {
                                ReloadDecision::TooEarly => resp.status == 400 && resp.kind
                                    == ContentKind::Plain && (resp.body matches Body::Text(t) && t@
                                    == too_early_text(q.msn->0, store.tracks@[id as int].spec_msn() as u64)),
                                ReloadDecision::Respond => resp.status == 200 && resp.kind
                                    == ContentKind::Playlist && (resp.body matches Body::Text(t)
                                    && is_track_manifest(store.tracks@[id as int], store.pts_to_utc, t@)),
                                ReloadDecision::Wait => false,
                            },
                        },
                    TrackRequest::Init => (r matches Outcome::Respond(resp) && init_answer(
                        store.tracks@[id as int],
                        resp,
                    )),
                    TrackRequest::Segment(d) => (r matches Outcome::Respond(resp) && fragment_answer(
                        store.tracks@[id as int],
                        d,
                        None,
                        resp,
                    )),
                    TrackRequest::Part(d, p) => (r matches Outcome::Respond(resp) && fragment_answer(
                        store.tracks@[id as int],
                        d,
                        Some(p),
                        resp,
                    )),
                }
            },
        },
{
    match route(path) {
        Route::Master => Outcome::Respond(
            HttpResponse {
                status: 200,
                kind: ContentKind::Playlist,
                body: Body::Text(master_manifest(store)),
                link: None,
            },
        ),
        Route::Invalid(e) => Outcome::Respond(plain(if e == PathError::UnknownPath {
            404
        } else {
            400
        }, path_error_message(e))),
        Route::Track(id, req) => {
            let track = match store.get_track(TrackId(id)) {
                Some(t) => t,
                None => return Outcome::Respond(plain(404, "No such track")),
            };
            assert(store.tracks@[id as int].wf());
            match req {
                TrackRequest::Invalid(e) => Outcome::Respond(plain(
                    if e == PathError::NoTrackAction {
                        404
                    } else {
                        400
                    },
                    path_error_message(e),
                )),
                TrackRequest::MediaManifest => {
                    let q = hls_request_params(uri);
                    let current = track.media_sequence_number();
                    match reload_decision(current, &q) {
                        ReloadDecision::TooEarly => {
                            let m = q.msn.unwrap();
                            Outcome::Respond(
                                HttpResponse {
                                    status: 400,
                                    kind: ContentKind::Plain,
                                    body: Body::Text(too_early_message(m, current)),
                                    link: None,
                                },
                            )
                        },
                        ReloadDecision::Wait => Outcome::Wait(TrackId(id), q),
                        ReloadDecision::Respond => Outcome::Respond(
                            manifest_response(track, store.pts_to_utc),
                        ),
                    }
                },
                TrackRequest::Init => {
                    let init = match track {
                        Track::Avc(t) => make_avc_initialisation_segment(t),
                        Track::Aac(t) => make_aac_initialisation_segment(t),
                    };
                    match init {
                        Ok(b) => Outcome::Respond(
                            HttpResponse { status: 200, kind: ContentKind::Mp4, body: Body::Binary(b), link: None },
                        ),
                        Err(_) => Outcome::Respond(plain(500, "Problem creating initialisation segment")),
                    }
                },
                TrackRequest::Segment(d) => Outcome::Respond(
                    fragment_response(
                        match track {
                            Track::Avc(t) => make_avc_segment(t, d),
                            Track::Aac(t) => make_aac_segment(t, d),
                        },
                    ),
                ),
                TrackRequest::Part(d, p) => Outcome::Respond(
                    fragment_response(
                        match track {
                            Track::Avc(t) => make_avc_part(t, d, p),
                            Track::Aac(t) => make_aac_part(t, d, p),
                        },
                    ),
                ),
            }
        },
    }
}

/// The client asked for a part to be pushed.
pub open spec fn push_requested(req: HlsRequest) -> bool {
    &&& req.push matches Some(p) && p > 0
    &&& req.part is Some
}

/// Answers a waiting media manifest request once `seq` has woken it: the
/// manifest, and, when the client asked for a push of a named part, a
/// preload link to that part of the segment numbered `seq.seg`.
pub fn respond_after_wait(store: &Store, id: TrackId, req: &HlsRequest, seq: &TrackSequence) -> (r: Option<
    HttpResponse,
>)
    requires
        store.wf(),
    ensures
        r is Some <==> id.0 < store.tracks@.len(),
        r matches Some(resp) ==> resp.status == 200 && resp.kind == ContentKind::Playlist && (resp.body matches Body::Text(
            t,
        ) && is_track_manifest(store.tracks@[id.0 as int], store.pts_to_utc, t@)),
        r matches Some(resp) ==> (push_requested(*req) && exists|k: int|
            0 <= k < store.tracks@[id.0 as int].spec_segments().len()
                && #[trigger] store.tracks@[id.0 as int].spec_segments()[k].seq == seq.seg) ==> resp.link is Some,
        r matches Some(resp) ==> (resp.link is Some ==> push_requested(*req)),
        r matches Some(resp) ==> (resp.link matches Some(l) ==> exists|k: int|
            0 <= k < store.tracks@[id.0 as int].spec_segments().len()
                && #[trigger] store.tracks@[id.0 as int].spec_segments()[k].seq == seq.seg && l@
                == preload_text(id.0, store.tracks@[id.0 as int].spec_segments()[k].dts, req.part->0)),
{
    let track = match store.get_track(id) {
        Some(t) => t,
        None => return None,
    };
    assert(store.tracks@[id.0 as int].wf());
    let mut resp = manifest_response(track, store.pts_to_utc);
    let wants_push = match req.push {
        Some(p) => p > 0,
        None => false,
    };
    if wants_push {
        match req.part {
            Some(part) => {
                let segs = track.segments();
                let mut k: usize = 0;
                while k < segs.len()
                    invariant
                        k <= segs@.len(),
                        resp.status == 200,
                        resp.kind == ContentKind::Playlist,
                        push_requested(*req),
                        segs@ == track.spec_segments(),
                        *track == store.tracks@[id.0 as int],
                        resp.body matches Body::Text(t) && is_track_manifest(*track, store.pts_to_utc, t@),
                        (exists|j: int| 0 <= j < k && #[trigger] segs@[j].seq == seq.seg) ==> resp.link is Some,
                        resp.link matches Some(l) ==> exists|j: int|
                            0 <= j < segs@.len() && #[trigger] segs@[j].seq == seq.seg && l@ == preload_text(
                                id.0,
                                segs@[j].dts,
                                part,
                            ),
                    decreases segs@.len() - k,
                {
                    if segs[k].seq == seq.seg {
                        resp.link = Some(preload_link(id.0, segs[k].dts, part));
                        assert(segs@[k as int].seq == seq.seg);
                    }
                    k = k + 1;
                }
            },
            None => {},
        }
    }
    Some(resp)
}

} // verus!
