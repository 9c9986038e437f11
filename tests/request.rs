use llhls::model::{Sample, SampleHeader, TrackSequence};
use llhls::request::{hls_request_params, reload_decision, route, wakes, HlsRequest, PathError, ReloadDecision, Route, TrackRequest};
use llhls::respond::{handle, preload_link, respond_after_wait, too_early_message, Body, ContentKind, Outcome};
use llhls::sps::{ChromaFormat, SpsInfo};
use llhls::store::{Store, TrackId};

fn sps() -> SpsInfo {
    SpsInfo {
        profile_idc: 66,
        constraint_flags: [false; 8],
        level_idc: 30,
        pic_width_in_mbs_minus1: 39,
        pic_height_in_map_units_minus1: 29,
        frame_mbs_only: true,
        chroma_format: ChromaFormat::YUV420,
        frame_cropping: None,
    }
}

fn frame(dts: i64, idr: bool) -> Sample {
    Sample { data: vec![7], pts: dts, dts, header: SampleHeader::Avc(if idr { 0x65 } else { 0x41 }) }
}

#[test]
fn routes() {
    assert_eq!(route(b"/master.m3u8"), Route::Master);
    assert_eq!(route(b"/track/3/segment/-90/part/2.mp4"), Route::Track(3, TrackRequest::Part(-90, 2)));
    assert_eq!(route(b"/track/+1/init.mp4"), Route::Track(1, TrackRequest::Init));
    assert_eq!(route(b"/track/0/media.m3u8"), Route::Track(0, TrackRequest::MediaManifest));
    assert_eq!(route(b"/track/2/segment/28800/seg.mp4"), Route::Track(2, TrackRequest::Segment(28800)));
    assert_eq!(route(b"/track/x/media.m3u8"), Route::Invalid(PathError::BadTrackId));
    assert_eq!(route(b"/track/1"), Route::Track(1, TrackRequest::Invalid(PathError::NoTrackAction)));
    assert_eq!(route(b"/track/1/foo"), Route::Track(1, TrackRequest::Invalid(PathError::UnknownTrackAction)));
    assert_eq!(route(b"/track/1/segment/abc/seg.mp4"), Route::Track(1, TrackRequest::Invalid(PathError::InvalidSegmentId)));
    assert_eq!(route(b"/track/1/segment/5"), Route::Track(1, TrackRequest::Invalid(PathError::UnknownSegmentKind)));
    assert_eq!(route(b"/track/1/segment/5/other"), Route::Track(1, TrackRequest::Invalid(PathError::UnknownSegmentKind)));
    assert_eq!(route(b"/track/1/segment/5/part/2.mp5"), Route::Track(1, TrackRequest::Invalid(PathError::InvalidPartRequest)));
    assert_eq!(route(b"/track/1/segment/5/part/x.mp4"), Route::Track(1, TrackRequest::Invalid(PathError::InvalidPartId)));
    assert_eq!(route(b"/track/1/segment/99999999999999999999/seg.mp4"), Route::Track(1, TrackRequest::Invalid(PathError::InvalidSegmentId)));
    assert_eq!(route(b"/nothing"), Route::Invalid(PathError::UnknownPath));
}

#[test]
fn query_parameters() {
    let q = hls_request_params("/track/0/media.m3u8?_HLS_msn=6&_HLS_part=2&_HLS_push=1");
    assert_eq!(q, HlsRequest { msn: Some(6), part: Some(2), push: Some(1) });
    let q = hls_request_params("/track/0/media.m3u8?_HLS_part=70000&x=1&_HLS_msn=%2B4");
    assert_eq!(q, HlsRequest { msn: Some(4), part: None, push: None });
    let q = hls_request_params("/track/0/media.m3u8");
    assert_eq!(q, HlsRequest { msn: None, part: None, push: None });
}

#[test]
fn reload_decisions() {
    let req = |msn, part| HlsRequest { msn, part, push: None };
    assert_eq!(reload_decision(5, &req(None, None)), ReloadDecision::Respond);
    assert_eq!(reload_decision(5, &req(Some(6), None)), ReloadDecision::Wait);
    assert_eq!(reload_decision(5, &req(Some(7), None)), ReloadDecision::TooEarly);
    assert_eq!(reload_decision(5, &req(Some(5), Some(1))), ReloadDecision::Wait);
    assert_eq!(reload_decision(5, &req(Some(5), None)), ReloadDecision::Respond);
    assert_eq!(reload_decision(5, &req(Some(3), Some(1))), ReloadDecision::Respond);
    assert!(!wakes(&TrackSequence { seg: 5, part: 3 }, &req(Some(6), None)));
    assert!(wakes(&TrackSequence { seg: 6, part: 0 }, &req(Some(6), None)));
    assert!(!wakes(&TrackSequence { seg: 6, part: 0 }, &req(Some(6), Some(1))));
    assert!(wakes(&TrackSequence { seg: 7, part: 0 }, &req(Some(6), Some(1))));
    assert_eq!(too_early_message(7, 5), "Sequence number 7 requested too early (5 + 2)");
    assert_eq!(preload_link(0, 28800, 1), "</track/0/segment/28800/part/1.mp4>; rel=preload; as=video; type=video/mp4");
}

#[test]
fn blocking_reload() {
    let mut store = Store::new();
    let id = store.allocate_avc_track(sps(), vec![0x67], vec![0x68], None);
    let mut dts = 0i64;
    // five segments of ten frames
    for k in 0..50 {
        store.add_avc_sample(id, frame(dts, k % 10 == 0));
        dts += 3600;
    }
    assert_eq!(store.get_track(id).unwrap().media_sequence_number(), 5);
    let waiting = handle(&store, b"/track/0/media.m3u8", "/track/0/media.m3u8?_HLS_msn=6&_HLS_part=0&_HLS_push=1");
    let req = match waiting {
        Outcome::Wait(tid, q) => {
            assert_eq!(tid, TrackId(0));
            q
        },
        Outcome::Respond(_) => panic!("expected a wait"),
    };
    match handle(&store, b"/track/0/media.m3u8", "/track/0/media.m3u8?_HLS_msn=7") {
        Outcome::Respond(r) => {
            assert_eq!(r.status, 400);
            assert!(matches!(r.body, Body::Text(ref t) if t == "Sequence number 7 requested too early (5 + 2)"));
        },
        Outcome::Wait(..) => panic!("expected a refusal"),
    }
    // one more IDR: segment 5 starts, still below the awaited segment 6
    let mut published = None;
    for k in 0..10 {
        published = store.add_avc_sample(id, frame(dts, k == 0));
        dts += 3600;
    }
    assert_eq!(published, Some(TrackSequence { seg: 5, part: 0 }));
    assert!(!wakes(&published.unwrap(), &req));
    let seg6_dts = dts;
    // the IDR that opens segment 6 publishes it at once
    published = store.add_avc_sample(id, frame(dts, true));
    dts += 3600;
    assert_eq!(published, Some(TrackSequence { seg: 6, part: 0 }));
    let by_segment = HlsRequest { msn: Some(6), part: None, push: None };
    assert!(wakes(&published.unwrap(), &by_segment));
    for _ in 1..8 {
        published = store.add_avc_sample(id, frame(dts, false));
        dts += 3600;
    }
    let seq = published.unwrap();
    assert_eq!(seq, TrackSequence { seg: 6, part: 0 });
    assert!(wakes(&seq, &req));
    let resp = respond_after_wait(&store, TrackId(0), &req, &seq).unwrap();
    assert_eq!(resp.status, 200);
    assert_eq!(resp.kind, ContentKind::Playlist);
    assert!(matches!(resp.body, Body::Text(ref t) if t.contains(&format!("segment/{}/part/0.mp4", seg6_dts))));
    assert_eq!(resp.link, Some(format!("</track/0/segment/{}/part/0.mp4>; rel=preload; as=video; type=video/mp4", seg6_dts)));
}

#[test]
fn responses() {
    let mut store = Store::new();
    let id = store.allocate_avc_track(sps(), vec![0x67], vec![0x68], None);
    for k in 0..12i64 {
        store.add_avc_sample(id, frame(k * 3600, k % 10 == 0));
    }
    let status = |path: &[u8]| match handle(&store, path, "") {
        Outcome::Respond(r) => r.status,
        Outcome::Wait(..) => 0,
    };
    assert_eq!(status(b"/master.m3u8"), 200);
    assert_eq!(status(b"/track/0/media.m3u8"), 200);
    assert_eq!(status(b"/track/0/init.mp4"), 200);
    assert_eq!(status(b"/track/0/segment/0/seg.mp4"), 200);
    assert_eq!(status(b"/track/0/segment/0/part/0.mp4"), 200);
    assert_eq!(status(b"/track/0/segment/1/seg.mp4"), 404);
    assert_eq!(status(b"/track/9/init.mp4"), 404);
    assert_eq!(status(b"/track/0"), 404);
    assert_eq!(status(b"/track/0/bogus"), 400);
    assert_eq!(status(b"/elsewhere"), 404);
    match handle(&store, b"/track/0/segment/0/seg.mp4", "") {
        Outcome::Respond(r) => {
            assert_eq!(r.kind, ContentKind::Mp4);
            assert!(matches!(r.body, Body::Binary(ref b) if &b[4..8] == b"moof"));
        },
        Outcome::Wait(..) => panic!("expected a response"),
    }
}
