use llhls::avc::AvcTrack;
use llhls::aac::AacTrack;
use llhls::model::{
    Sample, SampleHeader, SegmentError, SegmentInfo, PartInfo, TrackSequence, ARCHIVE_LIMIT,
};
use llhls::sps::{ChromaFormat, FrameCropping, SpsInfo};
use llhls::store::{Store, Track, TrackId};

fn sps() -> SpsInfo {
    SpsInfo {
        profile_idc: 100,
        constraint_flags: [false; 8],
        level_idc: 40,
        pic_width_in_mbs_minus1: 119,
        pic_height_in_map_units_minus1: 67,
        frame_mbs_only: true,
        chroma_format: ChromaFormat::YUV420,
        frame_cropping: Some(FrameCropping { left_offset: 0, right_offset: 0, top_offset: 0, bottom_offset: 4 }),
    }
}

fn idr(dts: i64) -> Sample {
    Sample { data: vec![0x65, 1, 2, 3], pts: dts, dts, header: SampleHeader::Avc(0x65) }
}

fn p_frame(dts: i64) -> Sample {
    Sample { data: vec![0x41, 9], pts: dts, dts, header: SampleHeader::Avc(0x41) }
}

fn aac(dts: i64) -> Sample {
    Sample { data: vec![0x21, 0x10], pts: dts, dts, header: SampleHeader::Aac }
}

fn avc_track() -> AvcTrack {
    AvcTrack::new(sps(), vec![0x67, 1], vec![0x68, 2], Some(1_000_000))
}

#[test]
fn video_segment_boundary() {
    let mut t = avc_track();
    t.push(idr(1000));
    for k in 1..8 {
        t.push(p_frame(1000 + 3600 * k));
    }
    t.push(idr(1000 + 8 * 3600));
    let segs = t.segments();
    assert_eq!(segs[0], SegmentInfo { dts: 1000, seq: 0, duration: Some(28800), continuous: true });
    assert_eq!(segs[1].duration, None);
    assert_eq!(segs.len(), 2);
}

#[test]
fn part_independence_flag() {
    let mut t = avc_track();
    t.push(idr(0));
    for k in 1..20 {
        t.push(p_frame(3600 * k));
    }
    let parts = t.parts(0).unwrap();
    assert_eq!(parts.len(), 2);
    assert_eq!(parts[0], PartInfo { part_id: 0, duration: Some(28800), continuous: true, independent: true });
    assert!(!parts[1].is_independent());
    assert_eq!(parts[1].id(), 1);
}

#[test]
fn every_listed_segment_yields_its_first_sample() {
    let mut t = avc_track();
    t.push(p_frame(0));
    for k in 1..40i64 {
        if k % 10 == 1 { t.push(idr(3600 * k)) } else { t.push(p_frame(3600 * k)) };
    }
    for s in t.segments() {
        let samples = t.segment_samples(s.id()).unwrap();
        assert!(!samples.is_empty());
        assert_eq!(samples[0].dts, s.id());
    }
    assert_eq!(t.segment_samples(7).err(), Some(SegmentError::BadSampleTime(7)));
    assert_eq!(t.parts(7).err(), Some(SegmentError::BadSampleTime(7)));
}

#[test]
fn media_sequence_number_counts_evicted_segments() {
    let mut t = avc_track();
    let gop = 5i64;
    let mut idrs = 0u64;
    let mut dts = 0i64;
    // one sample a minute, for a little over two hours
    for i in 0..130i64 {
        if i % gop == 0 {
            t.push(idr(dts));
            idrs += 1;
        } else {
            t.push(p_frame(dts));
        }
        dts += 60 * 90_000;
    }
    assert!(t.first_seg_num > 0);
    assert_eq!(t.media_sequence_number(), idrs);
    assert_eq!(t.segments()[0].sequence_number(), t.first_seg_num);
    let first = t.samples().front().unwrap().dts;
    let last = t.samples().back().unwrap().dts;
    assert!((last - first) as u64 <= ARCHIVE_LIMIT);
}

#[test]
fn audio_buffer_stays_within_archive_limit() {
    let mut t = AacTrack::new(2, 3, 2, None);
    let mut dts = 0i64;
    // one frame every ten seconds, for a little over two hours
    for _ in 0..750 {
        t.push(aac(dts));
        dts += 10 * 90_000;
    }
    let first = t.samples().front().unwrap().dts;
    let last = t.samples().back().unwrap().dts;
    assert!((last - first) as u64 <= ARCHIVE_LIMIT);
    assert!(t.first_seg_num > 0);
    let segs = t.segments();
    assert_eq!(segs[0].sequence_number(), t.first_seg_num);
    assert_eq!(t.media_sequence_number(), t.first_seg_num + segs.len() as u64);
}

#[test]
fn published_value_names_newest_segment_and_part() {
    let mut store = Store::new();
    let id = store.allocate_avc_track(sps(), vec![0x67], vec![0x68], None);
    let mut last = None;
    for k in 0..30i64 {
        let s = if k % 20 == 0 { idr(k * 3600) } else { p_frame(k * 3600) };
        assert!(store.can_add_avc_sample(id, &s));
        last = store.add_avc_sample(id, s);
        if k == 0 {
            // a segment exists from its first sample on
            assert_eq!(last, Some(TrackSequence { seg: 0, part: 0 }));
        }
    }
    let msn = store.get_track(id).unwrap().media_sequence_number();
    assert_eq!(msn, 2);
    // second segment holds 10 samples: one complete part
    assert_eq!(last, Some(TrackSequence { seg: msn - 1, part: 0 }));
}

#[test]
fn audio_segments_and_parts() {
    let mut t = AacTrack::new(2, 3, 2, None);
    for k in 0..100i64 {
        t.push(aac(k * 1920));
    }
    let segs = t.segments();
    assert_eq!(segs.len(), 2);
    assert_eq!(segs[0], SegmentInfo { dts: 0, seq: 0, duration: Some(172800), continuous: true });
    assert_eq!(segs[1].dts, 90 * 1920);
    assert_eq!(segs[1].duration, None);
    assert_eq!(t.parts(0).unwrap().len(), 6);
    assert!(t.parts(0).unwrap().iter().all(|p| !p.is_independent()));
    assert_eq!(t.parts(90 * 1920).unwrap().len(), 0);
    assert_eq!(t.segment_samples(90 * 1920).unwrap().len(), 10);
    assert_eq!(t.current_sequence(), Some(TrackSequence { seg: 1, part: 0 }));
    assert_eq!(t.segment_number_for(90 * 1920), Some(1));
    assert_eq!(t.part_number_for(0, 2), Some(3));
    assert_eq!(t.part_number_for(90 * 1920, 0), Some(6));
}

#[test]
fn numbering_queries() {
    let mut t = avc_track();
    for k in 0..40i64 {
        if k % 16 == 0 { t.push(idr(k * 3600)) } else { t.push(p_frame(k * 3600)) };
    }
    assert_eq!(t.segment_number_for(16 * 3600), Some(1));
    assert_eq!(t.segment_number_for(3600), None);
    // segments 0 and 1 have two parts each, segment 2 one
    assert_eq!(t.part_number_for(16 * 3600, 0), Some(3));
    assert_eq!(t.part_number_for(0, 5), Some(2));
    assert_eq!(t.sample(3600).unwrap().dts, 3600);
    assert!(t.sample(1).is_none());
    assert!(t.has_parts(0));
    assert!(!t.has_parts(39 * 3600 - 3 * 172800 - 1));
}

#[test]
fn store_tracks_and_acceptance() {
    let mut store = Store::new();
    let v = store.allocate_avc_track(sps(), vec![0x67], vec![0x68], None);
    let a = store.allocate_aac_track(2, 4, 2, Some(128_000));
    assert_eq!(v, TrackId(0));
    assert_eq!(a, TrackId(1));
    assert_eq!(store.track_list().len(), 2);
    assert_eq!(store.track_list()[1].track_id, TrackId(1));
    assert!(!store.can_add_avc_sample(a, &idr(0)));
    assert!(!store.can_add_aac_sample(v, &aac(0)));
    assert!(!store.can_add_aac_sample(TrackId(5), &aac(0)));
    store.add_aac_sample(a, aac(100));
    assert!(!store.can_add_aac_sample(a, &aac(99)));
    assert!(store.can_add_aac_sample(a, &aac(100)));
    assert!(store.get_track(TrackId(2)).is_none());
    assert!(matches!(store.get_track(a), Some(Track::Aac(_))));
    assert!(!store.has_pts_to_utc());
    store.set_pts_to_utc(42);
    assert_eq!(store.pts_to_utc(), Some(42));
}

#[test]
fn dimensions_and_codec_string() {
    let t = avc_track();
    assert_eq!(t.dimensions(), (1920, 1080));
    assert_eq!(t.rfc6381_codec(), "avc1.640028");
    let mut s = sps();
    s.constraint_flags = [true, false, true, false, false, false, false, false];
    s.frame_mbs_only = false;
    s.pic_height_in_map_units_minus1 = 33;
    s.frame_cropping = Some(FrameCropping { left_offset: 1, right_offset: 1, top_offset: 0, bottom_offset: 1 });
    assert_eq!(s.rfc6381_codec(), "avc1.640528");
    assert_eq!(s.dimensions(), (1916, 1084));
    s.chroma_format = ChromaFormat::YUV444;
    assert_eq!(s.dimensions(), (1918, 1086));
}

#[test]
fn part_numbers_survive_eviction() {
    let mut t = avc_track();
    // thirty seconds a frame, sixteen frames a segment: eight minutes each
    let step = 30 * 90_000i64;
    let mut k = 0i64;
    while k < 112 {
        if k % 16 == 0 { t.push(idr(k * step)) } else { t.push(p_frame(k * step)) };
        k += 1;
    }
    let target = 96 * step;
    let before = t.part_number_for(target, 1).unwrap();
    let evicted_before = t.first_seg_num;
    while k < 160 {
        if k % 16 == 0 { t.push(idr(k * step)) } else { t.push(p_frame(k * step)) };
        k += 1;
    }
    assert!(t.first_seg_num > evicted_before);
    assert_eq!(t.part_number_for(target, 1).unwrap(), before);
    assert_eq!(t.first_part_num, 2 * t.first_seg_num);
}

#[test]
fn timing_gap_marks_a_discontinuity() {
    let mut t = avc_track();
    t.push(idr(0));
    t.push(p_frame(3600));
    t.push(idr(7200));
    t.push(p_frame(10800));
    t.push(idr(10800 + 172_801));
    let segs = t.segments();
    assert!(segs[0].is_continuous());
    assert!(segs[1].is_continuous());
    assert!(!segs[2].is_continuous());
}
