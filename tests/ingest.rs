use llhls::ingest::{IngestAdtsContext, IngestH264Context, PesTimes};
use llhls::model::{SegmentError, TrackSequence};
use llhls::sps::{ChromaFormat, SpsInfo};
use llhls::store::{Store, Track};
use llhls::timestamp::TIMESTAMP_MAX;

fn sps() -> SpsInfo {
    SpsInfo {
        profile_idc: 77,
        constraint_flags: [false; 8],
        level_idc: 31,
        pic_width_in_mbs_minus1: 79,
        pic_height_in_map_units_minus1: 44,
        frame_mbs_only: true,
        chroma_format: ChromaFormat::YUV420,
        frame_cropping: None,
    }
}

#[test]
fn pes_times_unwrap_across_the_wrap() {
    let mut t = PesTimes::new();
    t.set_pts_dts(Some(TIMESTAMP_MAX - 100), Some(TIMESTAMP_MAX - 3700));
    assert_eq!(t.sample_times(), ((TIMESTAMP_MAX - 3700) as i64, (TIMESTAMP_MAX - 100) as i64));
    // pts has wrapped while dts has not
    t.set_pts_dts(Some(3500), Some(TIMESTAMP_MAX - 100));
    assert_eq!(t.sample_times(), ((TIMESTAMP_MAX - 100) as i64, (TIMESTAMP_MAX + 1 + 3500) as i64));
    t.set_pts_dts(Some(7100), None);
    assert_eq!(t.sample_times(), ((TIMESTAMP_MAX + 1 + 7100) as i64, (TIMESTAMP_MAX + 1 + 7100) as i64));
    t.set_pts_dts(None, None);
    assert_eq!(t.sample_times(), (0, 0));
}

#[test]
fn slices_allocate_one_track_and_append() {
    let mut store = Store::new();
    let mut ctx = IngestH264Context::new(Some(5_000_000));
    ctx.times.set_pts_dts(Some(9000), None);
    let id = ctx.track(&mut store, sps(), vec![0x67, 0x4d], vec![0x68]);
    let again = ctx.track(&mut store, sps(), vec![0x67], vec![0x68]);
    assert_eq!(id, again);
    assert_eq!(store.tracks.len(), 1);
    assert_eq!(ctx.add_slice(&mut store, id, 0x65, vec![0x65, 1]), (true, Some(TrackSequence { seg: 0, part: 0 })));
    ctx.times.set_pts_dts(Some(5000), None);
    assert_eq!(ctx.add_slice(&mut store, id, 0x41, vec![0x41, 1]), (false, None));
    match store.get_track(id) {
        Some(Track::Avc(t)) => {
            assert_eq!(t.samples().len(), 1);
            assert_eq!(t.bandwidth(), Some(5_000_000));
            assert_eq!(t.sps_bytes(), &[0x67, 0x4d]);
        },
        _ => panic!("expected a video track"),
    }
}

#[test]
fn adts_frames_need_a_configuration() {
    let mut store = Store::new();
    let mut ctx = IngestAdtsContext::new(None);
    ctx.times.set_pts_dts(Some(1000), None);
    assert_eq!(ctx.payload(&mut store, vec![1, 2]), (false, None));
    let id = ctx.new_config(&mut store, 2, 3, 2);
    for k in 0..15u64 {
        ctx.times.set_pts_dts(Some(1000 + 1920 * k), None);
        let (ok, seq) = ctx.payload(&mut store, vec![1, 2]);
        assert!(ok);
        if k == 14 {
            assert_eq!(seq, Some(TrackSequence { seg: 0, part: 0 }));
        }
    }
    match store.get_track(id) {
        Some(Track::Aac(t)) => {
            assert_eq!(t.latest_dts(), Ok((1000 + 1920 * 14) as i64));
            assert_eq!(t.profile(), 2);
            assert_eq!(t.frequency(), 3);
            assert_eq!(t.channel_config(), 2);
            assert_eq!(t.channels(), Some(2));
        },
        _ => panic!("expected an audio track"),
    }
    let empty = llhls::aac::AacTrack::new(2, 3, 2, None);
    assert_eq!(empty.latest_dts(), Err(SegmentError::NoSegments));
}
