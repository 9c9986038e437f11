use llhls::hls::{master_manifest, media_manifest_of, program_date_time};
use llhls::model::{Sample, SampleHeader};
use llhls::sps::{ChromaFormat, FrameCropping, SpsInfo};
use llhls::store::{Store, TrackId};
use llhls::text::{ms_of_ticks, push_secs3, push_sdec};
use llhls::wallclock::{ClockTimestamp, DateTime, PicTimingIngest, pts_to_utc_offset};

fn sps() -> SpsInfo {
    SpsInfo {
        profile_idc: 100,
        constraint_flags: [false; 8],
        level_idc: 40,
        pic_width_in_mbs_minus1: 119,
        pic_height_in_map_units_minus1: 67,
        frame_mbs_only: true,
        chroma_format: ChromaFormat::YUV420,
        frame_cropping: Some(FrameCropping { left_offset: 0, right_offset: 0, top_offset: 0, bottom_offset: 4 }),
    }
}

fn frame(dts: i64, idr: bool) -> Sample {
    Sample { data: vec![1, 2], pts: dts, dts, header: SampleHeader::Avc(if idr { 0x25 } else { 0x21 }) }
}

fn two_segment_store() -> (Store, TrackId) {
    let mut store = Store::new();
    let id = store.allocate_avc_track(sps(), vec![0x67], vec![0x68], Some(1_000_000));
    for k in 0..16i64 {
        store.add_avc_sample(id, frame(k * 3600, k % 8 == 0));
    }
    (store, id)
}

#[test]
fn media_manifest_text() {
    let (store, id) = two_segment_store();
    let text = media_manifest_of(&store, id).unwrap();
    let expected = "#EXTM3U\n\
#EXT-X-VERSION:7\n\
#EXT-X-INDEPENDENT-SEGMENTS\n\
#EXT-X-PART-INF:PART-TARGET=0.320\n\
#EXT-X-SERVER-CONTROL:CAN-BLOCK-RELOAD=YES,PART-HOLD-BACK=0.960\n\
#EXT-X-TARGETDURATION:2\n\
#EXT-X-MAP:URI=\"init.mp4\"\n\
#EXT-X-PART:DURATION=0.320,URI=\"segment/0/part/0.mp4\",INDEPENDENT=YES\n\
#EXTINF:0.320,\n\
segment/0/seg.mp4\n\
#EXT-X-PART:DURATION=0.320,URI=\"segment/28800/part/0.mp4\",INDEPENDENT=YES\n";
    assert_eq!(text, expected);
    assert!(media_manifest_of(&store, TrackId(3)).is_none());
}

#[test]
fn program_date_time_line() {
    let (mut store, id) = two_segment_store();
    // 2024-01-01T00:00:00Z is 1704067200 s after the epoch
    store.set_pts_to_utc(1_704_067_200 * 90_000);
    let text = media_manifest_of(&store, id).unwrap();
    assert!(text.contains("#EXT-X-PROGRAM-DATE-TIME:2024-01-01T00:00:00.000Z\n"));
    assert_eq!(program_date_time(90, 1_704_067_200 * 90_000).unwrap(), "2024-01-01T00:00:00.001Z");
    assert_eq!(program_date_time(-1, 0).unwrap(), "1969-12-31T23:59:59.999Z");
}

#[test]
fn media_sequence_line_after_eviction() {
    let mut store = Store::new();
    let id = store.allocate_avc_track(sps(), vec![0x67], vec![0x68], None);
    for k in 0..80i64 {
        store.add_avc_sample(id, frame(k * 60 * 90_000, k % 4 == 0));
    }
    let text = media_manifest_of(&store, id).unwrap();
    let msn = store.get_track(id).unwrap().segments()[0].sequence_number();
    assert!(msn > 0);
    assert!(text.contains(&format!("#EXT-X-MEDIA-SEQUENCE:{}\n", msn)));
    assert!(text.contains("#EXTINF:240.000,\n"));
}

#[test]
fn master_manifest_text() {
    let (mut store, _) = two_segment_store();
    store.allocate_aac_track(2, 3, 2, None);
    let expected = "#EXTM3U\n\
#EXT-X-VERSION:7\n\
#EXT-X-INDEPENDENT-SEGMENTS\n\
\n\
#EXT-X-STREAM-INF:BANDWIDTH=1000000,RESOLUTION=1920x1080,AUDIO=\"default-audio-group\"\n\
track/0/media.m3u8\n\
#EXT-X-MEDIA:TYPE=AUDIO,URI=\"track/1/media.m3u8\",GROUP-ID=\"default-audio-group\",NAME=\"audio-1\",AUTOSELECT=YES,CHANNELS=\"2\"\n";
    assert_eq!(master_manifest(&store), expected);
}

#[test]
fn number_text() {
    let mut s = String::new();
    push_secs3(&mut s, ms_of_ticks(172_800));
    s.push(' ');
    push_secs3(&mut s, ms_of_ticks(44));
    s.push(' ');
    push_secs3(&mut s, ms_of_ticks(45));
    s.push(' ');
    push_sdec(&mut s, i64::MIN);
    assert_eq!(s, "1.920 0.000 0.001 -9223372036854775808");
}

#[test]
fn clock_timestamp_offsets() {
    let day = 19_723u64;
    let now = DateTime { date: day, time_of_day_micros: 1_000_000 };
    let midnight = ClockTimestamp { hours: 0, minutes: 0, seconds: 0, n_frames: 0 };
    assert_eq!(pts_to_utc_offset(midnight, now, 0), Some((day * 86_400 * 90_000) as i64));
    let late = ClockTimestamp { hours: 23, minutes: 59, seconds: 59, n_frames: 5 };
    let expected = ((day - 1) * 86_400 * 90_000 + 86_399 * 90_000 + 18_000) as i64 - 500;
    assert_eq!(pts_to_utc_offset(late, now, 500), Some(expected));
    let evening = DateTime { date: day, time_of_day_micros: 86_399_000_000 };
    assert_eq!(pts_to_utc_offset(midnight, evening, 0), Some(((day + 1) * 86_400 * 90_000) as i64));
    let mut ingest = PicTimingIngest::default();
    assert_eq!(ingest.handle(midnight, now, None), None);
    assert_eq!(ingest.handle(midnight, now, Some(10)), Some((day * 86_400 * 90_000) as i64 - 10));
    assert_eq!(ingest.adjust_pts_to_utc(10), (day * 86_400 * 90_000) as i64);
}

#[test]
fn local_clock() {
    let now = DateTime::now().unwrap();
    assert!(now.time_of_day_micros < 86_400_000_000);
    assert!(now.date > 19_000);
    let d = DateTime::from_unix(86_400 * 19_723 + 3600, 5);
    assert_eq!(d, DateTime { date: 19_723, time_of_day_micros: 3_600_000_005 });
}

#[test]
fn empty_track_manifest() {
    let mut store = Store::new();
    let id = store.allocate_avc_track(sps(), vec![0x67], vec![0x68], None);
    store.set_pts_to_utc(0);
    let text = media_manifest_of(&store, id).unwrap();
    assert_eq!(
        text,
        "#EXTM3U\n#EXT-X-VERSION:7\n#EXT-X-INDEPENDENT-SEGMENTS\n#EXT-X-PART-INF:PART-TARGET=0.320\n\
#EXT-X-SERVER-CONTROL:CAN-BLOCK-RELOAD=YES,PART-HOLD-BACK=0.960\n#EXT-X-TARGETDURATION:2\n#EXT-X-MAP:URI=\"init.mp4\"\n"
    );
    let track = store.get_track(id).unwrap();
    assert_eq!(track.media_sequence_number(), 0);
    assert!(track.segments().is_empty());
}

#[test]
fn audio_rendition_channels() {
    let mut store = Store::new();
    store.allocate_aac_track(2, 3, 7, None);
    store.allocate_aac_track(2, 3, 0, None);
    let text = master_manifest(&store);
    assert!(text.contains("NAME=\"audio-0\",AUTOSELECT=YES,CHANNELS=\"8\"\n"));
    assert!(text.contains("NAME=\"audio-1\",AUTOSELECT=YES\n"));
}
