use llhls::avc::AvcTrack;
use llhls::aac::AacTrack;
use llhls::encode::find_tfdt;
use llhls::fragment::FragmentSample;
use llhls::init::{make_aac_initialisation_segment, make_avc_initialisation_segment, InitError};
use llhls::media::{create_avc_stream, create_aac_stream, make_avc_part, make_avc_segment, make_aac_segment, FragmentError};
use llhls::model::{Sample, SampleHeader, SegmentError};
use llhls::sps::{ChromaFormat, SpsInfo};

fn sps() -> SpsInfo {
    SpsInfo {
        profile_idc: 66,
        constraint_flags: [false; 8],
        level_idc: 30,
        pic_width_in_mbs_minus1: 39,
        pic_height_in_map_units_minus1: 29,
        frame_mbs_only: true,
        chroma_format: ChromaFormat::YUV420,
        frame_cropping: None,
    }
}

fn slice(dts: i64, pts: i64, idr: bool, data: Vec<u8>) -> Sample {
    Sample { data, pts, dts, header: SampleHeader::Avc(if idr { 0x65 } else { 0x41 }) }
}

fn reordered_track() -> AvcTrack {
    let mut t = AvcTrack::new(sps(), vec![0x67, 0x42], vec![0x68, 0xce], None);
    t.push(slice(1000, 1000, true, vec![0x65, 1, 2, 3]));
    t.push(slice(4600, 9000, false, vec![0x41, 9]));
    t.push(slice(8200, 4600, false, vec![0x41, 8]));
    t.push(slice(11800, 11800, false, vec![0x41, 7]));
    t.push(slice(15400, 15400, true, vec![0x65, 4]));
    t
}

fn read_be32(b: &[u8], off: usize) -> u32 {
    u32::from_be_bytes([b[off], b[off + 1], b[off + 2], b[off + 3]])
}

#[test]
fn durations_follow_presentation_order() {
    let t = reordered_track();
    let plan = create_avc_stream(&t, 1000, None, 0).unwrap();
    let durations: Vec<Option<u32>> = plan.samples.iter().map(|s| s.duration).collect();
    assert_eq!(durations, vec![Some(3600), Some(2800), Some(4400), Some(3600)]);
    assert_eq!(plan.samples[1], FragmentSample { duration: Some(2800), size: 6, composition_time_offset: 4400 });
    assert_eq!(plan.samples[2].composition_time_offset, -3600);
    assert_eq!(plan.samples[0].size, 8);
    assert_eq!(plan.base_media_decode_time, 1000);
    assert_eq!(&plan.data[0..8], &[0, 0, 0, 4, 0x65, 1, 2, 3]);
    assert_eq!(plan.data.len(), 8 + 6 + 6 + 6);
}

#[test]
fn wrapped_pts_sort_after_the_first_sample() {
    let mut t = AvcTrack::new(sps(), vec![0x67], vec![0x68], None);
    let near_wrap = (1i64 << 33) - 3600;
    t.push(slice(0, near_wrap, true, vec![0x65]));
    t.push(slice(3600, 1800, false, vec![0x41]));
    t.push(slice(7200, 0, false, vec![0x41]));
    let plan = create_avc_stream(&t, 0, None, 0).unwrap();
    let durations: Vec<Option<u32>> = plan.samples.iter().map(|s| s.duration).collect();
    assert_eq!(durations, vec![Some(3600), Some(3600), Some(1800)]);
    assert_eq!(plan.base_media_decode_time, (near_wrap % (1i64 << 32)) as u32);
}

#[test]
fn segment_declares_its_dts_as_decode_time() {
    let t = reordered_track();
    for seg in t.segments() {
        let bytes = make_avc_segment(&t, seg.id()).unwrap();
        assert_eq!(&bytes[4..8], b"moof");
        let off = find_tfdt(&bytes).unwrap();
        assert_eq!(&bytes[off - 8..off - 4], b"tfdt");
        assert_eq!(read_be32(&bytes, off) as i64, seg.id() % (1i64 << 32));
        // the track run's data offset points just past the mdat header
        let moof_size = read_be32(&bytes, 0) as usize;
        assert_eq!(&bytes[moof_size + 4..moof_size + 8], b"mdat");
    }
}

#[test]
fn part_and_error_fragments() {
    let t = reordered_track();
    let part = make_avc_part(&t, 1000, 0).unwrap();
    assert_eq!(&part[4..8], b"moof");
    assert_eq!(make_avc_segment(&t, 5).err(), Some(FragmentError::Segment(SegmentError::BadSampleTime(5))));
    assert_eq!(make_avc_part(&t, 5, 0).err(), Some(FragmentError::Segment(SegmentError::BadSampleTime(5))));
    let plan = create_avc_stream(&t, 1000, Some(0), 9).unwrap();
    assert_eq!(plan.samples.len(), 4);
    assert_eq!(plan.sequence_number, 9);
    let empty = create_avc_stream(&t, 1000, Some(3), 9).unwrap();
    assert_eq!(empty.samples.len(), 0);
}

#[test]
fn audio_fragment_rows() {
    let mut t = AacTrack::new(2, 4, 2, None);
    for k in 0..20i64 {
        t.push(Sample { data: vec![1, 2, 3], pts: 500 + k * 1920, dts: 500 + k * 1920, header: SampleHeader::Aac });
    }
    let plan = create_aac_stream(&t, 500, Some(1), 2).unwrap();
    assert_eq!(plan.samples.len(), 5);
    assert!(plan.samples.iter().all(|s| s.duration == Some(1920) && s.size == 3));
    assert_eq!(plan.base_media_decode_time, (500 + 15 * 1920) as u32);
    assert_eq!(plan.default_sample_duration, Some(1024));
    let bytes = make_aac_segment(&t, 500).unwrap();
    let off = find_tfdt(&bytes).unwrap();
    assert_eq!(read_be32(&bytes, off), 500);
}

#[test]
fn initialisation_segments() {
    let t = reordered_track();
    let init = make_avc_initialisation_segment(&t).unwrap();
    assert_eq!(&init[4..8], b"ftyp");
    assert!(init.windows(4).any(|w| w == b"avcC"));
    let a = AacTrack::new(2, 4, 2, None);
    let init = make_aac_initialisation_segment(&a).unwrap();
    assert!(init.windows(4).any(|w| w == b"esds"));
    assert_eq!(make_aac_initialisation_segment(&AacTrack::new(7, 4, 2, None)).err(), Some(InitError::UnknownProfile));
    assert_eq!(make_aac_initialisation_segment(&AacTrack::new(2, 13, 2, None)).err(), Some(InitError::UnknownFrequency));
    assert_eq!(make_aac_initialisation_segment(&AacTrack::new(2, 4, 9, None)).err(), Some(InitError::UnknownChannels));
    assert_eq!(make_aac_initialisation_segment(&AacTrack::new(2, 4, 6, None)).err(), Some(InitError::Unsupported));
    assert_eq!(make_aac_initialisation_segment(&AacTrack::new(2, 1, 2, None)).err(), Some(InitError::Unsupported));
    // 64 kHz is written
    let init64 = make_aac_initialisation_segment(&AacTrack::new(2, 2, 1, None)).unwrap();
    assert!(init64.windows(4).any(|w| w == b"mp4a"));
    let mut high = sps();
    high.profile_idc = 100;
    let t = AvcTrack::new(high, vec![0x67], vec![0x68], None);
    assert_eq!(make_avc_initialisation_segment(&t).err(), Some(InitError::Writer));
}

#[test]
fn run_duration_and_start_time() {
    let t = reordered_track();
    let plan = create_avc_stream(&t, 1000, None, 0).unwrap();
    assert_eq!(plan.duration(), Some(3600 + 2800 + 4400 + 3600));
    assert_eq!(plan.start_time(), 0);
    let part = create_avc_stream(&t, 1000, Some(7), 0).unwrap();
    assert_eq!(part.duration(), Some(0));
    assert_eq!(part.start_time(), 0);
}
