//! fMP4 initialization segments (`ftyp` + `moov`) of the tracks.

use mse_fmp4::aac;
use mse_fmp4::fmp4;
use mse_fmp4::io::WriteTo;
use vstd::prelude::*;
use crate::aac::AacTrack;
use crate::avc::AvcTrack;
use crate::sps::spec_dimensions;

verus! {



#[verifier::external_type_specification]
pub struct ExAacProfile(aac::AacProfile);

#[verifier::external_type_specification]
pub struct ExSamplingFrequency(aac::SamplingFrequency);

#[verifier::external_type_specification]
pub struct ExChannelConfiguration(aac::ChannelConfiguration);

/// Timescale of every media track: the 90 kHz MPEG-TS clock.
pub const MEDIA_TIMESCALE: u32 = 90000;

/// AAC profiles that an `esds` box can carry.
#[derive(Debug, Clone, Copy, PartialEq, Eq, Structural)]
pub enum AudioProfile {
    Main,
    Lc,
    Ssr,
    Ltp,
}

/// The profile of an MPEG-4 audio object type (1 to 4).
pub open spec fn spec_profile(aot: u8) -> Option<AudioProfile> {
    if aot == 1 {
        Some(AudioProfile::Main)
    } else if aot == 2 {
        Some(AudioProfile::Lc)
    } else if aot == 3 {
        Some(AudioProfile::Ssr)
    } else if aot == 4 {
        Some(AudioProfile::Ltp)
    } else {
        None
    }
}

pub fn audio_profile(aot: u8) -> (r: Option<AudioProfile>)
    ensures
        r == spec_profile(aot),
{
    match aot {
        1 => Some(AudioProfile::Main),
        2 => Some(AudioProfile::Lc),
        3 => Some(AudioProfile::Ssr),
        4 => Some(AudioProfile::Ltp),
        _ => None,
    }
}

/// Failures of initialization segment assembly.
#[derive(Debug, Clone, Copy, PartialEq, Eq, Structural)]
pub enum InitError {
    /// The audio object type is not one of the four AAC profiles.
    UnknownProfile,
    /// The sampling frequency index is reserved (13 and above).
    UnknownFrequency,
    /// The channel configuration is above 7.
    UnknownChannels,
    /// The box writer does not describe this configuration: only one or two
    /// channels, at 64 kHz or below (frequency index 2 and above).
    Unsupported,
    /// The box writer refused the segment.
    Writer,
}

/// The mse_fmp4 profile of ours.
pub open spec fn spec_fmp4_profile(p: AudioProfile) -> aac::AacProfile {
    match p {
        AudioProfile::Main => aac::AacProfile::Main,
        AudioProfile::Lc => aac::AacProfile::Lc,
        AudioProfile::Ssr => aac::AacProfile::Ssr,
        AudioProfile::Ltp => aac::AacProfile::Ltp,
    }
}

fn fmp4_profile(p: AudioProfile) -> (r: aac::AacProfile)
    ensures
        r == spec_fmp4_profile(p),
{
    match p {
        AudioProfile::Main => aac::AacProfile::Main,
        AudioProfile::Lc => aac::AacProfile::Lc,
        AudioProfile::Ssr => aac::AacProfile::Ssr,
        AudioProfile::Ltp => aac::AacProfile::Ltp,
    }
}

/// The sampling frequency a frequency index names (0 to 12).
pub open spec fn spec_frequency(index: u8) -> Option<aac::SamplingFrequency> {
    if index == 0 {
        Some(aac::SamplingFrequency::Hz96000)
    } else if index == 1 {
        Some(aac::SamplingFrequency::Hz88200)
    } else if index == 2 {
        Some(aac::SamplingFrequency::Hz64000)
    } else if index == 3 {
        Some(aac::SamplingFrequency::Hz48000)
    } else if index == 4 {
        Some(aac::SamplingFrequency::Hz44100)
    } else if index == 5 {
        Some(aac::SamplingFrequency::Hz32000)
    } else if index == 6 {
        Some(aac::SamplingFrequency::Hz24000)
    } else if index == 7 {
        Some(aac::SamplingFrequency::Hz22050)
    } else if index == 8 {
        Some(aac::SamplingFrequency::Hz16000)
    } else if index == 9 {
        Some(aac::SamplingFrequency::Hz12000)
    } else if index == 10 {
        Some(aac::SamplingFrequency::Hz11025)
    } else if index == 11 {
        Some(aac::SamplingFrequency::Hz8000)
    } else if index == 12 {
        Some(aac::SamplingFrequency::Hz7350)
    } else {
        None
    }
}

fn fmp4_frequency(index: u8) -> (r: Option<aac::SamplingFrequency>)
    ensures
        r == spec_frequency(index),
{
    match index {
        0 => Some(aac::SamplingFrequency::Hz96000),
        1 => Some(aac::SamplingFrequency::Hz88200),
        2 => Some(aac::SamplingFrequency::Hz64000),
        3 => Some(aac::SamplingFrequency::Hz48000),
        4 => Some(aac::SamplingFrequency::Hz44100),
        5 => Some(aac::SamplingFrequency::Hz32000),
        6 => Some(aac::SamplingFrequency::Hz24000),
        7 => Some(aac::SamplingFrequency::Hz22050),
        8 => Some(aac::SamplingFrequency::Hz16000),
        9 => Some(aac::SamplingFrequency::Hz12000),
        10 => Some(aac::SamplingFrequency::Hz11025),
        11 => Some(aac::SamplingFrequency::Hz8000),
        12 => Some(aac::SamplingFrequency::Hz7350),
        _ => None,
    }
}

/// The channel configuration a value names (0 to 7).
pub open spec fn spec_channels(config: u8) -> Option<aac::ChannelConfiguration> {
    if config == 0 {
        Some(aac::ChannelConfiguration::SentViaInbandPce)
    } else if config == 1 {
        Some(aac::ChannelConfiguration::OneChannel)
    } else if config == 2 {
        Some(aac::ChannelConfiguration::TwoChannels)
    } else if config == 3 {
        Some(aac::ChannelConfiguration::ThreeChannels)
    } else if config == 4 {
        Some(aac::ChannelConfiguration::FourChannels)
    } else if config == 5 {
        Some(aac::ChannelConfiguration::FiveChannels)
    } else if config == 6 {
        Some(aac::ChannelConfiguration::SixChannels)
    } else if config == 7 {
        Some(aac::ChannelConfiguration::EightChannels)
    } else {
        None
    }
}

fn fmp4_channels(config: u8) -> (r: Option<aac::ChannelConfiguration>)
    ensures
        r == spec_channels(config),
{
    match config {
        0 => Some(aac::ChannelConfiguration::SentViaInbandPce),
        1 => Some(aac::ChannelConfiguration::OneChannel),
        2 => Some(aac::ChannelConfiguration::TwoChannels),
        3 => Some(aac::ChannelConfiguration::ThreeChannels),
        4 => Some(aac::ChannelConfiguration::FourChannels),
        5 => Some(aac::ChannelConfiguration::FiveChannels),
        6 => Some(aac::ChannelConfiguration::SixChannels),
        7 => Some(aac::ChannelConfiguration::EightChannels),
        _ => None,
    }
}

/// The bytes mse_fmp4 writes for an audio initialization segment built from
/// these values.
pub uninterp spec fn aac_init_bytes(
    profile: aac::AacProfile,
    frequency: aac::SamplingFrequency,
    channels: aac::ChannelConfiguration,
    timescale: u32,
    movie_duration: u32,
) -> Seq<u8>;

/// Relies on mse_fmp4's `TrackBox::new`, `AacSampleEntry`,
/// `Mpeg4EsDescriptorBox`, `InitializationSegment`, `TrackExtendsBox::new` and
/// `WriteTo::write_to`: `ftyp` and a `moov` whose `mvhd` has timescale 1 and
/// the given duration, with one audio `trak` (media timescale, an `mp4a` entry
/// whose `esds` holds the profile, frequency and channels) and its `trex`.
/// Writing fails only for more than two channels (or in-band ones) and for
/// rates above 65535 Hz.
#[verifier::external_body]
fn write_aac_init(
    profile: aac::AacProfile,
    frequency: aac::SamplingFrequency,
    channel_configuration: aac::ChannelConfiguration,
    timescale: u32,
    movie_duration: u32,
) -> (r: Result<Vec<u8>, mse_fmp4::Error>)
    ensures
        r is Ok <==> ((channel_configuration is OneChannel || channel_configuration is TwoChannels)
            && !(frequency is Hz96000 || frequency is Hz88200)),
        r matches Ok(b) ==> b@ == aac_init_bytes(profile, frequency, channel_configuration, timescale,
            movie_duration),
{
    let mut track = fmp4::TrackBox::new(false);
    track.mdia_box.mdhd_box.timescale = timescale;
    let entry = fmp4::AacSampleEntry { esds_box: fmp4::Mpeg4EsDescriptorBox { profile, frequency, channel_configuration } };
    track.mdia_box.minf_box.stbl_box.stsd_box.sample_entries.push(fmp4::SampleEntry::Aac(entry));
    let mut segment = fmp4::InitializationSegment::default();
    segment.moov_box.trak_boxes.push(track);
    segment.moov_box.mvhd_box.duration = movie_duration;
    segment.moov_box.mvex_box.trex_boxes.push(fmp4::TrackExtendsBox::new(false));
    let mut out = Vec::new();
    segment.write_to(&mut out).map(|()| out)
}

/// The bytes mse_fmp4 writes for a video initialization segment built from
/// these values.
pub uninterp spec fn avc_init_bytes(
    width: u32,
    height: u32,
    timescale: u32,
    movie_duration: u32,
    entry_width: u16,
    entry_height: u16,
    profile_idc: u8,
    constraint_set_flag: u8,
    level_idc: u8,
    sps: Seq<u8>,
    pps: Seq<u8>,
) -> Seq<u8>;

/// Profiles whose `avcC` mse_fmp4 does not write.
pub open spec fn unsupported_avc_profile(profile_idc: u8) -> bool {
    profile_idc == 100 || profile_idc == 110 || profile_idc == 122 || profile_idc == 144
}

/// Relies on mse_fmp4's `TrackBox::new`, `AvcSampleEntry`,
/// `AvcDecoderConfigurationRecord`, `InitializationSegment`,
/// `TrackExtendsBox::new` and `WriteTo::write_to`: `ftyp` and a `moov` whose
/// `mvhd` has timescale 1 and the given duration, with one video `trak`
/// (16.16 `tkhd` size, media timescale, an `avc1` entry whose `avcC` holds
/// the values and parameter sets) and its `trex`. Writing fails only for the
/// profiles whose `avcC` it refuses.
#[verifier::external_body]
fn write_avc_init(
    width: u32,
    height: u32,
    timescale: u32,
    movie_duration: u32,
    entry_width: u16,
    entry_height: u16,
    profile_idc: u8,
    constraint_set_flag: u8,
    level_idc: u8,
    sps: Vec<u8>,
    pps: Vec<u8>,
) -> (r: Result<Vec<u8>, mse_fmp4::Error>)
    ensures
        r is Ok <==> !unsupported_avc_profile(profile_idc),
        r matches Ok(b) ==> b@ == avc_init_bytes(width, height, timescale, movie_duration, entry_width,
            entry_height, profile_idc, constraint_set_flag, level_idc, sps@, pps@),
{
    let mut track = fmp4::TrackBox::new(true);
    track.tkhd_box.width = width;
    track.tkhd_box.height = height;
    track.mdia_box.mdhd_box.timescale = timescale;
    let entry = fmp4::SampleEntry::Avc(fmp4::AvcSampleEntry { width: entry_width, height: entry_height,
        avcc_box: fmp4::AvcConfigurationBox { configuration: mse_fmp4::avc::AvcDecoderConfigurationRecord {
        profile_idc, constraint_set_flag, level_idc, sequence_parameter_set: sps, picture_parameter_set: pps } } });
    track.mdia_box.minf_box.stbl_box.stsd_box.sample_entries.push(entry);
    let mut segment = fmp4::InitializationSegment::default();
    segment.moov_box.trak_boxes.push(track);
    segment.moov_box.mvhd_box.duration = movie_duration;
    segment.moov_box.mvex_box.trex_boxes.push(fmp4::TrackExtendsBox::new(true));
    let mut out = Vec::new();
    segment.write_to(&mut out).map(|()| out)
}

/// The initialization segment of a video track: picture size from the SPS
/// (16.16 fixed point in `tkhd`), timescale 90 kHz, and the exact SPS and PPS
/// bytes in `avcC`. It is refused only for the profiles mse_fmp4 cannot
/// describe.
pub fn make_avc_initialisation_segment(track: &AvcTrack) -> (r: Result<Vec<u8>, InitError>)
    ensures
        r is Ok <==> !unsupported_avc_profile(track.sps.profile_idc),
        r matches Err(e) ==> e == InitError::Writer,
        r matches Ok(b) ==> b@ == avc_init_bytes(
            ((spec_dimensions(track.sps).0 as int * 0x1_0000) % 0x1_0000_0000) as u32,
            ((spec_dimensions(track.sps).1 as int * 0x1_0000) % 0x1_0000_0000) as u32,
            MEDIA_TIMESCALE,
            0,
            spec_dimensions(track.sps).0 as u16,
            spec_dimensions(track.sps).1 as u16,
            track.sps.profile_idc,
            0,
            track.sps.level_idc,
            track.sps_bytes@,
            track.pps_bytes@,
        ),
{
    let (width, height) = track.dimensions();
    let sps = track.sps();
    match write_avc_init(
        ((width as u64 * 0x1_0000) % 0x1_0000_0000) as u32,
        ((height as u64 * 0x1_0000) % 0x1_0000_0000) as u32,
        MEDIA_TIMESCALE,
        0,
        width as u16,
        height as u16,
        sps.profile_idc,
        0,
        sps.level_idc,
        track.sps_bytes.clone(),
        track.pps_bytes.clone(),
    ) {
        Ok(b) => Ok(b),
        Err(_) => Err(InitError::Writer),
    }
}

/// The initialization segment of an audio track: an `mp4a` entry whose
/// `esds` carries the track's profile, frequency and channel configuration.
/// It is refused for unknown values and for what the box writer does not
/// describe (more than two channels, rates above 64 kHz).
pub fn make_aac_initialisation_segment(track: &AacTrack) -> (r: Result<Vec<u8>, InitError>)
    ensures
        spec_profile(track.audio_object_type) is None ==> r == Err::<Vec<u8>, InitError>(InitError::UnknownProfile),
        spec_profile(track.audio_object_type) is Some && track.frequency_index > 12 ==> r == Err::<Vec<u8>, InitError>(InitError::UnknownFrequency),
        spec_profile(track.audio_object_type) is Some && track.frequency_index <= 12 && track.channel_config > 7
            ==> r == Err::<Vec<u8>, InitError>(InitError::UnknownChannels),
        spec_profile(track.audio_object_type) is Some && track.frequency_index <= 12 && track.channel_config <= 7
            && !((track.channel_config == 1 || track.channel_config == 2) && track.frequency_index >= 2)
            ==> r == Err::<Vec<u8>, InitError>(InitError::Unsupported),
        spec_profile(track.audio_object_type) is Some && 2 <= track.frequency_index <= 12 && (track.channel_config
            == 1 || track.channel_config == 2) ==> (r matches Ok(b) && b@ == aac_init_bytes(
            spec_fmp4_profile(spec_profile(track.audio_object_type)->0),
            spec_frequency(track.frequency_index)->0,
            spec_channels(track.channel_config)->0,
            MEDIA_TIMESCALE,
            0,
        )),
{
    let profile = match audio_profile(track.audio_object_type) {
        Some(p) => fmp4_profile(p),
        None => return Err(InitError::UnknownProfile),
    };
    let frequency = match fmp4_frequency(track.frequency_index) {
        Some(f) => f,
        None => return Err(InitError::UnknownFrequency),
    };
    let channels = match fmp4_channels(track.channel_config) {
        Some(c) => c,
        None => return Err(InitError::UnknownChannels),
    };
    if !(track.channel_config == 1 || track.channel_config == 2) || track.frequency_index < 2 {
        return Err(InitError::Unsupported);
    }
    match write_aac_init(profile, frequency, channels, MEDIA_TIMESCALE, 0) {
        Ok(b) => Ok(b),
        Err(_) => Err(InitError::Writer),
    }
}

} // verus!
