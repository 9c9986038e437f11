//! The store: every track of the stream, and the media-time to UTC offset.

use vstd::prelude::*;
use crate::aac::AacTrack;
use crate::avc::AvcTrack;
use crate::model::{Sample, SegmentInfo, TrackSequence};
use crate::sps::SpsInfo;

verus! {

/// A track of the store.
pub enum Track {
    Avc(AvcTrack),
    Aac(AacTrack),
}

impl Track {
    pub open spec fn wf(&self) -> bool {
        match self {
            Track::Avc(t) => t.wf(),
            Track::Aac(t) => t.wf(),
        }
    }

    pub open spec fn spec_msn(&self) -> int {
        match self {
            Track::Avc(t) => t.spec_msn(),
            Track::Aac(t) => t.spec_msn(),
        }
    }

    pub open spec fn spec_segments(&self) -> Seq<SegmentInfo> {
        match self {
            Track::Avc(t) => t.spec_segments(),
            Track::Aac(t) => t.spec_segments(),
        }
    }

    /// Segments evicted and present.
    pub fn media_sequence_number(&self) -> (r: u64)
        requires
            self.wf(),
        ensures
            r == self.spec_msn(),
    {
        match self {
            Track::Avc(t) => t.media_sequence_number(),
            Track::Aac(t) => t.media_sequence_number(),
        }
    }

    /// The segments present in the buffer, oldest first.
    pub fn segments(&self) -> (r: Vec<SegmentInfo>)
        requires
            self.wf(),
        ensures
            r@ == self.spec_segments(),
    {
        match self {
            Track::Avc(t) => t.segments(),
            Track::Aac(t) => t.segments(),
        }
    }
}

/// Identifies a track: its index in creation order.
#[derive(Debug, Clone, Copy, PartialEq, Eq, Structural)]
pub struct TrackId(pub usize);

/// An entry of the track list.
#[derive(Debug, Clone, Copy, PartialEq, Eq, Structural)]
pub struct TrackInfo {
    pub track_id: TrackId,
}

/// All tracks, and the offset from media time to UTC once it is known.
pub struct Store {
    pub tracks: Vec<Track>,
    /// Added to a media timestamp, gives 90 kHz ticks since the Unix epoch.
    pub pts_to_utc: Option<i64>,
}

impl Store {
    pub open spec fn wf(&self) -> bool {
        forall|i: int| 0 <= i < self.tracks@.len() ==> #[trigger] self.tracks@[i].wf()
    }

    /// The track `id` exists, is a video track, and would take `sample`.
    pub open spec fn avc_accepts(&self, id: TrackId, sample: Sample) -> bool {
        &&& id.0 < self.tracks@.len()
        &&& self.tracks@[id.0 as int] matches Track::Avc(t) && t.spec_accepts(sample)
    }

    /// The track `id` exists, is an audio track, and would take `sample`.
    pub open spec fn aac_accepts(&self, id: TrackId, sample: Sample) -> bool {
        &&& id.0 < self.tracks@.len()
        &&& self.tracks@[id.0 as int] matches Track::Aac(t) && t.spec_accepts(sample)
    }

    pub fn new() -> (r: Store)
        ensures
            r.wf(),
            r.tracks@.len() == 0,
            r.pts_to_utc is None,
    {
        Store { tracks: Vec::new(), pts_to_utc: None }
    }

    /// Adds a video track; its identifier is the number of tracks before it.
    pub fn allocate_avc_track(
        &mut self,
        sps: SpsInfo,
        sps_bytes: Vec<u8>,
        pps_bytes: Vec<u8>,
        max_bitrate: Option<u32>,
    ) -> (r: TrackId)
        requires
            old(self).wf(),
        ensures
            final(self).wf(),
            r.0 == old(self).tracks@.len(),
            final(self).tracks@.len() == old(self).tracks@.len() + 1,
            final(self).tracks@.subrange(0, r.0 as int) == old(self).tracks@,
            final(self).pts_to_utc == old(self).pts_to_utc,
            final(self).tracks@[r.0 as int] matches Track::Avc(t) && t.samples@.len() == 0
                && t.history().len() == 0 && t.first_seg_num == 0 && t.sps == sps && t.sps_bytes@
                == sps_bytes@ && t.pps_bytes@ == pps_bytes@ && t.max_bitrate == max_bitrate,
    {
        let id = TrackId(self.tracks.len());
        self.tracks.push(Track::Avc(AvcTrack::new(sps, sps_bytes, pps_bytes, max_bitrate)));
        assert(self.tracks@.subrange(0, id.0 as int) =~= old(self).tracks@);
        id
    }

    /// Adds an audio track; its identifier is the number of tracks before it.
    pub fn allocate_aac_track(
        &mut self,
        audio_object_type: u8,
        frequency_index: u8,
        channel_config: u8,
        max_bitrate: Option<u32>,
    ) -> (r: TrackId)
        requires
            old(self).wf(),
        ensures
            final(self).wf(),
            r.0 == old(self).tracks@.len(),
            final(self).tracks@.len() == old(self).tracks@.len() + 1,
            final(self).tracks@.subrange(0, r.0 as int) == old(self).tracks@,
            final(self).pts_to_utc == old(self).pts_to_utc,
            final(self).tracks@[r.0 as int] matches Track::Aac(t) && t.samples@.len() == 0
                && t.history().len() == 0 && t.first_seg_num == 0 && t.audio_object_type
                == audio_object_type && t.frequency_index == frequency_index && t.channel_config
                == channel_config && t.max_bitrate == max_bitrate,
    {
        let id = TrackId(self.tracks.len());
        self.tracks.push(
            Track::Aac(AacTrack::new(audio_object_type, frequency_index, channel_config, max_bitrate)),
        );
        assert(self.tracks@.subrange(0, id.0 as int) =~= old(self).tracks@);
        id
    }

    /// Whether `add_avc_sample(id, sample)` may be called.
    pub fn can_add_avc_sample(&self, id: TrackId, sample: &Sample) -> (r: bool)
        requires
            self.wf(),
        ensures
            r == self.avc_accepts(id, *sample),
    {
        if id.0 >= self.tracks.len() {
            return false;
        }
        assert(self.tracks@[id.0 as int].wf());
        match &self.tracks[id.0] {
            Track::Avc(t) => t.accepts(sample),
            Track::Aac(_) => false,
        }
    }

    /// Whether `add_aac_sample(id, sample)` may be called.
    pub fn can_add_aac_sample(&self, id: TrackId, sample: &Sample) -> (r: bool)
        requires
            self.wf(),
        ensures
            r == self.aac_accepts(id, *sample),
    {
        if id.0 >= self.tracks.len() {
            return false;
        }
        assert(self.tracks@[id.0 as int].wf());
        match &self.tracks[id.0] {
            Track::Aac(t) => t.accepts(sample),
            Track::Avc(_) => false,
        }
    }

    /// Appends a sample to a video track and returns the value to publish to
    /// readers waiting on that track.
    pub fn add_avc_sample(&mut self, id: TrackId, sample: Sample) -> (r: Option<TrackSequence>)
        requires
            old(self).wf(),
            old(self).avc_accepts(id, sample),
        ensures
            final(self).wf(),
            final(self).tracks@.len() == old(self).tracks@.len(),
            final(self).pts_to_utc == old(self).pts_to_utc,
            forall|i: int|
                0 <= i < final(self).tracks@.len() && i != id.0 ==> final(self).tracks@[i] == old(
                    self,
                ).tracks@[i],
            final(self).tracks@[id.0 as int] matches Track::Avc(t) && old(self).tracks@[id.0 as int] matches Track::Avc(
                t0,
            ) && t.is_push_of(t0, sample) && t.history() == t0.history().push(sample) && r == t.spec_sequence(),
    {
        assert(self.tracks@[id.0 as int].wf());
        let mut track = self.tracks.remove(id.0);
        let r = match &mut track {
            Track::Avc(t) => t.push(sample),
            Track::Aac(_) => None,
        };
        self.tracks.insert(id.0, track);
        assert forall|i: int| 0 <= i < self.tracks@.len() && i != id.0 implies self.tracks@[i] == old(
            self,
        ).tracks@[i] by {}
        assert forall|i: int| 0 <= i < self.tracks@.len() implies #[trigger] self.tracks@[i].wf() by {
            if i != id.0 {
                assert(old(self).tracks@[i].wf());
            }
        }
        r
    }

    /// Appends a frame to an audio track and returns the value to publish to
    /// readers waiting on that track.
    pub fn add_aac_sample(&mut self, id: TrackId, sample: Sample) -> (r: Option<TrackSequence>)
        requires
            old(self).wf(),
            old(self).aac_accepts(id, sample),
        ensures
            final(self).wf(),
            final(self).tracks@.len() == old(self).tracks@.len(),
            final(self).pts_to_utc == old(self).pts_to_utc,
            forall|i: int|
                0 <= i < final(self).tracks@.len() && i != id.0 ==> final(self).tracks@[i] == old(
                    self,
                ).tracks@[i],
            final(self).tracks@[id.0 as int] matches Track::Aac(t) && old(self).tracks@[id.0 as int] matches Track::Aac(
                t0,
            ) && t.is_push_of(t0, sample) && t.history() == t0.history().push(sample) && r == t.spec_sequence(),
    {
        assert(self.tracks@[id.0 as int].wf());
        let mut track = self.tracks.remove(id.0);
        let r = match &mut track {
            Track::Aac(t) => t.push(sample),
            Track::Avc(_) => None,
        };
        self.tracks.insert(id.0, track);
        assert forall|i: int| 0 <= i < self.tracks@.len() && i != id.0 implies self.tracks@[i] == old(
            self,
        ).tracks@[i] by {}
        assert forall|i: int| 0 <= i < self.tracks@.len() implies #[trigger] self.tracks@[i].wf() by {
            if i != id.0 {
                assert(old(self).tracks@[i].wf());
            }
        }
        r
    }

    /// The identifiers of all tracks, in creation order.
    pub fn track_list(&self) -> (r: Vec<TrackInfo>)
        ensures
            r@.len() == self.tracks@.len(),
            forall|i: int| 0 <= i < r@.len() ==> #[trigger] r@[i].track_id.0 == i,
    {
        let mut r: Vec<TrackInfo> = Vec::new();
        let mut i: usize = 0;
        while i < self.tracks.len()
            invariant
                i <= self.tracks@.len(),
                r@.len() == i,
                forall|j: int| 0 <= j < i ==> #[trigger] r@[j].track_id.0 == j,
            decreases self.tracks@.len() - i,
        {
            r.push(TrackInfo { track_id: TrackId(i) });
            i = i + 1;
        }
        r
    }

    /// The track with the given identifier, if there is one.
    pub fn get_track(&self, id: TrackId) -> (r: Option<&Track>)
        ensures
            match r {
                Some(t) => id.0 < self.tracks@.len() && *t == self.tracks@[id.0 as int],
                None => id.0 >= self.tracks@.len(),
            },
    {
        if id.0 < self.tracks.len() {
            Some(&self.tracks[id.0])
        } else {
            None
        }
    }

    pub fn has_pts_to_utc(&self) -> (r: bool)
        ensures
            r == self.pts_to_utc is Some,
    {
        self.pts_to_utc.is_some()
    }

    /// Records the offset that maps media timestamps to UTC (90 kHz ticks
    /// since the Unix epoch).
    pub fn set_pts_to_utc(&mut self, offset: i64)
        ensures
            final(self).pts_to_utc == Some(offset),
            final(self).tracks@ == old(self).tracks@,
    {
        self.pts_to_utc = Some(offset);
    }

    /// The media-time to UTC offset, once known.
    pub fn pts_to_utc(&self) -> (r: Option<i64>)
        ensures
            r == self.pts_to_utc,
    {
        self.pts_to_utc
    }
}

} // verus!
