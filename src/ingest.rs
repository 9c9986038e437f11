//! Timestamps of ingested access units, and their appending to the store.

use vstd::prelude::*;
use crate::model::{Sample, SampleHeader, TrackSequence};
use crate::sps::SpsInfo;
use crate::store::{Store, Track, TrackId};
use crate::timestamp::{TIMESTAMP_MAX, UnwrapTimestamp, unwrapped_value, updated};

verus! {

/// The unwrapped timestamps of the most recent PES header of a stream.
pub struct PesTimes {
    pub unwrap_ts: UnwrapTimestamp,
    pub last_pts: Option<i64>,
    pub last_dts: Option<i64>,
}

/// The (dts, pts) a sample takes from the last PES header: its dts (or pts
/// when it carried none), and its pts (or zero when it carried only a dts).
pub open spec fn spec_sample_times(last_pts: Option<i64>, last_dts: Option<i64>) -> (i64, i64) {
    match last_dts {
        Some(d) => (d, match last_pts {
            Some(p) => p,
            None => 0,
        }),
        None => match last_pts {
            Some(p) => (p, p),
            None => (0, 0),
        },
    }
}

impl PesTimes {
    pub open spec fn wf(&self) -> bool {
        self.unwrap_ts.wf()
    }

    pub fn new() -> (r: PesTimes)
        ensures
            r.wf(),
            r.last_pts is None,
            r.last_dts is None,
    {
        PesTimes { unwrap_ts: UnwrapTimestamp::new(), last_pts: None, last_dts: None }
    }

    /// Takes the 33-bit timestamps of a PES header: the dts drives the
    /// unwrapper when present, the pts otherwise, and both are unwrapped
    /// against the same carry.
    pub fn set_pts_dts(&mut self, pts: Option<u64>, dts: Option<u64>)
        requires
            old(self).wf(),
            pts matches Some(p) ==> p <= TIMESTAMP_MAX,
            dts matches Some(d) ==> d <= TIMESTAMP_MAX,
        ensures
            final(self).wf(),
            match dts {
                Some(d) => {
                    &&& final(self).last_dts == Some(unwrapped_value(d as int, final(self).unwrap_ts.carry as int, d as int) as i64)
                    &&& final(self).unwrap_ts == updated(old(self).unwrap_ts, d)
                    &&& final(self).last_pts == match pts {
                        Some(p) => Some(unwrapped_value(d as int, final(self).unwrap_ts.carry as int, p as int) as i64),
                        None => None::<i64>,
                    }
                },
                None => match pts {
                    Some(p) => final(self).unwrap_ts == updated(old(self).unwrap_ts, p) && final(self).last_dts is None
                        && final(self).last_pts == Some(unwrapped_value(p as int, final(self).unwrap_ts.carry as int, p as int) as i64),
                    None => final(self).last_pts is None && final(self).last_dts is None
                        && final(self).unwrap_ts == old(self).unwrap_ts,
                },
            },
    {
        match dts {
            Some(d) => {
                self.unwrap_ts.update(d);
                let ud = self.unwrap_ts.unwrap(d);
                let up = match pts {
                    Some(p) => Some(self.unwrap_ts.unwrap(p)),
                    None => None,
                };
                self.last_dts = Some(ud);
                self.last_pts = up;
            },
            None => match pts {
                Some(p) => {
                    self.unwrap_ts.update(p);
                    let up = self.unwrap_ts.unwrap(p);
                    self.last_pts = Some(up);
                    self.last_dts = None;
                },
                None => {
                    self.last_pts = None;
                    self.last_dts = None;
                },
            },
        }
    }

    /// The (dts, pts) of a sample carried by the last PES packet.
    pub fn sample_times(&self) -> (r: (i64, i64))
        ensures
            r == spec_sample_times(self.last_pts, self.last_dts),
    {
        match self.last_dts {
            Some(d) => (d, match self.last_pts {
                Some(p) => p,
                None => 0,
            }),
            None => match self.last_pts {
                Some(p) => (p, p),
                None => (0, 0),
            },
        }
    }
}

/// What the H.264 ingest keeps between slices.
pub struct IngestH264Context {
    pub track_id: Option<TrackId>,
    pub times: PesTimes,
    pub max_bitrate: Option<u32>,
}

impl IngestH264Context {
    pub fn new(max_bitrate: Option<u32>) -> (r: IngestH264Context)
        ensures
            r.track_id is None,
            r.times.wf(),
            r.max_bitrate == max_bitrate,
    {
        IngestH264Context { track_id: None, times: PesTimes::new(), max_bitrate }
    }

    /// The track of this stream, allocated on its first slice with the
    /// parameter sets that slice refers to.
    pub fn track(&mut self, store: &mut Store, sps: SpsInfo, sps_bytes: Vec<u8>, pps_bytes: Vec<u8>) -> (r:
        TrackId)
        requires
            old(store).wf(),
        ensures
            final(store).wf(),
            final(self).track_id == Some(r),
            final(self).times == old(self).times,
            final(self).max_bitrate == old(self).max_bitrate,
            old(self).track_id matches Some(t) ==> r == t && *final(store) == *old(store),
            old(self).track_id is None ==> r.0 == old(store).tracks@.len() && final(store).tracks@.len()
                == old(store).tracks@.len() + 1 && final(store).tracks@[r.0 as int] is Avc,
    {
        match self.track_id {
            Some(t) => t,
            None => {
                let t = store.allocate_avc_track(sps, sps_bytes, pps_bytes, self.max_bitrate);
                self.track_id = Some(t);
                t
            },
        }
    }

    /// Appends a slice (its NAL header byte and bytes) with the timestamps of
    /// the last PES header. A slice the track would not take (its dts going
    /// backwards) is dropped and `false` returned with nothing published.
    pub fn add_slice(&self, store: &mut Store, id: TrackId, nal_header: u8, data: Vec<u8>) -> (r: (bool, Option<TrackSequence>))
        requires
            old(store).wf(),
        ensures
            final(store).wf(),
            ({
                let (dts, pts) = spec_sample_times(self.times.last_pts, self.times.last_dts);
                let s = Sample { data, pts, dts, header: SampleHeader::Avc(nal_header) };
                &&& r.0 == old(store).avc_accepts(id, s)
                &&& !r.0 ==> *final(store) == *old(store) && r.1 is None
                &&& r.0 ==> (final(store).tracks@[id.0 as int] matches Track::Avc(t) && r.1 == t.spec_sequence()
                    && (old(store).tracks@[id.0 as int] matches Track::Avc(t0) && t.history() == t0.history().push(s)))
            }),
    {
        let (dts, pts) = self.times.sample_times();
        let s = Sample { data, pts, dts, header: SampleHeader::Avc(nal_header) };
        if store.can_add_avc_sample(id, &s) {
            let q = store.add_avc_sample(id, s);
            (true, q)
        } else {
            (false, None)
        }
    }
}

/// What the ADTS ingest keeps between frames.
pub struct IngestAdtsContext {
    pub track_id: Option<TrackId>,
    pub times: PesTimes,
    pub max_bitrate: Option<u32>,
}

impl IngestAdtsContext {
    pub fn new(max_bitrate: Option<u32>) -> (r: IngestAdtsContext)
        ensures
            r.track_id is None,
            r.times.wf(),
            r.max_bitrate == max_bitrate,
    {
        IngestAdtsContext { track_id: None, times: PesTimes::new(), max_bitrate }
    }

    /// A new ADTS configuration: allocates an audio track for it.
    pub fn new_config(&mut self, store: &mut Store, audio_object_type: u8, frequency_index: u8, channel_config: u8) -> (r:
        TrackId)
        requires
            old(store).wf(),
        ensures
            final(store).wf(),
            final(self).track_id == Some(r),
            r.0 == old(store).tracks@.len(),
            final(store).tracks@[r.0 as int] is Aac,
    {
        let t = store.allocate_aac_track(audio_object_type, frequency_index, channel_config, self.max_bitrate);
        self.track_id = Some(t);
        t
    }

    /// Appends one AAC frame with the timestamps of the last PES header;
    /// a frame before any configuration, or one the track would not take, is
    /// dropped and `false` returned.
    pub fn payload(&self, store: &mut Store, data: Vec<u8>) -> (r: (bool, Option<TrackSequence>))
        requires
            old(store).wf(),
        ensures
            final(store).wf(),
            ({
                let (dts, pts) = spec_sample_times(self.times.last_pts, self.times.last_dts);
                let s = Sample { data, pts, dts, header: SampleHeader::Aac };
                &&& r.0 == (self.track_id matches Some(id) && old(store).aac_accepts(id, s))
                &&& !r.0 ==> *final(store) == *old(store) && r.1 is None
                &&& r.0 ==> (self.track_id matches Some(id) && (final(store).tracks@[id.0 as int] matches Track::Aac(t)
                    && r.1 == t.spec_sequence() && (old(store).tracks@[id.0 as int] matches Track::Aac(t0)
                    && t.history() == t0.history().push(s))))
            }),
    {
        let id = match self.track_id {
            Some(id) => id,
            None => return (false, None),
        };
        let (dts, pts) = self.times.sample_times();
        let s = Sample { data, pts, dts, header: SampleHeader::Aac };
        if store.can_add_aac_sample(id, &s) {
            let q = store.add_aac_sample(id, s);
            (true, q)
        } else {
            (false, None)
        }
    }
}

} // verus!
