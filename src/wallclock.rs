//! Mapping of media timestamps to wall-clock time, from picture timing clock
//! timestamps and the local UTC clock.

use vstd::prelude::*;

verus! {

#[verifier::external_type_specification]
#[verifier::external_body]
pub struct ExSystemTime(std::time::SystemTime);

pub const DAY_SECONDS: u64 = 86_400;

pub const DAY_MICROS: u64 = 86_400_000_000;

/// Frame rate at which clock-timestamp frame counts are read (a tuning constant).
pub const FRAME_RATE: u64 = 25;

/// Ticks per second of the MPEG-TS clock.
pub const TIMEBASE: u64 = 90_000;

/// A UTC instant as a day number since the epoch and the time of day.
#[derive(Debug, Clone, Copy, PartialEq, Eq, Structural)]
pub struct DateTime {
    pub date: u64,
    pub time_of_day_micros: u64,
}

/// Relies on std's `SystemTime::now`.
#[verifier::external_body]
fn system_now() -> std::time::SystemTime {
    std::time::SystemTime::now()
}

/// Relies on std's `SystemTime::duration_since(UNIX_EPOCH)`: whole seconds
/// and the microseconds of the last second, or none before the epoch.
#[verifier::external_body]
fn since_epoch(t: &std::time::SystemTime) -> (r: Option<(u64, u32)>)
    ensures
        r matches Some((s, us)) ==> us < 1_000_000,
{
    t.duration_since(std::time::UNIX_EPOCH).ok().map(|d| (d.as_secs(), d.subsec_micros()))
}

impl DateTime {
    /// The instant `secs` seconds and `micros` microseconds after the epoch.
    pub fn from_unix(secs: u64, micros: u32) -> (r: DateTime)
        requires
            micros < 1_000_000,
        ensures
            r.date == secs as int / DAY_SECONDS as int,
            r.time_of_day_micros == (secs as int % DAY_SECONDS as int) * 1_000_000 + micros,
            r.time_of_day_micros < DAY_MICROS,
    {
        DateTime { date: secs / DAY_SECONDS, time_of_day_micros: (secs % DAY_SECONDS) * 1_000_000 + micros as u64 }
    }

    /// The current UTC instant (leap seconds are not accounted for); none
    /// when the clock reads before the epoch.
    pub fn now() -> (r: Option<DateTime>)
        ensures
            r matches Some(d) ==> d.time_of_day_micros < DAY_MICROS,
    {
        match since_epoch(&system_now()) {
            Some((secs, micros)) => Some(DateTime::from_unix(secs, micros)),
            None => None,
        }
    }
}

/// An `hh:mm:ss:frames` clock timestamp of a picture timing SEI message.
#[derive(Debug, Clone, Copy, PartialEq, Eq, Structural)]
pub struct ClockTimestamp {
    pub hours: u8,
    pub minutes: u8,
    pub seconds: u8,
    pub n_frames: u8,
}

/// The time of day a clock timestamp names, in microseconds.
pub open spec fn clock_micros(c: ClockTimestamp) -> int {
    (((c.hours * 60 + c.minutes) * 60 + c.seconds) * FRAME_RATE + c.n_frames) * 1_000_000 / FRAME_RATE as int
}

/// The day of the clock timestamp: the local day, moved to the neighbouring
/// day when the two times of day are more than half a day apart (a clock
/// time far ahead of the local time of day belongs to the day before).
pub open spec fn clock_date(now: DateTime, tod: int) -> int {
    let diff = now.time_of_day_micros - tod;
    if diff < -(DAY_MICROS / 2) as int {
        now.date - 1
    } else if diff > (DAY_MICROS / 2) as int {
        now.date + 1
    } else {
        now.date as int
    }
}

/// The offset that, added to `pts`, gives the clock timestamp's instant in
/// 90 kHz ticks since the epoch.
pub open spec fn clock_offset(c: ClockTimestamp, now: DateTime, pts: i64) -> int {
    let tod = clock_micros(c);
    clock_date(now, tod) * DAY_SECONDS * TIMEBASE + tod * TIMEBASE / 1_000_000 - pts
}

/// Computes the media-to-UTC offset from a clock timestamp seen on the
/// picture with timestamp `pts`, against the local time `now`; none when it
/// does not fit an `i64`.
pub fn pts_to_utc_offset(c: ClockTimestamp, now: DateTime, pts: i64) -> (r: Option<i64>)
    ensures
        match r {
            Some(o) => o == clock_offset(c, now, pts),
            None => !(i64::MIN <= clock_offset(c, now, pts) <= i64::MAX),
        },
{
    let tod: u64 = ((((c.hours as u64 * 60 + c.minutes as u64) * 60 + c.seconds as u64) * FRAME_RATE
        + c.n_frames as u64) * 1_000_000) / FRAME_RATE;
    let diff = now.time_of_day_micros as i128 - tod as i128;
    let date: i128 = if diff < -((DAY_MICROS / 2) as i128) {
        now.date as i128 - 1
    } else if diff > (DAY_MICROS / 2) as i128 {
        now.date as i128 + 1
    } else {
        now.date as i128
    };
    assert(-1 <= date <= 0x1_0000_0000_0000_0000);
    assert(date * 7_776_000_000 <= 0x1_0000_0000_0000_0000 * 7_776_000_000);
    assert(date * 7_776_000_000 >= -7_776_000_000);
    assert(tod as i128 * 90_000 <= 0x1_0000_0000_0000_0000_0000_0000) by (nonlinear_arith)
        requires
            0 <= tod <= u64::MAX,
    ;
    let local = date * (DAY_SECONDS * TIMEBASE) as i128 + (tod as i128 * TIMEBASE as i128) / 1_000_000;
    let o = local - pts as i128;
    if o < i64::MIN as i128 || o > i64::MAX as i128 {
        None
    } else {
        Some(o as i64)
    }
}

/// Collects picture timing and keeps the media-to-UTC offset.
pub struct PicTimingIngest {
    pub local_time_datum: Option<DateTime>,
    /// In 90 kHz ticks.
    pub pts_to_utc_offset: i64,
}

impl PicTimingIngest {
    pub fn new() -> (r: PicTimingIngest)
        ensures
            r.local_time_datum is None,
            r.pts_to_utc_offset == 0,
    {
        PicTimingIngest { local_time_datum: None, pts_to_utc_offset: 0 }
    }

    /// The wall-clock instant (90 kHz ticks since the epoch) of a media timestamp.
    pub fn adjust_pts_to_utc(&self, pts_dts: i64) -> (r: i64)
        requires
            i64::MIN <= self.pts_to_utc_offset + pts_dts <= i64::MAX,
        ensures
            r == self.pts_to_utc_offset + pts_dts,
    {
        self.pts_to_utc_offset + pts_dts
    }

    /// Takes a clock timestamp seen on the picture whose timestamp is `pts`
    /// (none when the picture had none), read at local time `now`; returns
    /// the new offset when one was derived.
    pub fn handle(&mut self, c: ClockTimestamp, now: DateTime, pts: Option<i64>) -> (r: Option<i64>)
        ensures
            final(self).local_time_datum == Some(now),
            match pts {
                None => r is None && final(self).pts_to_utc_offset == old(self).pts_to_utc_offset,
                Some(p) => match r {
                    Some(o) => o == clock_offset(c, now, p) && final(self).pts_to_utc_offset == o,
                    None => !(i64::MIN <= clock_offset(c, now, p) <= i64::MAX)
                        && final(self).pts_to_utc_offset == old(self).pts_to_utc_offset,
                },
            },
    {
        self.local_time_datum = Some(now);
        match pts {
            None => None,
            Some(p) => {
                let r = pts_to_utc_offset(c, now, p);
                if let Some(o) = r {
                    self.pts_to_utc_offset = o;
                }
                r
            },
        }
    }
}

impl Default for PicTimingIngest {
    fn default() -> (r: PicTimingIngest)
        ensures
            r.local_time_datum is None,
            r.pts_to_utc_offset == 0,
    {
        PicTimingIngest::new()
    }
}

} // verus!
