//! The one clock of the library. Every rule that depends on time takes a
//! reading of it as an argument, so that the rules can be stated, and tried,
//! for any time.

use chrono::Timelike;
use vstd::prelude::*;

verus! {

/// What the clock shows: seconds since the Unix epoch, and the local hour
/// and minute of the day.
#[derive(Debug, Clone, Copy, PartialEq, Eq, Structural)]
pub struct ClockReading {
    pub secs: u64,
    pub hour: u8,
    pub minute: u8,
}

impl ClockReading {
    /// Whether the hour and the minute are those of a clock face.
    pub open spec fn wf(&self) -> bool {
        self.hour < 24 && self.minute < 60
    }
}

/// The seconds from `then` to `now`; 0 where `then` lies after `now`.
pub open spec fn spec_elapsed(now: u64, then: u64) -> u64 {
    if now >= then {
        (now - then) as u64
    } else {
        0
    }
}

/// The seconds from `then` to `now`; 0 where `then` lies after `now`.
pub fn elapsed(now: u64, then: u64) -> (r: u64)
    ensures
        r == spec_elapsed(now, then),
{
    if now >= then {
        now - then
    } else {
        0
    }
}

/// Calls `chrono::offset::Local::now` and takes from the result its
/// `timestamp`, `hour` and `minute`. Claimed: the hour is below 24 and the
/// minute below 60, as chrono documents for `Timelike`. Nothing is claimed
/// of the timestamp.
#[verifier::external_body]
fn local_now() -> (r: (i64, u32, u32))
    ensures
        r.1 < 24,
        r.2 < 60,
{
    let t = chrono::offset::Local::now();
    (t.timestamp(), t.hour(), t.minute())
}

/// Reads the clock: the reading, as `reading_of` makes it, of the present time.
pub fn read_clock() -> (r: ClockReading)
    ensures
        r.wf(),
{
    let (stamp, hour, minute) = local_now();
    reading_of(stamp, hour, minute)
}

/// The reading for the second `stamp`, counted from the Unix epoch, and
/// the time of day `hour`:`minute`. A second before the epoch reads as
/// second 0.
pub open spec fn spec_reading_of(stamp: i64, hour: u32, minute: u32) -> ClockReading {
    ClockReading {
        secs: if stamp < 0 {
            0
        } else {
            stamp as u64
        },
        hour: hour as u8,
        minute: minute as u8,
    }
}

/// The reading for the second `stamp`, counted from the Unix epoch, and
/// the time of day `hour`:`minute`.
pub fn reading_of(stamp: i64, hour: u32, minute: u32) -> (r: ClockReading)
    requires
        hour < 24,
        minute < 60,
    ensures
        r == spec_reading_of(stamp, hour, minute),
        r.wf(),
{
    let secs: u64 = if stamp < 0 {
        0
    } else {
        stamp as u64
    };
    ClockReading { secs, hour: hour as u8, minute: minute as u8 }
}

} // verus!
