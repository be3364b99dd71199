//! Points in time, and the clock that the library reads.

use std::time::{Duration, SystemTime, SystemTimeError};
use vstd::prelude::*;

verus! {

/// A point in time: whole seconds since 1970-01-01 00:00:00 UTC and the
/// nanoseconds past that second (over one second only in a leap second).
#[derive(Debug, Clone, Copy, PartialEq, Eq, Structural)]
pub struct Timestamp {
    pub secs: i64,
    pub nanos: u32,
}

/// `a` comes strictly after `b`.
pub open spec fn is_after(a: Timestamp, b: Timestamp) -> bool {
    a.secs > b.secs || (a.secs == b.secs && a.nanos > b.nanos)
}

/// A time that the UTC clock can give: not before the Unix epoch, with its
/// nanoseconds below one second.
pub open spec fn clock_time(t: Timestamp) -> bool {
    t.secs >= 0 && t.nanos < 1_000_000_000
}

impl Timestamp {
    /// Whether `self` comes strictly after `other`.
    pub fn after(&self, other: &Timestamp) -> (res: bool)
        ensures
            res == is_after(*self, *other),
    {
        self.secs > other.secs || (self.secs == other.secs && self.nanos > other.nanos)
    }
}

/// The system clock's time type.
#[verifier::external_type_specification]
#[verifier::external_body]
pub struct ExSystemTime(SystemTime);

/// The error of a time that lies before another.
#[verifier::external_type_specification]
#[verifier::external_body]
pub struct ExSystemTimeError(SystemTimeError);

/// The current system time (`SystemTime::now`); it depends on the clock,
/// so nothing is stated of it.
#[verifier::external_body]
fn system_now() -> SystemTime {
    SystemTime::now()
}

/// The time elapsed from the Unix epoch to `t`
/// (`SystemTime::duration_since(UNIX_EPOCH)`), an error where `t` lies
/// before the epoch; nothing is stated of the duration.
#[verifier::external_body]
fn since_unix_epoch(t: &SystemTime) -> Result<Duration, SystemTimeError> {
    t.duration_since(SystemTime::UNIX_EPOCH)
}

/// The whole seconds of a duration (`Duration::as_secs`); the duration is
/// opaque here, so nothing is stated of the number.
#[verifier::external_body]
fn whole_secs(d: &Duration) -> u64 {
    d.as_secs()
}

/// The nanoseconds past the whole seconds of a duration
/// (`Duration::subsec_nanos`), which its documentation puts below one
/// billion.
#[verifier::external_body]
fn subsec_nanos(d: &Duration) -> (res: u32)
    ensures
        res < 1_000_000_000,
{
    d.subsec_nanos()
}

/// The system clock cannot give the time: it is set before the Unix epoch
/// (or beyond what a `Timestamp` holds).
#[derive(Debug, Clone, Copy, PartialEq, Eq, Structural)]
pub struct ClockError;

/// The point in time `secs` whole seconds and `nanos` nanoseconds after
/// the Unix epoch, `None` where the seconds do not fit in an `i64`.
pub fn timestamp_of(secs: u64, nanos: u32) -> (res: Option<Timestamp>)
    ensures
        res == (if secs <= i64::MAX {
            Some(Timestamp { secs: secs as i64, nanos })
        } else {
            None
        }),
{
    if secs > 0x7fff_ffff_ffff_ffffu64 {
        None
    } else {
        Some(Timestamp { secs: secs as i64, nanos })
    }
}

/// The current time in UTC by the system clock, as seconds and
/// nanoseconds since the Unix epoch; `None` where the clock is set before
/// the epoch, or so far after it that the seconds do not fit in an `i64`.
pub(crate) fn utc_now() -> (res: Option<Timestamp>)
    ensures
        res matches Some(t) ==> clock_time(t),
{
    let now = system_now();
    match since_unix_epoch(&now) {
        Ok(d) => timestamp_of(whole_secs(&d), subsec_nanos(&d)),
        Err(_) => None,
    }
}

/// The whole seconds from the Unix epoch to now on the system clock, or
/// `None` where the clock is set before the epoch.
pub(crate) fn unix_secs_now() -> Option<u64> {
    let now = system_now();
    match since_unix_epoch(&now) {
        Ok(d) => Some(whole_secs(&d)),
        Err(_) => None,
    }
}

} // verus!
