//! Wall-clock and monotonic time.
use vstd::prelude::*;
use std::time::{Duration, Instant, SystemTime};

verus! {

#[verifier::external_type_specification]
#[verifier::external_body]
pub struct ExInstant(Instant);

#[verifier::external_type_specification]
#[verifier::external_body]
pub struct ExSystemTime(SystemTime);

/// Calls `SystemTime::now`; nothing is claimed of the reading.
#[verifier::external_body]
fn system_time_now() -> SystemTime {
    SystemTime::now()
}

/// Calls `SystemTime::duration_since(UNIX_EPOCH)`, with its error (a clock set before
/// 1970) as `None`; nothing is claimed of the duration.
#[verifier::external_body]
fn since_unix_epoch(t: &SystemTime) -> Option<Duration> {
    match t.duration_since(std::time::UNIX_EPOCH) {
        Ok(d) => Some(d),
        Err(_) => None,
    }
}

/// Calls `Duration::as_secs`; the duration is opaque here, so nothing is claimed.
#[verifier::external_body]
fn whole_secs(d: &Duration) -> u64 {
    d.as_secs()
}

/// Calls `Instant::now`; nothing is claimed of the reading.
#[verifier::external_body]
pub(crate) fn instant_now() -> Instant {
    Instant::now()
}

/// Calls `Instant::elapsed`; nothing is claimed of the duration.
#[verifier::external_body]
fn elapsed_since(origin: &Instant) -> Duration {
    origin.elapsed()
}

/// Calls `Duration::as_nanos`; the duration is opaque here, so nothing is claimed.
#[verifier::external_body]
fn total_nanos(d: &Duration) -> u128 {
    d.as_nanos()
}

/// The Unix time of a wall-clock reading given as its whole seconds since the epoch,
/// `None` for a reading before the epoch.
pub open spec fn unix_secs_spec(reading: Option<u64>) -> u64 {
    match reading {
        Some(s) => s,
        None => 0,
    }
}

/// The Unix time of a wall-clock reading: its whole seconds since the epoch, or 0 when
/// the clock reads before the epoch (`None`).
pub fn unix_secs(reading: Option<u64>) -> (r: u64)
    ensures
        r == unix_secs_spec(reading),
{
    match reading {
        Some(s) => s,
        None => 0,
    }
}

/// Seconds since the Unix epoch by the wall clock, 0 when the clock reads earlier: the
/// clock's reading, taken as its whole seconds since the epoch, goes through
/// `unix_secs`. Which reading the clock gives is not stated.
pub fn now_unix() -> (r: u64)
    ensures
        exists|reading: Option<u64>| r == unix_secs_spec(reading),
{
    let now = system_time_now();
    let reading = match since_unix_epoch(&now) {
        Some(d) => Some(whole_secs(&d)),
        None => None,
    };
    let r = unix_secs(reading);
    assert(r == unix_secs_spec(reading));
    r
}

/// Nanoseconds on a monotonic clock since `origin` was read.
pub fn nanos_since(origin: &Instant) -> u128 {
    total_nanos(&elapsed_since(origin))
}

} // verus!
