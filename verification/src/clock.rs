//! The time source: the system clock, read in microseconds.

use std::time::{Duration, SystemTime, UNIX_EPOCH};
use vstd::prelude::*;

verus! {

/// A reading of the system clock: opaque to the verifier.
#[verifier::external_type_specification]
#[verifier::external_body]
pub struct ExSystemTime(SystemTime);

/// `SystemTime::now`: the clock's current reading, of which nothing is known.
pub assume_specification[ SystemTime::now ]() -> (reading: SystemTime);

/// `Duration::as_secs`: the whole seconds of a duration.
pub assume_specification[ Duration::as_secs ](span: &Duration) -> (secs: u64);

/// `Duration::subsec_nanos`: the fractional part of a duration in
/// nanoseconds, which is less than one second.
pub assume_specification[ Duration::subsec_nanos ](span: &Duration) -> (nanos: u32)
    ensures
        nanos < 1_000_000_000,
;

/// `SystemTime::duration_since` against `UNIX_EPOCH`: the time elapsed since
/// the epoch, or nothing where the reading lies before it.
#[verifier::external_body]
fn since_epoch(reading: &SystemTime) -> (span: Option<Duration>) {
    reading.duration_since(UNIX_EPOCH).ok()
}

/// Microseconds in `secs` seconds and `nanos` nanoseconds, fractions of a
/// microsecond dropped, capped at the largest `u64`.
pub open spec fn microseconds_of(secs: u64, nanos: u32) -> u64 {
    let exact = secs * 1_000_000 + nanos / 1_000;
    if exact > u64::MAX {
        u64::MAX
    } else {
        exact as u64
    }
}

/// Converts a span given in seconds and nanoseconds to microseconds.
pub fn to_microsecond(secs: u64, nanos: u32) -> (micros: u64)
    ensures
        micros == microseconds_of(secs, nanos),
{
    let frac: u64 = (nanos / 1_000) as u64;
    match secs.checked_mul(1_000_000) {
        Some(whole) => match whole.checked_add(frac) {
            Some(sum) => sum,
            None => u64::MAX,
        },
        None => {
            u64::MAX
        },
    }
}

/// The current time in microseconds since the Unix epoch. A clock that reads
/// before the epoch gives 0; a time too large for a `u64` gives the largest.
pub fn now_microsecond() -> (now: u64) {
    let reading = SystemTime::now();
    match since_epoch(&reading) {
        Some(span) => to_microsecond(span.as_secs(), span.subsec_nanos()),
        None => 0,
    }
}

} // verus!
