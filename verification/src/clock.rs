//! The wall clock, read through the standard library.

use vstd::prelude::*;
use std::time::{Duration, SystemTime, SystemTimeError, UNIX_EPOCH};

verus! {

/// `std::time::SystemTime`: a reading of the system clock. Nothing is said
/// of what it holds.
#[verifier::external_type_specification]
#[verifier::external_body]
pub struct ExSystemTime(SystemTime);

/// `std::time::SystemTimeError`: what `duration_since` returns when the
/// second reading is the later one.
#[verifier::external_type_specification]
#[verifier::external_body]
pub struct ExSystemTimeError(SystemTimeError);

/// `SystemTime::now`: reads the system clock. The contract claims nothing
/// of the reading.
#[verifier::external_body]
fn system_now() -> SystemTime {
    SystemTime::now()
}

/// `SystemTime::duration_since`, with the UNIX epoch for the earlier
/// reading: the time from the epoch to `t`, or an error where `t` lies
/// before the epoch. The contract claims nothing of the result.
#[verifier::external_body]
fn since_epoch(t: &SystemTime) -> Result<Duration, SystemTimeError> {
    t.duration_since(UNIX_EPOCH)
}

/// `Duration::as_secs`: the whole seconds of a duration. The contract
/// claims nothing of the result.
pub assume_specification[ Duration::as_secs ](d: &Duration) -> (s: u64)
;

/// `Duration::subsec_millis`: the part of a duration below one second, in
/// whole milliseconds, which is less than one thousand.
pub assume_specification[ Duration::subsec_millis ](d: &Duration) -> (ms: u32)
    ensures
        ms < 1000,
;

/// The time as whole seconds and milliseconds since the UNIX epoch. A
/// clock that stands before the epoch reads as the epoch.
pub fn now() -> (t: (u64, u32))
    ensures
        t.1 < 1000,
{
    let reading = system_now();
    match since_epoch(&reading) {
        Ok(d) => (d.as_secs(), d.subsec_millis()),
        Err(_) => (0, 0),
    }
}

/// The current second: whole seconds since the UNIX epoch, and 0 where the
/// clock stands before the epoch.
pub fn now_sec() -> u64 {
    now().0
}

} // verus!
