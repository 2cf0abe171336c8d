//! The wall clock, read as whole seconds since the Unix epoch.

use core::time::Duration;
use std::time::{SystemTime, SystemTimeError, UNIX_EPOCH};
use vstd::prelude::*;

verus! {

#[verifier::external_type_specification]
#[verifier::external_body]
pub struct ExSystemTime(std::time::SystemTime);

#[verifier::external_type_specification]
#[verifier::external_body]
pub struct ExSystemTimeError(std::time::SystemTimeError);

/// `SystemTime::now` reads the clock; nothing is known of what it shows.
pub assume_specification[ std::time::SystemTime::now ]() -> std::time::SystemTime;

/// The whole seconds that a duration holds, fractions of a second dropped:
/// what `Duration::as_secs` gives for it.
pub uninterp spec fn whole_seconds(d: Duration) -> u64;

/// Calls `SystemTime::duration_since` with the Unix epoch, which fails where
/// the clock shows a time before it.
#[verifier::external_body]
fn since_unix_epoch(now: &SystemTime) -> Result<Duration, SystemTimeError> {
    now.duration_since(UNIX_EPOCH)
}

/// The current time in seconds since the Unix epoch, or `None` where the
/// clock is set before the epoch.
pub(crate) fn unix_seconds() -> Option<u64> {
    let now = SystemTime::now();
    elapsed_seconds(since_unix_epoch(&now))
}

/// `Duration::as_secs` reads nothing but the duration, so its result is a
/// function of the duration: its whole seconds.
pub assume_specification[ core::time::Duration::as_secs ](d: &Duration) -> (res: u64)
    ensures
        res == whole_seconds(*d),
;

/// The time stamp for a clock that shows `elapsed` since the Unix epoch: the
/// whole seconds elapsed, and none where the clock is set before the epoch.
pub open spec fn seconds_of(elapsed: Result<Duration, SystemTimeError>) -> Option<u64> {
    match elapsed {
        Ok(duration) => Some(whole_seconds(duration)),
        Err(_) => None,
    }
}

/// The time stamp for what the clock answered when asked for the time since
/// the Unix epoch.
pub fn elapsed_seconds(elapsed: Result<Duration, SystemTimeError>) -> (res: Option<u64>)
    ensures
        res == seconds_of(elapsed),
{
    match elapsed {
        Ok(duration) => Some(duration.as_secs()),
        Err(_) => None,
    }
}

} // verus!
