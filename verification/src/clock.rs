//! Wall-clock timestamps, in whole seconds since the Unix epoch.

use std::time::Duration;
use std::time::SystemTime;
use std::time::SystemTimeError;
use vstd::prelude::*;

verus! {

/// `std::time::SystemTime`, carried through as an opaque value.
#[verifier::external_type_specification]
#[verifier::external_body]
pub struct ExSystemTime(SystemTime);

/// `std::time::SystemTimeError`, carried through as an opaque value.
#[verifier::external_type_specification]
#[verifier::external_body]
pub struct ExSystemTimeError(SystemTimeError);

/// `SystemTime::now` reads the machine's clock. Nothing is claimed of the
/// value: two readings may differ in either direction.
pub assume_specification[ SystemTime::now ]() -> (now: SystemTime)
;

/// `SystemTime::duration_since` measures the time from `earlier` to `later`,
/// and fails when `earlier` is the later of the two. Nothing is claimed of
/// which it is.
pub assume_specification[ SystemTime::duration_since ](
    later: &SystemTime,
    earlier: SystemTime,
) -> (elapsed: Result<Duration, SystemTimeError>)
;

/// `Duration::as_secs` gives the whole seconds of a duration. Nothing is
/// claimed of the number.
pub assume_specification[ Duration::as_secs ](elapsed: &Duration) -> (secs: u64)
;

/// The constant `std::time::UNIX_EPOCH`, the instant from which timestamps
/// are counted.
#[verifier::external_body]
fn unix_epoch() -> (epoch: SystemTime) {
    std::time::UNIX_EPOCH
}

/// The current Unix timestamp in seconds, or `None` where the clock is set
/// before the epoch.
pub fn current_time() -> (secs: Option<u64>) {
    let now = SystemTime::now();
    match now.duration_since(unix_epoch()) {
        Ok(elapsed) => Some(elapsed.as_secs()),
        Err(_) => None,
    }
}

} // verus!
