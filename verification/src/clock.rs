//! The wall clock, read as whole seconds since the Unix epoch.

use vstd::prelude::*;
use std::time::{Duration, SystemTime, SystemTimeError};

verus! {

/// `std::time::SystemTime`, a point in time, as a value that is carried along.
#[verifier::external_type_specification]
#[verifier::external_body]
pub struct ExSystemTime(SystemTime);

/// `std::time::SystemTimeError`, the error for a time that lies before the
/// one it is measured from, as a value that is carried along.
#[verifier::external_type_specification]
#[verifier::external_body]
pub struct ExSystemTimeError(SystemTimeError);

/// `SystemTime::now`: the time on the system clock. Nothing is claimed of it.
#[verifier::external_body]
fn system_now() -> SystemTime {
    SystemTime::now()
}

/// `SystemTime::duration_since` the Unix epoch: how long after it `time`
/// lies, or an error for a time before it. Nothing is claimed of either.
#[verifier::external_body]
fn since_epoch(time: &SystemTime) -> Result<Duration, SystemTimeError> {
    time.duration_since(std::time::UNIX_EPOCH)
}

/// `Duration::as_secs`: the whole seconds of `span`. Nothing is claimed of
/// their number.
#[verifier::external_body]
fn whole_secs(span: &Duration) -> u64 {
    span.as_secs()
}

/// The time now in whole seconds since the Unix epoch; zero on a clock that
/// is set before it.
pub(crate) fn unix_now() -> u64 {
    let time = system_now();
    match since_epoch(&time) {
        Ok(span) => whole_secs(&span),
        Err(_) => 0,
    }
}

} // verus!
