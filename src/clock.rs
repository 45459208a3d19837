//! The wall clock, the seed of a random fill.

use std::time::{Duration, SystemTime, SystemTimeError};
use vstd::prelude::*;

verus! {

/// `std::time::SystemTime`, an instant of the system clock; opaque here.
#[verifier::external_type_specification]
#[verifier::external_body]
pub struct ExSystemTime(SystemTime);

/// `std::time::SystemTimeError`, a clock reading earlier than the instant it is
/// measured from; opaque here.
#[verifier::external_type_specification]
#[verifier::external_body]
pub struct ExSystemTimeError(SystemTimeError);

/// Relies on `SystemTime::now`: it reads the clock and always returns. Nothing is
/// promised of the instant.
pub assume_specification[ SystemTime::now ]() -> SystemTime;

/// Relies on `SystemTime::duration_since`: it returns without panicking, with an
/// error where `earlier` is later than `self`.
pub assume_specification[ SystemTime::duration_since ](
    this: &SystemTime,
    earlier: SystemTime,
) -> Result<Duration, SystemTimeError>;

/// Relies on `Duration::as_nanos`: the whole nanoseconds of a duration, which
/// always fit in `u128`.
pub assume_specification[ Duration::as_nanos ](d: &Duration) -> u128;

/// Relies on `SystemTime::UNIX_EPOCH`, the instant that clock readings are
/// measured from. Nothing is promised of it.
#[verifier::external_body]
fn unix_epoch() -> SystemTime {
    SystemTime::UNIX_EPOCH
}

/// Nanoseconds since the Unix epoch by the system clock; zero if the clock reads
/// earlier than the epoch.
pub fn clock_nanos() -> u128 {
    match SystemTime::now().duration_since(unix_epoch()) {
        Ok(d) => d.as_nanos(),
        Err(_) => 0,
    }
}

} // verus!
