//! The clocks: the monotonic `std::time::Instant` and the system's wall clock.

use vstd::prelude::*;
use std::time::{Duration, Instant, SystemTime, SystemTimeError};

verus! {

/// `std::time::Instant`, carried through the library as an opaque value.
#[verifier::external_type_specification]
#[verifier::external_body]
pub struct ExInstant(Instant);

/// `std::time::SystemTime`, an opaque reading of the wall clock.
#[verifier::external_type_specification]
#[verifier::external_body]
pub struct ExSystemTime(SystemTime);

/// `std::time::SystemTimeError`, returned for a wall-clock reading before the epoch.
#[verifier::external_type_specification]
#[verifier::external_body]
pub struct ExSystemTimeError(SystemTimeError);

/// The current instant (`Instant::now`); nothing is promised of it.
#[verifier::external_body]
pub(crate) fn instant_now() -> Instant {
    Instant::now()
}

/// The time elapsed since `t` (`Instant::elapsed`); it depends on the clock, so nothing is
/// promised of it.
#[verifier::external_body]
pub(crate) fn elapsed_since(t: &Instant) -> Duration {
    t.elapsed()
}

/// Whole seconds of a duration (`Duration::as_secs`); nothing is stated, as no caller needs
/// more than a value.
#[verifier::external_body]
pub(crate) fn whole_secs(d: &Duration) -> u64 {
    d.as_secs()
}

/// Whole nanoseconds of a duration (`Duration::as_nanos`); nothing is stated, as no caller
/// needs more than a value.
#[verifier::external_body]
pub(crate) fn whole_nanos(d: &Duration) -> u128 {
    d.as_nanos()
}

/// The current wall-clock time (`SystemTime::now`); nothing is promised of it.
#[verifier::external_body]
pub(crate) fn system_now() -> SystemTime {
    SystemTime::now()
}

/// The time since the UNIX epoch (`SystemTime::duration_since(UNIX_EPOCH)`), an error for a
/// reading before it; nothing is promised of the value.
#[verifier::external_body]
pub(crate) fn since_unix_epoch(t: &SystemTime) -> Result<Duration, SystemTimeError> {
    t.duration_since(std::time::UNIX_EPOCH)
}

/// Whole seconds elapsed since `t`, read from the clock.
pub(crate) fn secs_since(t: &Instant) -> u64 {
    let d = elapsed_since(t);
    whole_secs(&d)
}

} // verus!
