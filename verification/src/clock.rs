//! The machine's clock, as std's `SystemTime` gives it.
use vstd::prelude::*;
use std::time::{Duration, SystemTime, SystemTimeError};

verus! {

/// std's `SystemTime`, carried through as an opaque value.
#[verifier::external_type_specification]
#[verifier::external_body]
pub struct ExSystemTime(std::time::SystemTime);

/// std's `SystemTimeError`, returned when a time lies before the epoch.
#[verifier::external_type_specification]
#[verifier::external_body]
pub struct ExSystemTimeError(std::time::SystemTimeError);

/// std's `SystemTime::now`. Nothing is claimed of the value: it is the
/// machine's clock.
#[verifier::external_body]
pub(crate) fn system_now() -> SystemTime {
    SystemTime::now()
}

/// std's `SystemTime::duration_since`, measured from `UNIX_EPOCH`. It fails
/// for a time before the epoch; nothing is claimed of which times those are,
/// since a `SystemTime` is opaque here.
#[verifier::external_body]
pub(crate) fn duration_since_epoch(time: &SystemTime) -> Result<Duration, SystemTimeError> {
    time.duration_since(std::time::UNIX_EPOCH)
}

/// std's `Duration::as_secs`: the whole seconds of a duration. Nothing is
/// claimed of the value, since a `Duration` is opaque here.
#[verifier::external_body]
pub(crate) fn whole_seconds(d: &Duration) -> u64 {
    d.as_secs()
}

} // verus!
