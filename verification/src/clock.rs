//! Readings of the system's clocks. Each reading depends on when it is
//! taken, so nothing is claimed of the values; the decisions that use them
//! take them as arguments.
use vstd::prelude::*;
use std::time::{Instant, SystemTime};

verus! {

#[verifier::external_type_specification]
#[verifier::external_body]
pub struct ExInstant(Instant);

#[verifier::external_type_specification]
#[verifier::external_body]
pub struct ExSystemTime(SystemTime);

/// `Instant::now`: the current reading of the monotonic clock.
#[verifier::external_body]
pub(crate) fn instant_now() -> (now: Instant) {
    Instant::now()
}

/// `Instant::elapsed`, in nanoseconds: the time since `earlier` on the
/// monotonic clock (zero if the clock appears to have gone back).
#[verifier::external_body]
pub(crate) fn nanos_since(earlier: &Instant) -> (nanos: u128) {
    earlier.elapsed().as_nanos()
}

/// `SystemTime::now`: the current wall-clock time.
#[verifier::external_body]
pub(crate) fn system_now() -> (now: SystemTime) {
    SystemTime::now()
}

/// `SystemTime::duration_since(UNIX_EPOCH)`, in milliseconds; `None` when the
/// time lies before the epoch.
#[verifier::external_body]
pub(crate) fn millis_since_epoch(time: &SystemTime) -> (millis: Option<u128>) {
    match time.duration_since(SystemTime::UNIX_EPOCH) {
        Ok(elapsed) => Some(elapsed.as_millis()),
        Err(_) => None,
    }
}

} // verus!
