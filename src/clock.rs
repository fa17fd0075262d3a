//! Readings of the system clock. Nothing is known of what the clock says:
//! the engine reports a failure wherever a reading is missing.
use vstd::prelude::*;
use std::time::{SystemTime, UNIX_EPOCH};
use crate::ids::{seconds_from_nanos, whole_seconds};

verus! {

#[verifier::external_type_specification]
#[verifier::external_body]
pub struct ExSystemTime(SystemTime);

/// Relies on `SystemTime::now`: the current time of the system clock.
pub assume_specification[ SystemTime::now ]() -> SystemTime;

/// Relies on `SystemTime::elapsed`: nanoseconds from `start` to now, or
/// `None` where the clock went backward.
#[verifier::external_body]
pub(crate) fn nanos_since(start: &SystemTime) -> (r: Option<u128>) {
    start.elapsed().ok().map(|d| d.as_nanos())
}

/// Relies on `SystemTime::duration_since(UNIX_EPOCH)`: nanoseconds from the
/// epoch to `t`, or `None` where `t` lies before it.
#[verifier::external_body]
pub(crate) fn unix_nanos(t: &SystemTime) -> (r: Option<u128>) {
    t.duration_since(UNIX_EPOCH).ok().map(|d| d.as_nanos())
}

/// Whole seconds from the epoch to `t`.
pub(crate) fn unix_seconds(t: &SystemTime) -> (r: Option<u64>)
    ensures
        r matches Some(s) ==> exists|n: u128| whole_seconds(n) == Some(s),
{
    match unix_nanos(t) {
        Some(n) => seconds_from_nanos(n),
        None => None,
    }
}

} // verus!
