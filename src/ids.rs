//! Identifiers and timestamps taken from the system clock.
use vstd::prelude::*;
use std::time::SystemTime;
use crate::clock::{unix_seconds, unix_nanos};

verus! {

/// The whole seconds in `n` nanoseconds, where they fit in 64 bits.
pub open spec fn whole_seconds(n: u128) -> Option<u64> {
    if n / 1_000_000_000 <= u64::MAX {
        Some((n / 1_000_000_000) as u64)
    } else {
        None
    }
}

/// The whole seconds in `n` nanoseconds, where they fit in 64 bits.
pub fn seconds_from_nanos(n: u128) -> (r: Option<u64>)
    ensures
        r == whole_seconds(n),
{
    let s = n / 1_000_000_000;
    if s <= u64::MAX as u128 {
        Some(s as u64)
    } else {
        None
    }
}

/// Seconds since the Unix epoch, or `None` where the clock reads earlier:
/// the whole seconds of a clock reading in nanoseconds.
pub fn get_current_timestamp() -> (r: Option<u64>)
    ensures
        r matches Some(s) ==> exists|n: u128| whole_seconds(n) == Some(s),
{
    unix_seconds(&SystemTime::now())
}

/// A player identifier: the current Unix time in whole seconds (two drawn
/// within one second are equal).
pub fn generate_player_id() -> (r: Option<u64>)
    ensures
        r matches Some(s) ==> exists|n: u128| whole_seconds(n) == Some(s),
{
    get_current_timestamp()
}

/// A store identifier: the current Unix time in whole seconds.
pub fn generate_store_id() -> (r: Option<u64>)
    ensures
        r matches Some(s) ==> exists|n: u128| whole_seconds(n) == Some(s),
{
    get_current_timestamp()
}

/// A salt: the low 64 bits of the current Unix time in nanoseconds.
pub fn generate_random_salt() -> (r: Option<u64>) {
    match unix_nanos(&SystemTime::now()) {
        Some(n) => Some(low_64_bits(n)),
        None => None,
    }
}

/// The value of `n` modulo `2^64`.
pub fn low_64_bits(n: u128) -> (r: u64)
    ensures
        r == n % 0x1_0000_0000_0000_0000,
{
    (n % 0x1_0000_0000_0000_0000) as u64
}

} // verus!
