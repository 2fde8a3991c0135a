//! The wall clock, read as Unix seconds.

use vstd::prelude::*;

verus! {

/// Seconds since the Unix epoch from `SystemTime::now()`, or `None` when the
/// clock reads earlier than the epoch. Nothing is promised of the value: it
/// is the time at the call.
#[verifier::external_body]
pub(crate) fn unix_time_secs() -> (r: Option<u64>) {
    match std::time::SystemTime::now().duration_since(std::time::UNIX_EPOCH) {
        Ok(d) => Some(d.as_secs()),
        Err(_) => None,
    }
}

/// A clock reading as seconds: the reading, or `0` for a clock before the epoch.
pub fn secs_or_zero(reading: Option<u64>) -> (r: u64)
    ensures
        r == match reading {
            Some(s) => s,
            None => 0,
        },
{
    match reading {
        Some(s) => s,
        None => 0,
    }
}

/// `unix_time_secs`, with `0` for a clock before the epoch (see `secs_or_zero`).
/// What the clock reads is not stated: it is the time of the call.
pub fn unix_now_or_zero() -> (r: u64) {
    secs_or_zero(unix_time_secs())
}

} // verus!
