//! The time at which a score is read.
use vstd::prelude::*;

verus! {

/// Whole seconds since the Unix epoch by the system clock; 0 when the clock
/// reads a time before the epoch.
///
/// Trusted: calls `std::time::SystemTime::now` and converts the reading to
/// seconds since `UNIX_EPOCH`. Nothing is claimed of the value, which depends
/// on the clock.
#[verifier::external_body]
pub fn unix_time_now() -> u64 {
    std::time::SystemTime::now().duration_since(std::time::UNIX_EPOCH).unwrap_or_default().as_secs()
}

} // verus!
