//! The wall clock, as a logical tick.

use vstd::prelude::*;

verus! {

/// Relies on `std::time::SystemTime::now` and
/// `SystemTime::duration_since`: the seconds of the machine clock
/// since the Unix epoch. The result depends on that clock alone, so
/// nothing is promised of it; a clock before the epoch reads as 0.
#[verifier::external_body]
fn unix_seconds() -> usize {
    std::time::SystemTime::now()
        .duration_since(std::time::UNIX_EPOCH)
        .map(|d| d.as_secs() as usize)
        .unwrap_or(0)
}

/// Return the current second since the Unix epoch.
///
/// Every galaxy operation takes the caller's tick; callers that live
/// on real time take it from here.
pub fn tick() -> usize {
    unix_seconds()
}

} // verus!
