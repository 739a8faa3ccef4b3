//! The one reading of the wall clock the persistence layer timestamps
//! rows with.

use vstd::prelude::*;

verus! {

/// Relies on std::time::SystemTime::now and its distance from the epoch:
/// the milliseconds since the epoch, and zero when the clock stands
/// before it. Nothing more is promised of a clock reading.
#[verifier::external_body]
pub fn unix_ms() -> (r: i64)
    ensures
        r >= 0,
{
    std::time::SystemTime::now()
        .duration_since(std::time::UNIX_EPOCH)
        .unwrap_or(std::time::Duration::from_secs(0))
        .as_millis() as i64
}

} // verus!
