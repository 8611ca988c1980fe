//! The wall clock.

use vstd::prelude::*;

verus! {

/// The earliest instant `chrono` represents, in seconds since the Unix epoch.
pub const MIN_TIMESTAMP: i64 = -8334601315200;

/// The latest instant `chrono` represents, in seconds since the Unix epoch.
pub const MAX_TIMESTAMP: i64 = 8210266876799;

/// Seconds since the Unix epoch, now (wraps `chrono::Utc::now().timestamp()`). Only the range
/// of instants that `chrono` represents is promised; the value is the time of the call.
#[verifier::external_body]
pub(crate) fn now_unix_seconds() -> (r: i64)
    ensures
        MIN_TIMESTAMP <= r <= MAX_TIMESTAMP,
{
    chrono::Utc::now().timestamp()
}

} // verus!
