//! The current time, in whole seconds since the Unix epoch.

use chrono::Utc;
use vstd::prelude::*;

verus! {

/// The latest time chrono represents, 262142-12-31T23:59:59 UTC, in seconds
/// since the Unix epoch.
pub const MAX_TIMESTAMP: i64 = 8_210_266_876_799;

/// Relies on chrono's `Utc::now` and `DateTime::timestamp`: the current time in
/// seconds since the Unix epoch. `Utc::now` panics on a clock before the epoch
/// and builds a `DateTime`, so the value lies between 0 and chrono's latest time.
#[verifier::external_body]
pub(crate) fn now_seconds() -> (r: i64)
    ensures
        0 <= r <= MAX_TIMESTAMP,
{
    Utc::now().timestamp()
}

} // verus!
