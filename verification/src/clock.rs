//! The wall clock.

use vstd::prelude::*;

verus! {

/// Reads the current time as microseconds since the Unix epoch (UTC).
///
/// Trusted: the body calls `chrono::Utc::now` and converts the instant with
/// `DateTime::timestamp_micros`. Nothing is proved of it. The contract claims
/// only that the reading is not negative: `now` measures the time elapsed
/// since the epoch and does not return for a clock set before 1970.
#[verifier::external_body]
pub(crate) fn current_time() -> (r: i64)
    ensures
        r >= 0,
{
    chrono::Utc::now().timestamp_micros()
}

} // verus!
