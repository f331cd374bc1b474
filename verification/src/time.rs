//! Timestamps, kept as plain nanosecond counts.

use vstd::prelude::*;

verus! {

/// Relies on chrono::Utc::now for the current time, given out as
/// nanoseconds since the Unix epoch. The clock decides the value,
/// so nothing is promised of it.
#[verifier::external_body]
pub fn now_nanos() -> i64 {
    chrono::Utc::now().timestamp_nanos_opt().unwrap_or(0)
}

} // verus!
