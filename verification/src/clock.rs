//! The wall clock. Timestamps are plain milliseconds since the Unix epoch.

use vstd::prelude::*;

verus! {

/// Relies on chrono::Utc::now (and DateTime::timestamp_millis): the current
/// wall-clock time, reduced to milliseconds since the Unix epoch. Nothing is
/// promised of the value: the clock is the environment's.
#[verifier::external_body]
pub(crate) fn now_millis() -> i64 {
    chrono::Utc::now().timestamp_millis()
}

} // verus!
