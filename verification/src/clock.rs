//! The clock: the one place the library asks the host for the time.

use vstd::prelude::*;

verus! {

/// Relies on chrono::Utc::now: the current time, as milliseconds since the
/// Unix epoch. Nothing is assumed of the value: the host clock may stand
/// anywhere and move either way between calls.
#[verifier::external_body]
pub(crate) fn now_millis() -> i64 {
    chrono::Utc::now().timestamp_millis()
}

} // verus!
