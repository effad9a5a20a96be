//! The clock. Reading the current time is the one effectful call the
//! library makes; every caller takes the instant as a plain value and
//! states what holds of any instant.

use vstd::prelude::*;

verus! {

/// Relies on chrono's `Utc::now`: the current time as milliseconds since
/// the Unix epoch. Nothing is assumed of the value.
#[verifier::external_body]
pub(crate) fn now_millis() -> i64 {
    chrono::Utc::now().timestamp_millis()
}

} // verus!
