//! The process clock, through the time crate. The library never interprets
//! "now" itself: the value is read here once and handed on as a parameter,
//! so every transition is verified for all clock readings.

use vstd::prelude::*;

verus! {

/// Relies on `time::OffsetDateTime::now_utc` and `unix_timestamp`: the
/// current wall-clock time in whole seconds since the Unix epoch. Nothing is
/// promised of the value; two calls may differ.
#[verifier::external_body]
pub(crate) fn now_unix_seconds() -> i64 {
    time::OffsetDateTime::now_utc().unix_timestamp()
}

} // verus!
