//! The one outside call the engine makes: reading the wall clock for the
//! timestamps stamped on rows.

use vstd::prelude::*;

verus! {

/// Relies on `chrono::Utc::now` (and `DateTime::timestamp_micros`) for the
/// current time as microseconds since the Unix epoch.  Nothing is assumed
/// about the value: no contract of this crate depends on what the clock
/// returns.  `Utc::now` itself aborts on a system clock set before the
/// Unix epoch.
#[verifier::external_body]
pub(crate) fn now_micros() -> i64 {
    chrono::Utc::now().timestamp_micros()
}

} // verus!
