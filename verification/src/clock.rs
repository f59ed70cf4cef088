//! The wall clock.

use vstd::prelude::*;

verus! {

/// The current wall-clock time in milliseconds since the Unix epoch:
/// `chrono::Utc::now`, read through `DateTime::timestamp_millis`.
///
/// Trusted, and nothing is claimed of the reading: two calls may return the
/// same instant, or a later call an earlier one when the system clock is set
/// back. `Utc::now` panics on a system clock that stands before the epoch.
#[verifier::external_body]
pub(crate) fn now_millis() -> i64 {
    chrono::Utc::now().timestamp_millis()
}

} // verus!
