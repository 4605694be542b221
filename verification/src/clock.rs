//! Wall-clock time for heartbeat timestamps.

use vstd::prelude::*;

verus! {

/// Relies on `chrono::Utc::now` and `DateTime::timestamp_millis`: the
/// current wall-clock time as non-leap-milliseconds since the Unix epoch.
/// The value depends on the environment, so nothing is assumed of it; every
/// caller is verified for an arbitrary result.
#[verifier::external_body]
pub(crate) fn now_millis() -> i64 {
    chrono::Utc::now().timestamp_millis()
}

} // verus!
