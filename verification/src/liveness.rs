//! Liveness classification of a slot's heartbeat age.
//!
//! The classification is derived presentation state, never stored: a slot is
//! `Fresh` while its last heartbeat is less than ten seconds old, `Stale`
//! while it is at least ten seconds but less than two minutes old, and
//! `Lost` otherwise or when the slot has no heartbeat at all.

use vstd::prelude::*;

verus! {

/// Heartbeat ages below this bound (in milliseconds) classify as `Fresh`.
pub const FRESH_WINDOW_MS: i64 = 10_000;

/// Heartbeat ages below this bound (in milliseconds), but not below
/// `FRESH_WINDOW_MS`, classify as `Stale`; everything else is `Lost`.
pub const STALE_WINDOW_MS: i64 = 120_000;

/// Derived presentation state of a slot, computed from heartbeat age.
#[derive(Clone, Copy, Debug, PartialEq, Eq, Structural)]
pub enum Liveness {
    Fresh,
    Stale,
    Lost,
}

/// What `classify` returns: `Lost` without a heartbeat, otherwise decided by
/// the age `now_ms - last_heartbeat_ms`, with ages below `FRESH_WINDOW_MS`
/// (negative ones included) `Fresh` and ages below `STALE_WINDOW_MS` `Stale`.
pub open spec fn spec_classify(now_ms: i64, last_heartbeat_ms: Option<i64>) -> Liveness {
    match last_heartbeat_ms {
        None => Liveness::Lost,
        Some(last) => {
            if now_ms - last < FRESH_WINDOW_MS {
                Liveness::Fresh
            } else if now_ms - last < STALE_WINDOW_MS {
                Liveness::Stale
            } else {
                Liveness::Lost
            }
        },
    }
}

/// Classify a slot's presentation state from the current time and its last
/// heartbeat, both in milliseconds. An unassigned slot has no heartbeat and
/// is therefore `Lost`.
pub fn classify(now_ms: i64, last_heartbeat_ms: Option<i64>) -> (r: Liveness)
    ensures
        r == spec_classify(now_ms, last_heartbeat_ms),
{
    match last_heartbeat_ms {
        None => Liveness::Lost,
        Some(last) => {
            let age: i128 = (now_ms as i128) - (last as i128);
            if age < FRESH_WINDOW_MS as i128 {
                Liveness::Fresh
            } else if age < STALE_WINDOW_MS as i128 {
                Liveness::Stale
            } else {
                Liveness::Lost
            }
        },
    }
}

} // verus!
