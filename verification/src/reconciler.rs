//! Client-side reconciliation of slot ownership.
//!
//! The reconciler holds the locally cached identity (slot plus secret,
//! persisted by the surrounding application across reloads) and one
//! pending-operation guard per assignment operation, each with an
//! independent bounded timeout. Starting an operation arms its guard; a
//! successful response updates and confirms the identity; a failure or a
//! timeout firing first rolls the optimistic state back — the identity is
//! cleared and a user-visible error is surfaced. While a persisted identity
//! exists that has not yet been confirmed live in this process (right after
//! a reload), an automatic reassign is due: that is how a refresh recovers
//! slot ownership without re-claiming. The surrounding application issues
//! the actual calls and feeds their outcomes back in; every decision is
//! made here.

use vstd::prelude::*;

verus! {

use crate::errors::AssignmentError;
use crate::session::{AssignmentGrant, Identity, SessionId};

/// Milliseconds an operation may stay pending before its timeout fires.
pub const OP_TIMEOUT_MS: i64 = 10_000;

/// The user-visible outcome of a failed or timed-out operation.
#[derive(Clone, Copy, Debug, PartialEq, Eq, Structural)]
pub enum ReconcileError {
    AssignFailed,
    ReassignFailed,
    UnassignFailed,
    TimedOut,
}

/// A pending-operation guard armed at `since_ms` has timed out once
/// `OP_TIMEOUT_MS` have passed.
pub open spec fn guard_timed_out(since_ms: Option<i64>, now_ms: i64) -> bool {
    match since_ms {
        Some(since) => now_ms - since >= OP_TIMEOUT_MS,
        None => false,
    }
}

/// Client-side assignment state: the cached identity, whether it has been
/// confirmed live in this process, the three pending-operation guards
/// (arming times), and the last surfaced error.
pub struct ClientReconciler {
    pub identity: Option<Identity>,
    pub confirmed: bool,
    pub pending_assign_since_ms: Option<i64>,
    pub pending_reassign_since_ms: Option<i64>,
    pub pending_unassign_since_ms: Option<i64>,
    pub last_error: Option<ReconcileError>,
}

impl ClientReconciler {
    /// Fresh state for one process, picking up whatever identity the
    /// application persisted: nothing is pending, nothing is confirmed, no
    /// error is shown.
    pub fn new(persisted: Option<Identity>) -> (r: ClientReconciler)
        ensures
            r.identity == persisted,
            !r.confirmed,
            r.pending_assign_since_ms is None,
            r.pending_reassign_since_ms is None,
            r.pending_unassign_since_ms is None,
            r.last_error is None,
    {
        ClientReconciler {
            identity: persisted,
            confirmed: false,
            pending_assign_since_ms: None,
            pending_reassign_since_ms: None,
            pending_unassign_since_ms: None,
            last_error: None,
        }
    }

    /// Whether the automatic reassign should be issued now: a persisted
    /// identity exists whose secret has not been confirmed live in this
    /// process, and no reassign is already in flight.
    pub fn reassign_due(&self) -> (r: bool)
        ensures
            r == (self.identity is Some && !self.confirmed && self.pending_reassign_since_ms
                is None),
    {
        self.identity.is_some() && !self.confirmed && self.pending_reassign_since_ms.is_none()
    }

    /// Arm the assign guard at `now_ms`; the application then issues the
    /// assign call. Nothing else changes.
    pub fn start_assign(&mut self, now_ms: i64)
        ensures
            *final(self) == (ClientReconciler {
                pending_assign_since_ms: Some(now_ms),
                ..*old(self)
            }),
    {
        self.pending_assign_since_ms = Some(now_ms);
    }

    /// Arm the reassign guard at `now_ms`; the application then issues the
    /// reassign call. Nothing else changes.
    pub fn start_reassign(&mut self, now_ms: i64)
        ensures
            *final(self) == (ClientReconciler {
                pending_reassign_since_ms: Some(now_ms),
                ..*old(self)
            }),
    {
        self.pending_reassign_since_ms = Some(now_ms);
    }

    /// Arm the unassign guard at `now_ms`; the application then issues the
    /// unassign call. Nothing else changes.
    pub fn start_unassign(&mut self, now_ms: i64)
        ensures
            *final(self) == (ClientReconciler {
                pending_unassign_since_ms: Some(now_ms),
                ..*old(self)
            }),
    {
        self.pending_unassign_since_ms = Some(now_ms);
    }

    /// Feed back the assign call's outcome. A response that arrives after
    /// the guard was cleared (the timeout fired first) is ignored. On
    /// success the granted identity is cached and confirmed and any shown
    /// error is cleared; on failure the identity is cleared and the error
    /// surfaced.
    pub fn complete_assign(
        &mut self,
        session_id: SessionId,
        outcome: Result<AssignmentGrant, AssignmentError>,
    )
        ensures
            old(self).pending_assign_since_ms is None ==> *final(self) == *old(self),
            old(self).pending_assign_since_ms is Some ==> (match outcome {
                Ok(grant) => *final(self) == (ClientReconciler {
                    identity: Some(
                        Identity {
                            session_id,
                            slot_index: grant.slot_index,
                            secret: grant.secret,
                        },
                    ),
                    confirmed: true,
                    pending_assign_since_ms: None,
                    last_error: None,
                    ..*old(self)
                }),
                Err(_) => *final(self) == (ClientReconciler {
                    identity: None,
                    confirmed: false,
                    pending_assign_since_ms: None,
                    last_error: Some(ReconcileError::AssignFailed),
                    ..*old(self)
                }),
            }),
    {
        if self.pending_assign_since_ms.is_none() {
            return;
        }
        self.pending_assign_since_ms = None;
        match outcome {
            Ok(grant) => {
                self.identity = Some(
                    Identity { session_id, slot_index: grant.slot_index, secret: grant.secret },
                );
                self.confirmed = true;
                self.last_error = None;
            },
            Err(_) => {
                self.identity = None;
                self.confirmed = false;
                self.last_error = Some(ReconcileError::AssignFailed);
            },
        }
    }

    /// Feed back the reassign call's outcome; as `complete_assign`, with
    /// the reassign guard and error kind.
    pub fn complete_reassign(
        &mut self,
        session_id: SessionId,
        outcome: Result<AssignmentGrant, AssignmentError>,
    )
        ensures
            old(self).pending_reassign_since_ms is None ==> *final(self) == *old(self),
            old(self).pending_reassign_since_ms is Some ==> (match outcome {
                Ok(grant) => *final(self) == (ClientReconciler {
                    identity: Some(
                        Identity {
                            session_id,
                            slot_index: grant.slot_index,
                            secret: grant.secret,
                        },
                    ),
                    confirmed: true,
                    pending_reassign_since_ms: None,
                    last_error: None,
                    ..*old(self)
                }),
                Err(_) => *final(self) == (ClientReconciler {
                    identity: None,
                    confirmed: false,
                    pending_reassign_since_ms: None,
                    last_error: Some(ReconcileError::ReassignFailed),
                    ..*old(self)
                }),
            }),
    {
        if self.pending_reassign_since_ms.is_none() {
            return;
        }
        self.pending_reassign_since_ms = None;
        match outcome {
            Ok(grant) => {
                self.identity = Some(
                    Identity { session_id, slot_index: grant.slot_index, secret: grant.secret },
                );
                self.confirmed = true;
                self.last_error = None;
            },
            Err(_) => {
                self.identity = None;
                self.confirmed = false;
                self.last_error = Some(ReconcileError::ReassignFailed);
            },
        }
    }

    /// Feed back the unassign call's outcome. Success and failure both end
    /// with no cached identity — on success the slot really was released,
    /// on failure the optimistic state is rolled back and the error
    /// surfaced.
    pub fn complete_unassign(&mut self, outcome: Result<(), AssignmentError>)
        ensures
            old(self).pending_unassign_since_ms is None ==> *final(self) == *old(self),
            old(self).pending_unassign_since_ms is Some ==> (match outcome {
                Ok(()) => *final(self) == (ClientReconciler {
                    identity: None,
                    confirmed: false,
                    pending_unassign_since_ms: None,
                    last_error: None,
                    ..*old(self)
                }),
                Err(_) => *final(self) == (ClientReconciler {
                    identity: None,
                    confirmed: false,
                    pending_unassign_since_ms: None,
                    last_error: Some(ReconcileError::UnassignFailed),
                    ..*old(self)
                }),
            }),
    {
        if self.pending_unassign_since_ms.is_none() {
            return;
        }
        self.pending_unassign_since_ms = None;
        match outcome {
            Ok(()) => {
                self.identity = None;
                self.confirmed = false;
                self.last_error = None;
            },
            Err(_) => {
                self.identity = None;
                self.confirmed = false;
                self.last_error = Some(ReconcileError::UnassignFailed);
            },
        }
    }

    /// Advance the clock: every armed guard whose timeout has elapsed is
    /// cleared, and if any fired the optimistic state is rolled back — the
    /// identity is cleared and the timeout surfaced. The three guards are
    /// checked independently; a local timeout cancels nothing in flight, it
    /// only stops waiting.
    pub fn on_tick(&mut self, now_ms: i64)
        ensures
            ({
                let fired = guard_timed_out(old(self).pending_assign_since_ms, now_ms)
                    || guard_timed_out(old(self).pending_reassign_since_ms, now_ms)
                    || guard_timed_out(old(self).pending_unassign_since_ms, now_ms);
                &&& final(self).pending_assign_since_ms == (if guard_timed_out(
                    old(self).pending_assign_since_ms,
                    now_ms,
                ) {
                    None::<i64>
                } else {
                    old(self).pending_assign_since_ms
                })
                &&& final(self).pending_reassign_since_ms == (if guard_timed_out(
                    old(self).pending_reassign_since_ms,
                    now_ms,
                ) {
                    None::<i64>
                } else {
                    old(self).pending_reassign_since_ms
                })
                &&& final(self).pending_unassign_since_ms == (if guard_timed_out(
                    old(self).pending_unassign_since_ms,
                    now_ms,
                ) {
                    None::<i64>
                } else {
                    old(self).pending_unassign_since_ms
                })
                &&& final(self).identity == (if fired {
                    None::<Identity>
                } else {
                    old(self).identity
                })
                &&& final(self).confirmed == (if fired {
                    false
                } else {
                    old(self).confirmed
                })
                &&& final(self).last_error == (if fired {
                    Some(ReconcileError::TimedOut)
                } else {
                    old(self).last_error
                })
            }),
    {
        let fired_assign = Self::guard_check(&self.pending_assign_since_ms, now_ms);
        let fired_reassign = Self::guard_check(&self.pending_reassign_since_ms, now_ms);
        let fired_unassign = Self::guard_check(&self.pending_unassign_since_ms, now_ms);
        if fired_assign {
            self.pending_assign_since_ms = None;
        }
        if fired_reassign {
            self.pending_reassign_since_ms = None;
        }
        if fired_unassign {
            self.pending_unassign_since_ms = None;
        }
        if fired_assign || fired_reassign || fired_unassign {
            self.identity = None;
            self.confirmed = false;
            self.last_error = Some(ReconcileError::TimedOut);
        }
    }

    /// Whether any operation is still in flight.
    pub fn has_pending(&self) -> (r: bool)
        ensures
            r == (self.pending_assign_since_ms is Some || self.pending_reassign_since_ms is Some
                || self.pending_unassign_since_ms is Some),
    {
        self.pending_assign_since_ms.is_some() || self.pending_reassign_since_ms.is_some()
            || self.pending_unassign_since_ms.is_some()
    }

    /// Evaluate one guard against the clock.
    fn guard_check(since_ms: &Option<i64>, now_ms: i64) -> (r: bool)
        ensures
            r == guard_timed_out(*since_ms, now_ms),
    {
        match since_ms {
            Some(since) => (now_ms as i128) - (*since as i128) >= OP_TIMEOUT_MS as i128,
            None => false,
        }
    }
}

} // verus!
