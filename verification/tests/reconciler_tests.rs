use lobby::errors::AssignmentError;
use lobby::reconciler::{ClientReconciler, ReconcileError};
use lobby::session::{AssignmentGrant, Identity, SessionId};

fn persisted_identity() -> Identity {
    Identity { session_id: SessionId(7), slot_index: 0, secret: "stored-secret".to_string() }
}

#[test]
fn fresh_state_with_persisted_identity_schedules_a_reassign() {
    let reconciler = ClientReconciler::new(Some(persisted_identity()));
    assert!(reconciler.reassign_due());
    assert!(!reconciler.has_pending());
    assert!(reconciler.last_error.is_none());
}

#[test]
fn fresh_state_without_identity_schedules_nothing() {
    let reconciler = ClientReconciler::new(None);
    assert!(!reconciler.reassign_due());
}

#[test]
fn assign_success_caches_and_confirms_the_identity() {
    let mut reconciler = ClientReconciler::new(None);
    reconciler.start_assign(0);
    assert!(reconciler.has_pending());
    reconciler.complete_assign(
        SessionId(7),
        Ok(AssignmentGrant { slot_index: 1, secret: "granted".to_string() }),
    );
    assert!(!reconciler.has_pending());
    assert!(reconciler.confirmed);
    assert!(reconciler.last_error.is_none());
    let identity = reconciler.identity.as_ref().unwrap();
    assert_eq!(identity.session_id, SessionId(7));
    assert_eq!(identity.slot_index, 1);
    assert_eq!(identity.secret, "granted".to_string());
    assert!(!reconciler.reassign_due());
}

#[test]
fn assign_failure_clears_the_identity_and_surfaces_an_error() {
    let mut reconciler = ClientReconciler::new(Some(persisted_identity()));
    reconciler.start_assign(0);
    reconciler.complete_assign(SessionId(7), Err(AssignmentError::AlreadyAssigned));
    assert!(reconciler.identity.is_none());
    assert!(!reconciler.confirmed);
    assert_eq!(reconciler.last_error, Some(ReconcileError::AssignFailed));
}

#[test]
fn timeout_rolls_back_the_optimistic_state() {
    let mut reconciler = ClientReconciler::new(Some(persisted_identity()));
    reconciler.start_assign(0);
    reconciler.on_tick(9_999);
    assert!(reconciler.has_pending());
    assert!(reconciler.identity.is_some());
    reconciler.on_tick(10_000);
    assert!(!reconciler.has_pending());
    assert!(reconciler.identity.is_none());
    assert_eq!(reconciler.last_error, Some(ReconcileError::TimedOut));
}

#[test]
fn a_response_arriving_after_the_timeout_is_ignored() {
    let mut reconciler = ClientReconciler::new(None);
    reconciler.start_assign(0);
    reconciler.on_tick(10_000);
    reconciler.complete_assign(
        SessionId(7),
        Ok(AssignmentGrant { slot_index: 0, secret: "late".to_string() }),
    );
    assert!(reconciler.identity.is_none());
    assert_eq!(reconciler.last_error, Some(ReconcileError::TimedOut));
}

#[test]
fn reassign_success_confirms_the_stored_identity() {
    let mut reconciler = ClientReconciler::new(Some(persisted_identity()));
    assert!(reconciler.reassign_due());
    reconciler.start_reassign(100);
    // No second automatic reassign while one is in flight.
    assert!(!reconciler.reassign_due());
    reconciler.complete_reassign(
        SessionId(7),
        Ok(AssignmentGrant { slot_index: 0, secret: "stored-secret".to_string() }),
    );
    assert!(reconciler.confirmed);
    assert!(!reconciler.reassign_due());
    assert_eq!(reconciler.identity.as_ref().unwrap().secret, "stored-secret".to_string());
}

#[test]
fn reassign_failure_clears_the_stale_identity() {
    let mut reconciler = ClientReconciler::new(Some(persisted_identity()));
    reconciler.start_reassign(100);
    reconciler.complete_reassign(SessionId(7), Err(AssignmentError::InvalidSecret));
    assert!(reconciler.identity.is_none());
    assert_eq!(reconciler.last_error, Some(ReconcileError::ReassignFailed));
    assert!(!reconciler.reassign_due());
}

#[test]
fn unassign_success_forgets_the_identity() {
    let mut reconciler = ClientReconciler::new(Some(persisted_identity()));
    reconciler.start_unassign(0);
    reconciler.complete_unassign(Ok(()));
    assert!(reconciler.identity.is_none());
    assert!(reconciler.last_error.is_none());
}

#[test]
fn unassign_failure_also_reverts_and_surfaces_an_error() {
    let mut reconciler = ClientReconciler::new(Some(persisted_identity()));
    reconciler.start_unassign(0);
    reconciler.complete_unassign(Err(AssignmentError::InvalidSecret));
    assert!(reconciler.identity.is_none());
    assert_eq!(reconciler.last_error, Some(ReconcileError::UnassignFailed));
}

#[test]
fn the_three_guards_time_out_independently() {
    let mut reconciler = ClientReconciler::new(Some(persisted_identity()));
    reconciler.start_assign(0);
    reconciler.start_unassign(5_000);
    reconciler.on_tick(10_000);
    // The assign guard fired; the unassign guard is only half way through.
    assert!(reconciler.pending_assign_since_ms.is_none());
    assert_eq!(reconciler.pending_unassign_since_ms, Some(5_000));
    assert!(reconciler.identity.is_none());
    assert_eq!(reconciler.last_error, Some(ReconcileError::TimedOut));
}
