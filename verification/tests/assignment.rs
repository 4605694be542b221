use lobby::errors::AssignmentError;
use lobby::session::{SessionId, SessionRegistry};

#[test]
fn lobby_scenario_two_players() {
    let mut registry = SessionRegistry::new();
    let s = SessionId(7);

    let grant_a = registry.assign(s, 0, "Alice".to_string()).unwrap();
    assert_eq!(grant_a.slot_index, 0);

    let refused = registry.assign(s, 0, "Bob".to_string());
    assert_eq!(refused.unwrap_err(), AssignmentError::AlreadyAssigned);

    let grant_b = registry.assign(s, 1, "Bob".to_string()).unwrap();
    assert_eq!(grant_b.slot_index, 1);

    let snap = registry.snapshot(s).unwrap();
    assert_eq!(snap.len(), 2);
    assert!(snap[0].is_assigned);
    assert!(snap[1].is_assigned);
    assert_eq!(snap[0].occupant_name, Some("Alice".to_string()));
    assert_eq!(snap[1].occupant_name, Some("Bob".to_string()));

    registry.unassign(s, 0, &grant_a.secret).unwrap();
    let snap = registry.snapshot(s).unwrap();
    assert!(!snap[0].is_assigned);
    assert_eq!(snap[0].occupant_name, None);
    assert!(snap[1].is_assigned);
    assert_eq!(snap[1].occupant_name, Some("Bob".to_string()));
}

#[test]
fn secrets_are_hyphenated_uuids() {
    let mut registry = SessionRegistry::new();
    let s = SessionId(1);
    let grant_a = registry.assign(s, 0, "Alice".to_string()).unwrap();
    let grant_b = registry.assign(s, 1, "Bob".to_string()).unwrap();
    assert_eq!(grant_a.secret.len(), 36);
    assert_eq!(grant_b.secret.len(), 36);
    assert_ne!(grant_a.secret, grant_b.secret);
}

#[test]
fn assign_sets_a_heartbeat() {
    let mut registry = SessionRegistry::new();
    let s = SessionId(1);
    registry.assign(s, 0, "Alice".to_string()).unwrap();
    let snap = registry.snapshot(s).unwrap();
    assert!(snap[0].last_heartbeat.is_some());
}

#[test]
fn reassign_repeats_with_the_same_secret() {
    let mut registry = SessionRegistry::new();
    let s = SessionId(2);
    let grant = registry.assign(s, 0, "Alice".to_string()).unwrap();
    let first = registry.reassign(s, 0, &grant.secret).unwrap();
    assert_eq!(first.slot_index, 0);
    assert_eq!(first.secret, grant.secret);
    let second = registry.reassign(s, 0, &grant.secret).unwrap();
    assert_eq!(second.secret, grant.secret);
    let snap = registry.snapshot(s).unwrap();
    assert_eq!(snap[0].occupant_name, Some("Alice".to_string()));
    assert!(snap[0].is_assigned);
}

#[test]
fn reassign_wrong_secret_mutates_nothing() {
    let mut registry = SessionRegistry::new();
    let s = SessionId(3);
    registry.assign(s, 0, "Alice".to_string()).unwrap();
    let before = registry.snapshot(s).unwrap();
    let r = registry.reassign(s, 0, &"wrong".to_string());
    assert_eq!(r.unwrap_err(), AssignmentError::InvalidSecret);
    let after = registry.snapshot(s).unwrap();
    assert_eq!(after[0].occupant_name, before[0].occupant_name);
    assert_eq!(after[0].last_heartbeat, before[0].last_heartbeat);
    assert_eq!(after[0].is_assigned, before[0].is_assigned);
}

#[test]
fn unassign_wrong_secret_mutates_nothing() {
    let mut registry = SessionRegistry::new();
    let s = SessionId(4);
    registry.assign(s, 0, "Alice".to_string()).unwrap();
    let r = registry.unassign(s, 0, &"wrong".to_string());
    assert_eq!(r.unwrap_err(), AssignmentError::InvalidSecret);
    let snap = registry.snapshot(s).unwrap();
    assert!(snap[0].is_assigned);
    assert_eq!(snap[0].occupant_name, Some("Alice".to_string()));
}

#[test]
fn assign_after_unassign_issues_a_fresh_secret() {
    let mut registry = SessionRegistry::new();
    let s = SessionId(5);
    let first = registry.assign(s, 0, "Alice".to_string()).unwrap();
    registry.unassign(s, 0, &first.secret).unwrap();
    let second = registry.assign(s, 0, "Alice".to_string()).unwrap();
    assert_ne!(second.secret, first.secret);
    // The superseded secret no longer authenticates.
    let r = registry.reassign(s, 0, &first.secret);
    assert_eq!(r.unwrap_err(), AssignmentError::InvalidSecret);
}

#[test]
fn out_of_range_slot_is_invalid() {
    let mut registry = SessionRegistry::new();
    let s = SessionId(6);
    let r = registry.assign(s, 2, "Alice".to_string());
    assert_eq!(r.unwrap_err(), AssignmentError::InvalidSlot);
}

#[test]
fn reassign_and_unassign_on_vacant_slot_are_invalid_slot() {
    let mut registry = SessionRegistry::new();
    let s = SessionId(8);
    let r = registry.reassign(s, 0, &"anything".to_string());
    assert_eq!(r.unwrap_err(), AssignmentError::InvalidSlot);
    let r = registry.unassign(s, 1, &"anything".to_string());
    assert_eq!(r.unwrap_err(), AssignmentError::InvalidSlot);
    // Referencing the session was enough to create it.
    assert!(registry.contains(s));
}

#[test]
fn get_or_create_keeps_an_existing_session() {
    let mut registry = SessionRegistry::new();
    let s = SessionId(9);
    assert!(!registry.contains(s));
    registry.get_or_create(s);
    assert!(registry.contains(s));
    registry.assign(s, 0, "Alice".to_string()).unwrap();
    registry.get_or_create(s);
    let snap = registry.snapshot(s).unwrap();
    assert_eq!(snap[0].occupant_name, Some("Alice".to_string()));
}

#[test]
fn snapshot_of_unknown_session_is_none_and_creates_nothing() {
    let registry = SessionRegistry::new();
    let s = SessionId(10);
    assert!(registry.snapshot(s).is_none());
    assert!(!registry.contains(s));
}

#[test]
fn error_messages_are_distinguishable() {
    assert_eq!(AssignmentError::InvalidSlot.message(), "no such player slot");
    assert_eq!(AssignmentError::AlreadyAssigned.message(), "slot already taken");
    assert_eq!(AssignmentError::InvalidSecret.message(), "could not verify your identity");
}
