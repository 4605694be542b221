use lobby::presence::{
    ChannelEvent, ChannelState, ClientMessage, PresenceChannel, ServerMessage,
};
use lobby::session::{Identity, SessionId, SessionRegistry};

#[test]
fn select_binds_and_creates_the_session() {
    let mut registry = SessionRegistry::new();
    let mut channel = PresenceChannel::new(0);
    let s = SessionId(1);
    channel.on_event(
        ChannelEvent::Incoming(ClientMessage::SelectSession(s)),
        &mut registry,
        10,
    );
    assert_eq!(channel.state, ChannelState::Bound(s));
    assert!(registry.contains(s));
}

#[test]
fn first_selection_wins() {
    let mut registry = SessionRegistry::new();
    let mut channel = PresenceChannel::new(0);
    let s = SessionId(1);
    let t = SessionId(2);
    channel.on_event(ChannelEvent::Incoming(ClientMessage::SelectSession(s)), &mut registry, 10);
    channel.on_event(ChannelEvent::Incoming(ClientMessage::SelectSession(t)), &mut registry, 20);
    assert_eq!(channel.state, ChannelState::Bound(s));
    // The rejected selection resolves nothing: no session was created for it.
    assert!(!registry.contains(t));
}

#[test]
fn heartbeat_with_matching_secret_refreshes_the_slot() {
    let mut registry = SessionRegistry::new();
    let s = SessionId(1);
    let grant = registry.assign(s, 0, "Alice".to_string()).unwrap();
    let mut channel = PresenceChannel::new(0);
    channel.on_event(ChannelEvent::Incoming(ClientMessage::SelectSession(s)), &mut registry, 10);
    channel.on_event(
        ChannelEvent::Incoming(ClientMessage::Heartbeat(Identity {
            session_id: s,
            slot_index: 0,
            secret: grant.secret.clone(),
        })),
        &mut registry,
        123_456_789,
    );
    let snap = registry.snapshot(s).unwrap();
    assert_eq!(snap[0].last_heartbeat, Some(123_456_789));
}

#[test]
fn heartbeat_with_wrong_secret_is_silently_ignored() {
    let mut registry = SessionRegistry::new();
    let s = SessionId(1);
    registry.assign(s, 0, "Alice".to_string()).unwrap();
    let before = registry.snapshot(s).unwrap();
    let mut channel = PresenceChannel::new(0);
    channel.on_event(ChannelEvent::Incoming(ClientMessage::SelectSession(s)), &mut registry, 10);
    channel.on_event(
        ChannelEvent::Incoming(ClientMessage::Heartbeat(Identity {
            session_id: s,
            slot_index: 0,
            secret: "wrong".to_string(),
        })),
        &mut registry,
        123_456_789,
    );
    let after = registry.snapshot(s).unwrap();
    assert_eq!(after[0].last_heartbeat, before[0].last_heartbeat);
    // The connection stays open: a bad secret is not a protocol error.
    assert_eq!(channel.state, ChannelState::Bound(s));
}

#[test]
fn heartbeat_for_a_foreign_session_is_rejected() {
    let mut registry = SessionRegistry::new();
    let s = SessionId(1);
    let t = SessionId(2);
    let grant_t = registry.assign(t, 0, "Carol".to_string()).unwrap();
    let before = registry.snapshot(t).unwrap();
    let mut channel = PresenceChannel::new(0);
    channel.on_event(ChannelEvent::Incoming(ClientMessage::SelectSession(s)), &mut registry, 10);
    channel.on_event(
        ChannelEvent::Incoming(ClientMessage::Heartbeat(Identity {
            session_id: t,
            slot_index: 0,
            secret: grant_t.secret.clone(),
        })),
        &mut registry,
        123_456_789,
    );
    let after = registry.snapshot(t).unwrap();
    assert_eq!(after[0].last_heartbeat, before[0].last_heartbeat);
}

#[test]
fn heartbeat_before_selecting_is_rejected() {
    let mut registry = SessionRegistry::new();
    let s = SessionId(1);
    let grant = registry.assign(s, 0, "Alice".to_string()).unwrap();
    let before = registry.snapshot(s).unwrap();
    let mut channel = PresenceChannel::new(0);
    channel.on_event(
        ChannelEvent::Incoming(ClientMessage::Heartbeat(Identity {
            session_id: s,
            slot_index: 0,
            secret: grant.secret.clone(),
        })),
        &mut registry,
        123_456_789,
    );
    assert_eq!(channel.state, ChannelState::Unbound);
    let after = registry.snapshot(s).unwrap();
    assert_eq!(after[0].last_heartbeat, before[0].last_heartbeat);
}

#[test]
fn close_transport_error_and_malformed_all_close() {
    let mut registry = SessionRegistry::new();
    for event in [
        ChannelEvent::CloseRequested,
        ChannelEvent::TransportError,
        ChannelEvent::Malformed,
    ] {
        let mut channel = PresenceChannel::new(0);
        channel.on_event(event, &mut registry, 10);
        assert!(channel.is_closed());
    }
}

#[test]
fn read_timeout_is_not_an_error() {
    let mut registry = SessionRegistry::new();
    let mut channel = PresenceChannel::new(0);
    let s = SessionId(1);
    channel.on_event(ChannelEvent::Incoming(ClientMessage::SelectSession(s)), &mut registry, 10);
    channel.on_event(ChannelEvent::ReadTimedOut, &mut registry, 20);
    assert_eq!(channel.state, ChannelState::Bound(s));
}

#[test]
fn closed_is_terminal() {
    let mut registry = SessionRegistry::new();
    let mut channel = PresenceChannel::new(0);
    let s = SessionId(1);
    channel.on_event(ChannelEvent::CloseRequested, &mut registry, 10);
    channel.on_event(ChannelEvent::Incoming(ClientMessage::SelectSession(s)), &mut registry, 20);
    assert!(channel.is_closed());
    assert!(!registry.contains(s));
}

#[test]
fn broadcast_waits_for_the_interval() {
    let mut registry = SessionRegistry::new();
    let s = SessionId(1);
    registry.assign(s, 0, "Alice".to_string()).unwrap();
    let mut channel = PresenceChannel::new(0);
    channel.on_event(ChannelEvent::Incoming(ClientMessage::SelectSession(s)), &mut registry, 10);
    // Not due: exactly one interval has passed, the rule is strictly more.
    assert!(channel.poll_broadcast(&registry, 500).is_none());
    assert!(channel.poll_broadcast(&registry, 1_000).is_none());
    // Due now; the timer resets, so the next poll waits again.
    let message = channel.poll_broadcast(&registry, 1_001);
    let ServerMessage::SlotSnapshot(snap) = message.unwrap();
    assert_eq!(snap.len(), 2);
    assert_eq!(snap[0].occupant_name, Some("Alice".to_string()));
    assert!(snap[0].is_assigned);
    assert!(!snap[1].is_assigned);
    assert!(channel.poll_broadcast(&registry, 1_500).is_none());
    assert!(channel.poll_broadcast(&registry, 2_500).is_some());
}

#[test]
fn unbound_channel_broadcasts_nothing() {
    let registry = SessionRegistry::new();
    let mut channel = PresenceChannel::new(0);
    assert!(channel.poll_broadcast(&registry, 5_000).is_none());
}
