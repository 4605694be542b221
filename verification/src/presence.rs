//! The presence channel: one long-lived duplex connection per client.
//!
//! A connection starts unbound, is bound to the first session the client
//! selects (further selections are ignored — first selection wins for the
//! life of the connection), forwards authenticated heartbeats to the bound
//! session, and closes on an explicit close, a transport error or a
//! malformed message (fail fast: one bad message ends the connection). A
//! read timeout is not an error. Independently of incoming traffic, the
//! channel broadcasts the bound session's public snapshot at a fixed
//! interval; secrets are never part of a snapshot. The surrounding
//! application runs the read loop and the wire encoding; every decision and
//! every registry mutation is made here.

use vstd::prelude::*;

verus! {

use crate::session::{Identity, SessionId, SessionRegistry, SLOT_COUNT};
use crate::slots::{after_heartbeat, reauth_allowed, snapshot_of, vacant_table, SlotPublic,
    SlotPublicView, SlotView};

/// Milliseconds between two snapshot broadcasts of one channel.
pub const BROADCAST_INTERVAL_MS: i64 = 1_000;

/// What a client sends: select a session, or assert liveness of a claimed
/// slot.
pub enum ClientMessage {
    SelectSession(SessionId),
    Heartbeat(Identity),
}

/// What the server sends: the periodic public snapshot of the bound
/// session's slots.
pub enum ServerMessage {
    SlotSnapshot(Vec<SlotPublic>),
}

/// Everything the read side of a connection can observe.
pub enum ChannelEvent {
    /// A well-formed client message arrived.
    Incoming(ClientMessage),
    /// The client sent an explicit close frame.
    CloseRequested,
    /// A message arrived that could not be decoded.
    Malformed,
    /// The transport failed or the stream ended.
    TransportError,
    /// The bounded read wait expired with nothing to read; not an error.
    ReadTimedOut,
}

/// Binding state of one connection.
#[derive(Clone, Copy, Debug, PartialEq, Eq, Structural)]
pub enum ChannelState {
    /// No session selected yet.
    Unbound,
    /// Bound to one session for the life of the connection.
    Bound(SessionId),
    /// Terminal: close frame, transport error or malformed message.
    Closed,
}

/// The connection's state after `event`: the first `SelectSession` binds,
/// later ones are ignored, heartbeats never change the binding, a close,
/// transport error or malformed message closes, a read timeout changes
/// nothing, and `Closed` is terminal.
pub open spec fn state_after(state: ChannelState, event: ChannelEvent) -> ChannelState {
    match event {
        ChannelEvent::Incoming(message) => match state {
            ChannelState::Unbound => match message {
                ClientMessage::SelectSession(id) => ChannelState::Bound(id),
                ClientMessage::Heartbeat(_) => ChannelState::Unbound,
            },
            ChannelState::Bound(bound) => ChannelState::Bound(bound),
            ChannelState::Closed => ChannelState::Closed,
        },
        ChannelEvent::CloseRequested => ChannelState::Closed,
        ChannelEvent::Malformed => ChannelState::Closed,
        ChannelEvent::TransportError => ChannelState::Closed,
        ChannelEvent::ReadTimedOut => state,
    }
}

/// The registry after `event` reaches a connection in `state`: the first
/// `SelectSession` resolves (and if need be creates) its session; a
/// heartbeat for the bound session refreshes its slot when the secret
/// matches and is silently ignored otherwise; a heartbeat for a foreign
/// session, or before any session is selected, is rejected; nothing else
/// touches the registry.
pub open spec fn registry_after(
    m: Map<u128, Seq<SlotView>>,
    state: ChannelState,
    event: ChannelEvent,
    now_ms: i64,
) -> Map<u128, Seq<SlotView>> {
    match event {
        ChannelEvent::Incoming(message) => match state {
            ChannelState::Unbound => match message {
                ClientMessage::SelectSession(id) => if m.dom().contains(id.0) {
                    m
                } else {
                    m.insert(id.0, vacant_table(SLOT_COUNT as nat))
                },
                ClientMessage::Heartbeat(_) => m,
            },
            ChannelState::Bound(bound) => match message {
                ClientMessage::SelectSession(_) => m,
                ClientMessage::Heartbeat(identity) => if identity.session_id == bound
                    && m.dom().contains(bound.0) && reauth_allowed(
                    m[bound.0],
                    identity.slot_index as int,
                    identity.secret@,
                ) {
                    m.insert(
                        bound.0,
                        after_heartbeat(m[bound.0], identity.slot_index as int, now_ms),
                    )
                } else {
                    m
                },
            },
            ChannelState::Closed => m,
        },
        _ => m,
    }
}

/// The snapshot a connection in `state` would broadcast over registry state
/// `m`, if any: only a bound connection whose session exists broadcasts.
pub open spec fn snapshot_target(state: ChannelState, m: Map<u128, Seq<SlotView>>) -> Option<
    Seq<SlotPublicView>,
> {
    match state {
        ChannelState::Bound(bound) => if m.dom().contains(bound.0) {
            Some(snapshot_of(m[bound.0]))
        } else {
            None
        },
        _ => None,
    }
}

/// A broadcast is due once more than `BROADCAST_INTERVAL_MS` of wall clock
/// has passed since the last one.
pub open spec fn broadcast_due(last_broadcast_ms: i64, now_ms: i64) -> bool {
    now_ms - last_broadcast_ms > BROADCAST_INTERVAL_MS
}

/// One client's presence connection: its binding state and the time of its
/// last snapshot broadcast.
pub struct PresenceChannel {
    pub state: ChannelState,
    pub last_broadcast_ms: i64,
}

impl PresenceChannel {
    /// A fresh, unbound connection; the broadcast timer starts at `now_ms`.
    pub fn new(now_ms: i64) -> (c: PresenceChannel)
        ensures
            c.state == ChannelState::Unbound,
            c.last_broadcast_ms == now_ms,
    {
        PresenceChannel { state: ChannelState::Unbound, last_broadcast_ms: now_ms }
    }

    /// Whether the connection has reached its terminal state and the
    /// surrounding read loop should stop.
    pub fn is_closed(&self) -> (r: bool)
        ensures
            r == (self.state is Closed),
    {
        match self.state {
            ChannelState::Closed => true,
            _ => false,
        }
    }

    /// Feed one observed event into the connection: the binding state moves
    /// as [`state_after`] says, the registry exactly as [`registry_after`]
    /// says, and the broadcast timer is untouched.
    pub fn on_event(
        &mut self,
        event: ChannelEvent,
        registry: &mut SessionRegistry,
        now_ms: i64,
    )
        requires
            old(registry).wf(),
        ensures
            final(registry).wf(),
            final(self).state == state_after(old(self).state, event),
            final(self).last_broadcast_ms == old(self).last_broadcast_ms,
            final(registry)@ =~= registry_after(old(registry)@, old(self).state, event, now_ms),
    {
        match event {
            ChannelEvent::Incoming(message) => match message {
                ClientMessage::SelectSession(id) => {
                    match self.state {
                        ChannelState::Unbound => {
                            registry.get_or_create(id);
                            self.state = ChannelState::Bound(id);
                        },
                        _ => {
                            // First selection wins: a repeated or foreign
                            // selection is ignored.
                        },
                    }
                },
                ClientMessage::Heartbeat(identity) => {
                    match self.state {
                        ChannelState::Bound(bound) => {
                            if identity.session_id == bound {
                                let _ = registry.record_heartbeat(
                                    identity.session_id,
                                    identity.slot_index,
                                    &identity.secret,
                                    now_ms,
                                );
                            }
                        },
                        _ => {
                            // A heartbeat before any selection, or on a
                            // closed connection, touches nothing.
                        },
                    }
                },
            },
            ChannelEvent::CloseRequested => {
                self.state = ChannelState::Closed;
            },
            ChannelEvent::Malformed => {
                self.state = ChannelState::Closed;
            },
            ChannelEvent::TransportError => {
                self.state = ChannelState::Closed;
            },
            ChannelEvent::ReadTimedOut => {},
        }
    }

    /// Run the broadcast timer: when more than the interval has passed the
    /// timer resets to `now_ms` and, for a bound connection whose session
    /// exists, the public snapshot is handed back to be sent. Secrets are
    /// never part of it.
    pub fn poll_broadcast(&mut self, registry: &SessionRegistry, now_ms: i64) -> (r: Option<
        ServerMessage,
    >)
        requires
            registry.wf(),
        ensures
            final(self).state == old(self).state,
            final(self).last_broadcast_ms == (if broadcast_due(old(self).last_broadcast_ms, now_ms) {
                now_ms
            } else {
                old(self).last_broadcast_ms
            }),
            (match r {
                Some(message) => broadcast_due(old(self).last_broadcast_ms, now_ms) && (match message {
                    ServerMessage::SlotSnapshot(snap) => snapshot_target(old(self).state, registry@)
                        matches Some(target) && snap.deep_view() =~= target,
                }),
                None => !broadcast_due(old(self).last_broadcast_ms, now_ms) || snapshot_target(
                    old(self).state,
                    registry@,
                ) is None,
            }),
    {
        let delta: i128 = (now_ms as i128) - (self.last_broadcast_ms as i128);
        if delta <= BROADCAST_INTERVAL_MS as i128 {
            return None;
        }
        self.last_broadcast_ms = now_ms;
        match self.state {
            ChannelState::Bound(bound) => match registry.snapshot(bound) {
                Some(snap) => Some(ServerMessage::SlotSnapshot(snap)),
                None => None,
            },
            _ => None,
        }
    }
}

} // verus!
