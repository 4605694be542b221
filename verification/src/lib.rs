//! Session coordination for a two-player game lobby.
//!
//! The crate models a registry of game sessions, each holding a fixed-size
//! table of exclusive, secret-authenticated player slots, together with the
//! state machines that surround it: the assignment operations (assign,
//! reassign, unassign), the presence channel that feeds liveness heartbeats
//! in and slot snapshots out, and the client-side reconciler that caches an
//! identity and rolls optimistic state back on timeout.

pub mod clock;
pub mod errors;
pub mod liveness;
pub mod presence;
pub mod reconciler;
pub mod session;
pub mod slots;
pub mod token;
