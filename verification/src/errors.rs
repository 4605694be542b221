//! Typed results of the assignment operations.
//!
//! Failed operations are no-ops: an error is returned to the immediate
//! caller and the slot table is left untouched.

use vstd::prelude::*;

verus! {

/// Why an assignment operation was refused.
#[derive(Clone, Copy, Debug, PartialEq, Eq, Structural)]
pub enum AssignmentError {
    /// The slot index is out of range, or (for reassign and unassign) the
    /// slot holds no assignment to resume or release.
    InvalidSlot,
    /// An assign hit a slot that is already occupied.
    AlreadyAssigned,
    /// The supplied secret does not match the slot's stored secret.
    InvalidSecret,
}

impl AssignmentError {
    /// A user-facing message, distinguishable per error kind.
    pub fn message(&self) -> (r: &'static str)
        ensures
            *self is InvalidSlot ==> r@ == "no such player slot"@,
            *self is AlreadyAssigned ==> r@ == "slot already taken"@,
            *self is InvalidSecret ==> r@ == "could not verify your identity"@,
    {
        match self {
            AssignmentError::InvalidSlot => "no such player slot",
            AssignmentError::AlreadyAssigned => "slot already taken",
            AssignmentError::InvalidSecret => "could not verify your identity",
        }
    }
}

} // verus!
