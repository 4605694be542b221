//! The slot table: the atomic unit of mutation of one game session.
//!
//! A table holds a fixed number of exclusive player slots. A slot is claimed
//! with a fresh secret, resumed (re-authenticated) or released only with that
//! secret, and carries the timestamp of its last liveness heartbeat. All
//! transitions are stated over the table's mathematical view, a sequence of
//! [`SlotView`] values, so that the laws of the protocol — exclusivity,
//! secret correctness, idempotent re-authentication and the claim/release
//! round trip — can be proved once at this level and inherited by every
//! caller.

use vstd::prelude::*;

verus! {

use crate::errors::AssignmentError;

/// Mathematical value of one slot.
#[verifier::ext_equal]
pub ghost struct SlotView {
    pub index: nat,
    pub occupant_name: Option<Seq<char>>,
    pub secret: Option<Seq<char>>,
    pub last_heartbeat: Option<i64>,
    pub is_assigned: bool,
}

/// Mathematical value of a slot as broadcast to clients: the secret is
/// omitted, everything else is kept.
#[verifier::ext_equal]
pub ghost struct SlotPublicView {
    pub index: nat,
    pub occupant_name: Option<Seq<char>>,
    pub last_heartbeat: Option<i64>,
    pub is_assigned: bool,
}

/// One exclusive player position within a session.
pub struct Slot {
    pub index: usize,
    pub occupant_name: Option<String>,
    pub secret: Option<String>,
    pub last_heartbeat: Option<i64>,
    pub is_assigned: bool,
}

impl View for Slot {
    type V = SlotView;

    open spec fn view(&self) -> SlotView {
        SlotView {
            index: self.index as nat,
            occupant_name: self.occupant_name.deep_view(),
            secret: self.secret.deep_view(),
            last_heartbeat: self.last_heartbeat,
            is_assigned: self.is_assigned,
        }
    }
}

impl DeepView for Slot {
    type V = SlotView;

    open spec fn deep_view(&self) -> SlotView {
        self.view()
    }
}

/// The public face of one slot: what a snapshot shows to every client.
pub struct SlotPublic {
    pub slot_index: usize,
    pub occupant_name: Option<String>,
    pub last_heartbeat: Option<i64>,
    pub is_assigned: bool,
}

impl View for SlotPublic {
    type V = SlotPublicView;

    open spec fn view(&self) -> SlotPublicView {
        SlotPublicView {
            index: self.slot_index as nat,
            occupant_name: self.occupant_name.deep_view(),
            last_heartbeat: self.last_heartbeat,
            is_assigned: self.is_assigned,
        }
    }
}

impl DeepView for SlotPublic {
    type V = SlotPublicView;

    open spec fn deep_view(&self) -> SlotPublicView {
        self.view()
    }
}

/// A slot that is consistent with its position `i` in the table: the stored
/// index matches, and name, secret and heartbeat are present exactly when
/// the slot is assigned.
pub open spec fn slot_wf(s: SlotView, i: int) -> bool {
    &&& s.index == i
    &&& s.is_assigned <==> s.secret is Some
    &&& s.occupant_name is Some <==> s.is_assigned
    &&& s.last_heartbeat is Some <==> s.is_assigned
}

/// Every slot of the table is consistent with its position.
pub open spec fn table_wf(t: Seq<SlotView>) -> bool {
    forall|i: int| 0 <= i < t.len() ==> slot_wf(#[trigger] t[i], i)
}

/// An unassigned slot at position `i`.
pub open spec fn vacant_slot(i: nat) -> SlotView {
    SlotView {
        index: i,
        occupant_name: None,
        secret: None,
        last_heartbeat: None,
        is_assigned: false,
    }
}

/// A table of `n` unassigned slots.
pub open spec fn vacant_table(n: nat) -> Seq<SlotView> {
    Seq::new(n, |i: int| vacant_slot(i as nat))
}

/// A slot at position `i` assigned to `name` with credential `secret`,
/// last heard from at `heartbeat_ms`.
pub open spec fn occupied_slot(i: nat, name: Seq<char>, secret: Seq<char>, heartbeat_ms: i64) -> SlotView {
    SlotView {
        index: i,
        occupant_name: Some(name),
        secret: Some(secret),
        last_heartbeat: Some(heartbeat_ms),
        is_assigned: true,
    }
}

/// A claim of slot `i` is allowed exactly when `i` is in range and the slot
/// is not yet assigned.
pub open spec fn claim_allowed(t: Seq<SlotView>, i: int) -> bool {
    0 <= i < t.len() && !t[i].is_assigned
}

/// The error a refused claim reports: `InvalidSlot` out of range, otherwise
/// `AlreadyAssigned`.
pub open spec fn claim_error(t: Seq<SlotView>, i: int) -> AssignmentError {
    if !(0 <= i < t.len()) {
        AssignmentError::InvalidSlot
    } else {
        AssignmentError::AlreadyAssigned
    }
}

/// The table after a successful claim of slot `i`.
pub open spec fn after_claim(
    t: Seq<SlotView>,
    i: int,
    name: Seq<char>,
    secret: Seq<char>,
    now_ms: i64,
) -> Seq<SlotView> {
    t.update(i, occupied_slot(i as nat, name, secret, now_ms))
}

/// Re-authentication of slot `i` (and likewise its release, and a presence
/// heartbeat for it) is allowed exactly when `i` is in range, the slot is
/// assigned, and the supplied secret equals the stored one.
pub open spec fn reauth_allowed(t: Seq<SlotView>, i: int, secret: Seq<char>) -> bool {
    0 <= i < t.len() && t[i].is_assigned && t[i].secret == Some(secret)
}

/// The error a refused re-authentication or release reports: `InvalidSlot`
/// when out of range or unassigned, `InvalidSecret` on a credential
/// mismatch.
pub open spec fn reauth_error(t: Seq<SlotView>, i: int, secret: Seq<char>) -> AssignmentError {
    if !(0 <= i < t.len()) || !t[i].is_assigned {
        AssignmentError::InvalidSlot
    } else {
        AssignmentError::InvalidSecret
    }
}

/// The table after slot `i`'s heartbeat is refreshed to `now_ms`; everything
/// else about the slot is kept, the secret in particular does not rotate.
pub open spec fn after_heartbeat(t: Seq<SlotView>, i: int, now_ms: i64) -> Seq<SlotView> {
    t.update(
        i,
        SlotView {
            index: t[i].index,
            occupant_name: t[i].occupant_name,
            secret: t[i].secret,
            last_heartbeat: Some(now_ms),
            is_assigned: t[i].is_assigned,
        },
    )
}

/// The table after slot `i` is released back to vacancy.
pub open spec fn after_release(t: Seq<SlotView>, i: int) -> Seq<SlotView> {
    t.update(i, vacant_slot(i as nat))
}

/// The public image of one slot: the secret is dropped, the rest is kept.
pub open spec fn public_of(s: SlotView) -> SlotPublicView {
    SlotPublicView {
        index: s.index,
        occupant_name: s.occupant_name,
        last_heartbeat: s.last_heartbeat,
        is_assigned: s.is_assigned,
    }
}

/// The public image of a whole table, as carried by a snapshot broadcast.
pub open spec fn snapshot_of(t: Seq<SlotView>) -> Seq<SlotPublicView> {
    Seq::new(t.len(), |i: int| public_of(t[i]))
}

/// Fixed-size table of the player slots of one session; the only mutable
/// state a session owns, and mutated only through the methods below.
pub struct SlotTable {
    slots: Vec<Slot>,
}

impl View for SlotTable {
    type V = Seq<SlotView>;

    closed spec fn view(&self) -> Seq<SlotView> {
        self.slots.deep_view()
    }
}

impl SlotTable {
    /// The table is well-formed: every slot is consistent with its position.
    pub open spec fn wf(&self) -> bool {
        table_wf(self@)
    }

    /// Build a table of `slot_count` unassigned slots.
    pub fn new(slot_count: usize) -> (t: SlotTable)
        ensures
            t@ =~= vacant_table(slot_count as nat),
            t.wf(),
    {
        let mut slots: Vec<Slot> = Vec::new();
        let mut i: usize = 0;
        while i < slot_count
            invariant
                i <= slot_count,
                slots@.len() == i,
                forall|j: int| 0 <= j < i ==> #[trigger] slots@[j]@ == vacant_slot(j as nat),
            decreases slot_count - i,
        {
            slots.push(
                Slot {
                    index: i,
                    occupant_name: None,
                    secret: None,
                    last_heartbeat: None,
                    is_assigned: false,
                },
            );
            i += 1;
        }
        let t = SlotTable { slots };
        proof {
            assert(t@ =~= vacant_table(slot_count as nat));
        }
        t
    }

    /// How many slots the table holds.
    pub fn slot_count(&self) -> (n: usize)
        ensures
            n == self@.len(),
    {
        self.slots.len()
    }

    /// Claim slot `slot_index` for `name`, storing `secret` as its
    /// credential and `now_ms` as its first heartbeat. Succeeds exactly when
    /// the slot exists and is unassigned; a refused claim reports why and
    /// leaves the table untouched.
    pub fn claim(
        &mut self,
        slot_index: usize,
        name: String,
        secret: String,
        now_ms: i64,
    ) -> (r: Result<(), AssignmentError>)
        requires
            old(self).wf(),
        ensures
            final(self).wf(),
            (match r {
                Ok(()) => claim_allowed(old(self)@, slot_index as int) && final(self)@ =~= after_claim(
                    old(self)@,
                    slot_index as int,
                    name@,
                    secret@,
                    now_ms,
                ),
                Err(e) => !claim_allowed(old(self)@, slot_index as int) && e == claim_error(
                    old(self)@,
                    slot_index as int,
                ) && final(self)@ == old(self)@,
            }),
    {
        if slot_index >= self.slots.len() {
            return Err(AssignmentError::InvalidSlot);
        }
        if self.slots[slot_index].is_assigned {
            return Err(AssignmentError::AlreadyAssigned);
        }
        let slot = &mut self.slots[slot_index];
        slot.occupant_name = Some(name);
        slot.secret = Some(secret);
        slot.last_heartbeat = Some(now_ms);
        slot.is_assigned = true;
        proof {
            let i = slot_index as int;
            assert(old(self)@[i].index == i);
            assert(self@[i] == occupied_slot(i as nat, name@, secret@, now_ms));
            assert forall|j: int| 0 <= j < self@.len() && j != i implies self@[j] == old(self)@[j]
            by {
                assert(self.slots@[j] == old(self).slots@[j]);
            }
            assert(self@ =~= after_claim(old(self)@, i, name@, secret@, now_ms));
        }
        Ok(())
    }

    /// Resume an existing claim of slot `slot_index`: with the matching
    /// secret the heartbeat is refreshed to `now_ms` and the same secret is
    /// returned (it does not rotate). A mismatch reports `InvalidSecret`, an
    /// unassigned or out-of-range slot `InvalidSlot`, and the table is then
    /// untouched.
    pub fn reauthenticate(
        &mut self,
        slot_index: usize,
        secret: &String,
        now_ms: i64,
    ) -> (r: Result<String, AssignmentError>)
        requires
            old(self).wf(),
        ensures
            final(self).wf(),
            (match r {
                Ok(returned) => reauth_allowed(old(self)@, slot_index as int, secret@)
                    && returned@ == secret@ && final(self)@ =~= after_heartbeat(
                    old(self)@,
                    slot_index as int,
                    now_ms,
                ),
                Err(e) => !reauth_allowed(old(self)@, slot_index as int, secret@) && e
                    == reauth_error(old(self)@, slot_index as int, secret@) && final(self)@ == old(
                    self,
                )@,
            }),
    {
        if slot_index >= self.slots.len() {
            return Err(AssignmentError::InvalidSlot);
        }
        if !self.slots[slot_index].is_assigned {
            return Err(AssignmentError::InvalidSlot);
        }
        let matches_stored: bool = match &self.slots[slot_index].secret {
            Some(stored) => *stored == *secret,
            None => false,
        };
        if !matches_stored {
            return Err(AssignmentError::InvalidSecret);
        }
        let slot = &mut self.slots[slot_index];
        slot.last_heartbeat = Some(now_ms);
        proof {
            assert(self@ =~= after_heartbeat(old(self)@, slot_index as int, now_ms));
        }
        Ok(secret.clone())
    }

    /// Release slot `slot_index`: with the matching secret the slot returns
    /// to vacancy. The operation fails closed — a mismatch reports
    /// `InvalidSecret` and an unassigned or out-of-range slot `InvalidSlot`,
    /// so a caller can tell "nothing to undo" from "wrong credential" — and
    /// the table is then untouched.
    pub fn release(&mut self, slot_index: usize, secret: &String) -> (r: Result<
        (),
        AssignmentError,
    >)
        requires
            old(self).wf(),
        ensures
            final(self).wf(),
            (match r {
                Ok(()) => reauth_allowed(old(self)@, slot_index as int, secret@) && final(self)@
                    =~= after_release(old(self)@, slot_index as int),
                Err(e) => !reauth_allowed(old(self)@, slot_index as int, secret@) && e
                    == reauth_error(old(self)@, slot_index as int, secret@) && final(self)@ == old(
                    self,
                )@,
            }),
    {
        if slot_index >= self.slots.len() {
            return Err(AssignmentError::InvalidSlot);
        }
        if !self.slots[slot_index].is_assigned {
            return Err(AssignmentError::InvalidSlot);
        }
        let matches_stored: bool = match &self.slots[slot_index].secret {
            Some(stored) => *stored == *secret,
            None => false,
        };
        if !matches_stored {
            return Err(AssignmentError::InvalidSecret);
        }
        let slot = &mut self.slots[slot_index];
        slot.occupant_name = None;
        slot.secret = None;
        slot.last_heartbeat = None;
        slot.is_assigned = false;
        proof {
            assert(self@ =~= after_release(old(self)@, slot_index as int));
        }
        Ok(())
    }

    /// Record a presence heartbeat for slot `slot_index`: the heartbeat is
    /// refreshed only when the supplied secret matches; otherwise the table
    /// is silently left untouched, so that slot existence is not leaked.
    pub fn record_heartbeat(
        &mut self,
        slot_index: usize,
        secret: &String,
        now_ms: i64,
    ) -> (accepted: bool)
        requires
            old(self).wf(),
        ensures
            final(self).wf(),
            accepted == reauth_allowed(old(self)@, slot_index as int, secret@),
            final(self)@ =~= (if accepted {
                after_heartbeat(old(self)@, slot_index as int, now_ms)
            } else {
                old(self)@
            }),
    {
        match self.reauthenticate(slot_index, secret, now_ms) {
            Ok(_) => true,
            Err(_) => false,
        }
    }

    /// The public image of the table: one entry per slot, in slot order,
    /// with the secret omitted.
    pub fn public_snapshot(&self) -> (snap: Vec<SlotPublic>)
        ensures
            snap.deep_view() =~= snapshot_of(self@),
    {
        let mut snap: Vec<SlotPublic> = Vec::new();
        let n = self.slots.len();
        let mut i: usize = 0;
        while i < n
            invariant
                i <= n,
                n == self@.len(),
                snap@.len() == i,
                forall|j: int| 0 <= j < i ==> #[trigger] snap@[j]@ == public_of(self@[j]),
            decreases n - i,
        {
            let slot = &self.slots[i];
            let occupant_name: Option<String> = match &slot.occupant_name {
                Some(name) => Some(name.clone()),
                None => None,
            };
            snap.push(
                SlotPublic {
                    slot_index: slot.index,
                    occupant_name,
                    last_heartbeat: slot.last_heartbeat,
                    is_assigned: slot.is_assigned,
                },
            );
            proof {
                assert(snap@[i as int]@ == public_of(self@[i as int]));
            }
            i += 1;
        }
        proof {
            assert(snap.deep_view() =~= snapshot_of(self@));
        }
        snap
    }
}

/// Exclusivity of a claim: after one claim of a slot has succeeded, every
/// further claim of the same slot is refused with `AlreadyAssigned` — in
/// particular, of two simultaneous claims of one slot, serialized in either
/// order, exactly the first succeeds — until the slot is released again.
pub proof fn lemma_claim_exclusive(
    t: Seq<SlotView>,
    i: int,
    name: Seq<char>,
    secret: Seq<char>,
    now_ms: i64,
)
    requires
        table_wf(t),
        claim_allowed(t, i),
    ensures
        !claim_allowed(after_claim(t, i, name, secret, now_ms), i),
        claim_error(after_claim(t, i, name, secret, now_ms), i) == AssignmentError::AlreadyAssigned,
        claim_allowed(after_release(after_claim(t, i, name, secret, now_ms), i), i),
{
}

/// Idempotent re-authentication: with the correct secret, re-authentication
/// stays allowed, keeps the same secret, refreshes the heartbeat each time,
/// and doing it twice leaves the table exactly as doing it once at the later
/// time.
pub proof fn lemma_reauth_idempotent(
    t: Seq<SlotView>,
    i: int,
    secret: Seq<char>,
    now1_ms: i64,
    now2_ms: i64,
)
    requires
        table_wf(t),
        reauth_allowed(t, i, secret),
    ensures
        table_wf(after_heartbeat(t, i, now1_ms)),
        reauth_allowed(after_heartbeat(t, i, now1_ms), i, secret),
        after_heartbeat(t, i, now1_ms)[i].secret == t[i].secret,
        after_heartbeat(t, i, now1_ms)[i].last_heartbeat == Some(now1_ms),
        after_heartbeat(after_heartbeat(t, i, now1_ms), i, now2_ms) =~= after_heartbeat(
            t,
            i,
            now2_ms,
        ),
{
}

/// A snapshot carries no secret: two tables that agree on everything but
/// their secrets have the same public snapshot, so no broadcast can tell
/// them apart.
pub proof fn lemma_snapshot_hides_secrets(t1: Seq<SlotView>, t2: Seq<SlotView>)
    requires
        t1.len() == t2.len(),
        forall|i: int|
            #![trigger t1[i], t2[i]]
            0 <= i < t1.len() ==> {
                &&& t1[i].index == t2[i].index
                &&& t1[i].occupant_name == t2[i].occupant_name
                &&& t1[i].last_heartbeat == t2[i].last_heartbeat
                &&& t1[i].is_assigned == t2[i].is_assigned
            },
    ensures
        snapshot_of(t1) =~= snapshot_of(t2),
{
    assert forall|i: int| 0 <= i < t1.len() implies snapshot_of(t1)[i] == snapshot_of(t2)[i] by {
        assert(public_of(t1[i]) == public_of(t2[i]));
    }
}

/// Round trip of a slot's lifecycle: a successful claim can be resumed with
/// the secret it stored; its release empties the slot; and the emptied slot
/// can be claimed afresh, which stores the fresh secret.
pub proof fn lemma_round_trip(
    t: Seq<SlotView>,
    i: int,
    name1: Seq<char>,
    secret1: Seq<char>,
    now1_ms: i64,
    name2: Seq<char>,
    secret2: Seq<char>,
    now2_ms: i64,
)
    requires
        table_wf(t),
        claim_allowed(t, i),
    ensures
        ({
            let t1 = after_claim(t, i, name1, secret1, now1_ms);
            let t2 = after_release(t1, i);
            &&& reauth_allowed(t1, i, secret1)
            &&& !t2[i].is_assigned
            &&& claim_allowed(t2, i)
            &&& after_claim(t2, i, name2, secret2, now2_ms)[i].secret == Some(secret2)
        }),
{
}

} // verus!
