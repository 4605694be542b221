//! The session registry and the assignment operations.
//!
//! A [`SessionRegistry`] is a get-or-create map from session identifier to
//! session, each session owning a [`SlotTable`] of [`SLOT_COUNT`] slots. The
//! assignment operations — assign, reassign, unassign — resolve their
//! session through the registry and mutate that session's table alone: every
//! contract below states the new registry as `old map + one updated entry`,
//! so that isolation between sessions is part of what is proved, not an
//! afterthought. The registry is an explicitly owned object; a serving
//! component holds it and serializes the operations of one session against
//! each other, while operations on different sessions are independent (see
//! [`lemma_session_isolation`] and [`lemma_session_ops_commute`]).

use vstd::prelude::*;

verus! {

use crate::clock;
use crate::errors::AssignmentError;
use crate::slots::{
    after_claim, after_heartbeat, after_release, claim_allowed, claim_error, reauth_allowed,
    reauth_error, snapshot_of, table_wf, vacant_table, SlotPublic, SlotTable, SlotView,
};
use crate::token;

/// Number of player slots in every session of this two-player domain.
pub const SLOT_COUNT: usize = 2;

/// Opaque session identifier: a 128-bit value (UUID-equivalent) supplied by
/// the client that creates or joins the session, never generated here.
#[derive(Clone, Copy, Debug, PartialEq, Eq, Hash, Structural)]
pub struct SessionId(pub u128);

/// What a successful assign or reassign hands back: the slot that was
/// claimed or resumed, and the bearer secret that authenticates it.
#[derive(Debug)]
pub struct AssignmentGrant {
    pub slot_index: usize,
    pub secret: String,
}

/// Client-held identity of a claimed slot, persisted across reloads and
/// used to re-authenticate without claiming the slot from scratch.
#[derive(Debug)]
pub struct Identity {
    pub session_id: SessionId,
    pub slot_index: usize,
    pub secret: String,
}

/// One game session: its identity and its slot table.
pub struct Session {
    id: SessionId,
    table: SlotTable,
}

/// The table a session identifier stands for in registry state `m`: its
/// entry if present, otherwise the all-vacant table a get-or-create would
/// give it.
pub open spec fn resolved_table(m: Map<u128, Seq<SlotView>>, sid: u128) -> Seq<SlotView> {
    if m.dom().contains(sid) {
        m[sid]
    } else {
        vacant_table(SLOT_COUNT as nat)
    }
}

spec fn has_session(ss: Seq<Session>, sid: u128) -> bool {
    exists|i: int| 0 <= i < ss.len() && (#[trigger] ss[i]).id.0 == sid
}

spec fn index_of(ss: Seq<Session>, sid: u128) -> int {
    choose|i: int| 0 <= i < ss.len() && (#[trigger] ss[i]).id.0 == sid
}

spec fn ids_unique(ss: Seq<Session>) -> bool {
    forall|i: int, j: int|
        0 <= i < j < ss.len() ==> (#[trigger] ss[i]).id.0 != (#[trigger] ss[j]).id.0
}

spec fn table_map(ss: Seq<Session>) -> Map<u128, Seq<SlotView>> {
    Map::new(|sid: u128| has_session(ss, sid), |sid: u128| ss[index_of(ss, sid)].table@)
}

/// Concurrent get-or-create map from session identifier to session; the
/// registry's mathematical value is the map from identifier to that
/// session's table.
pub struct SessionRegistry {
    sessions: Vec<Session>,
}

impl View for SessionRegistry {
    type V = Map<u128, Seq<SlotView>>;

    closed spec fn view(&self) -> Map<u128, Seq<SlotView>> {
        table_map(self.sessions@)
    }
}

proof fn lemma_found_index(ss: Seq<Session>, sid: u128)
    requires
        ids_unique(ss),
        has_session(ss, sid),
    ensures
        0 <= index_of(ss, sid) < ss.len(),
        ss[index_of(ss, sid)].id.0 == sid,
        table_map(ss).dom().contains(sid),
        table_map(ss)[sid] == ss[index_of(ss, sid)].table@,
{
}

proof fn lemma_index_exact(ss: Seq<Session>, i: int)
    requires
        ids_unique(ss),
        0 <= i < ss.len(),
    ensures
        has_session(ss, ss[i].id.0),
        index_of(ss, ss[i].id.0) == i,
        table_map(ss).dom().contains(ss[i].id.0),
        table_map(ss)[ss[i].id.0] == ss[i].table@,
{
    assert(has_session(ss, ss[i].id.0));
    let j = index_of(ss, ss[i].id.0);
    if j != i {
        if j < i {
            assert(ss[j].id.0 != ss[i].id.0);
        } else {
            assert(ss[i].id.0 != ss[j].id.0);
        }
    }
}

proof fn lemma_push_view(ss: Seq<Session>, s: Session)
    requires
        ids_unique(ss),
        !has_session(ss, s.id.0),
    ensures
        ids_unique(ss.push(s)),
        table_map(ss.push(s)) =~= table_map(ss).insert(s.id.0, s.table@),
{
    let ss2 = ss.push(s);
    assert forall|i: int, j: int| 0 <= i < j < ss2.len() implies ss2[i].id.0 != ss2[j].id.0 by {
        if j < ss.len() {
            assert(ss[i].id.0 != ss[j].id.0);
        } else {
            assert(ss2[j] == s);
            assert(ss2[i] == ss[i]);
            if ss[i].id.0 == s.id.0 {
                assert(has_session(ss, s.id.0));
            }
        }
    }
    assert forall|k: u128| #[trigger] has_session(ss2, k) implies table_map(ss).insert(
        s.id.0,
        s.table@,
    ).dom().contains(k) by {
        let w = choose|i: int| 0 <= i < ss2.len() && (#[trigger] ss2[i]).id.0 == k;
        if w < ss.len() {
            assert(ss[w].id.0 == k);
        }
    }
    assert forall|k: u128|
        table_map(ss).insert(s.id.0, s.table@).dom().contains(k) implies #[trigger] has_session(
        ss2,
        k,
    ) by {
        if k == s.id.0 {
            assert(ss2[ss.len() as int].id.0 == k);
        } else {
            let w = choose|i: int| 0 <= i < ss.len() && (#[trigger] ss[i]).id.0 == k;
            assert(ss2[w].id.0 == k);
        }
    }
    assert forall|k: u128| #[trigger] has_session(ss2, k) implies table_map(ss2)[k] == table_map(
        ss,
    ).insert(s.id.0, s.table@)[k] by {
        lemma_found_index(ss2, k);
        let w = index_of(ss2, k);
        if k == s.id.0 {
            if w < ss.len() {
                assert(has_session(ss, s.id.0));
            }
            assert(ss2[w] == s);
        } else {
            assert(w < ss.len());
            assert(ss[w].id.0 == k);
            lemma_index_exact(ss, w);
        }
    }
    assert(table_map(ss2) =~= table_map(ss).insert(s.id.0, s.table@));
}

proof fn lemma_update_view(ss: Seq<Session>, ss2: Seq<Session>, i: int)
    requires
        ids_unique(ss),
        0 <= i < ss.len(),
        ss2.len() == ss.len(),
        ss2[i].id == ss[i].id,
        forall|j: int| 0 <= j < ss.len() && j != i ==> ss2[j] == ss[j],
    ensures
        ids_unique(ss2),
        table_map(ss2) =~= table_map(ss).insert(ss[i].id.0, ss2[i].table@),
{
    assert forall|j: int| 0 <= j < ss2.len() implies (#[trigger] ss2[j]).id == ss[j].id by {
        if j != i {
            assert(ss2[j] == ss[j]);
        }
    }
    assert forall|p: int, q: int| 0 <= p < q < ss2.len() implies ss2[p].id.0 != ss2[q].id.0 by {
        assert(ss[p].id.0 != ss[q].id.0);
    }
    assert forall|k: u128| #[trigger] has_session(ss2, k) == has_session(ss, k) by {
        if has_session(ss2, k) {
            let w = choose|x: int| 0 <= x < ss2.len() && (#[trigger] ss2[x]).id.0 == k;
            assert(ss[w].id.0 == k);
        }
        if has_session(ss, k) {
            let w = choose|x: int| 0 <= x < ss.len() && (#[trigger] ss[x]).id.0 == k;
            assert(ss2[w].id.0 == k);
        }
    }
    assert forall|k: u128| #[trigger] has_session(ss2, k) implies table_map(ss2)[k] == table_map(
        ss,
    ).insert(ss[i].id.0, ss2[i].table@)[k] by {
        lemma_found_index(ss2, k);
        let w = index_of(ss2, k);
        lemma_index_exact(ss, w);
        if k == ss[i].id.0 {
            assert(w == i) by {
                if w != i {
                    assert(ss2[w].id == ss[w].id);
                }
            }
        } else {
            assert(w != i);
            assert(ss2[w] == ss[w]);
        }
    }
    assert(table_map(ss2) =~= table_map(ss).insert(ss[i].id.0, ss2[i].table@));
}

impl SessionRegistry {
    /// The registry is well-formed: session identifiers are unique, and
    /// every session's table is well-formed with exactly `SLOT_COUNT`
    /// slots.
    pub closed spec fn wf(&self) -> bool {
        &&& ids_unique(self.sessions@)
        &&& forall|i: int|
            0 <= i < self.sessions@.len() ==> (#[trigger] self.sessions@[i]).table.wf()
                && self.sessions@[i].table@.len() == SLOT_COUNT
    }

    /// What well-formedness means for the registry's mathematical value:
    /// every registered table is well-formed and has `SLOT_COUNT` slots.
    pub proof fn lemma_wf_tables(&self)
        requires
            self.wf(),
        ensures
            forall|sid: u128| #[trigger]
                self@.dom().contains(sid) ==> table_wf(self@[sid]) && self@[sid].len()
                    == SLOT_COUNT,
    {
        assert forall|sid: u128| #[trigger] self@.dom().contains(sid) implies table_wf(self@[sid])
            && self@[sid].len() == SLOT_COUNT by {
            lemma_found_index(self.sessions@, sid);
        }
    }

    /// An empty registry: no session exists yet.
    pub fn new() -> (r: SessionRegistry)
        ensures
            r.wf(),
            r@ =~= Map::<u128, Seq<SlotView>>::empty(),
    {
        let r = SessionRegistry { sessions: Vec::new() };
        proof {
            assert forall|k: u128| !(#[trigger] has_session(r.sessions@, k)) by {
                if has_session(r.sessions@, k) {
                    let w = choose|i: int|
                        0 <= i < r.sessions@.len() && (#[trigger] r.sessions@[i]).id.0 == k;
                }
            }
            assert(r@ =~= Map::<u128, Seq<SlotView>>::empty());
        }
        r
    }

    /// Resolve `id` to its session, creating the session with an all-vacant
    /// table the first time any request references it; returns the
    /// session's position.
    fn ensure_session(&mut self, id: SessionId) -> (idx: usize)
        requires
            old(self).wf(),
        ensures
            final(self).wf(),
            idx < final(self).sessions@.len(),
            final(self).sessions@[idx as int].id == id,
            final(self)@ =~= (if old(self)@.dom().contains(id.0) {
                old(self)@
            } else {
                old(self)@.insert(id.0, vacant_table(SLOT_COUNT as nat))
            }),
            final(self)@.dom().contains(id.0),
            final(self)@[id.0] == final(self).sessions@[idx as int].table@,
            final(self)@[id.0] == resolved_table(old(self)@, id.0),
    {
        let n = self.sessions.len();
        let mut j: usize = 0;
        while j < n
            invariant
                j <= n,
                n == self.sessions@.len(),
                forall|k: int| 0 <= k < j ==> (#[trigger] self.sessions@[k]).id.0 != id.0,
                *self == *old(self),
                self.wf(),
            decreases n - j,
        {
            if self.sessions[j].id.0 == id.0 {
                proof {
                    lemma_index_exact(self.sessions@, j as int);
                }
                return j;
            }
            j += 1;
        }
        proof {
            if has_session(self.sessions@, id.0) {
                let w = choose|i: int|
                    0 <= i < self.sessions@.len() && (#[trigger] self.sessions@[i]).id.0 == id.0;
            }
            assert(!has_session(self.sessions@, id.0));
            assert(!old(self)@.dom().contains(id.0));
        }
        let table = SlotTable::new(SLOT_COUNT);
        let ghost ss_before = self.sessions@;
        self.sessions.push(Session { id, table });
        proof {
            lemma_push_view(ss_before, self.sessions@[ss_before.len() as int]);
            assert(self.sessions@ =~= ss_before.push(self.sessions@[ss_before.len() as int]));
            lemma_index_exact(self.sessions@, ss_before.len() as int);
        }
        self.sessions.len() - 1
    }

    /// Get or create the session for `id`: an existing session and its
    /// table are kept exactly as they are, a new one starts all-vacant.
    /// At most one session ever exists per identifier.
    pub fn get_or_create(&mut self, id: SessionId)
        requires
            old(self).wf(),
        ensures
            final(self).wf(),
            final(self)@ =~= (if old(self)@.dom().contains(id.0) {
                old(self)@
            } else {
                old(self)@.insert(id.0, vacant_table(SLOT_COUNT as nat))
            }),
            final(self)@.dom().contains(id.0),
            final(self)@[id.0] == resolved_table(old(self)@, id.0),
    {
        let _ = self.ensure_session(id);
    }

    /// Whether a session for `id` exists.
    pub fn contains(&self, id: SessionId) -> (r: bool)
        requires
            self.wf(),
        ensures
            r == self@.dom().contains(id.0),
    {
        let n = self.sessions.len();
        let mut j: usize = 0;
        while j < n
            invariant
                j <= n,
                n == self.sessions@.len(),
                forall|k: int| 0 <= k < j ==> (#[trigger] self.sessions@[k]).id.0 != id.0,
                self.wf(),
            decreases n - j,
        {
            if self.sessions[j].id.0 == id.0 {
                proof {
                    lemma_index_exact(self.sessions@, j as int);
                }
                return true;
            }
            j += 1;
        }
        proof {
            if has_session(self.sessions@, id.0) {
                let w = choose|i: int|
                    0 <= i < self.sessions@.len() && (#[trigger] self.sessions@[i]).id.0 == id.0;
            }
        }
        false
    }

    /// Assign slot `slot_index` of session `session` to `name`: the session
    /// is resolved (created when absent), and when the slot is vacant it is
    /// claimed with a freshly generated unguessable secret and the current
    /// time as first heartbeat; the grant returns that secret. A slot that
    /// is already assigned reports `AlreadyAssigned`, an out-of-range index
    /// `InvalidSlot`, and the table is then left exactly as resolved. Only
    /// this session's entry changes either way.
    pub fn assign(
        &mut self,
        session: SessionId,
        slot_index: usize,
        name: String,
    ) -> (r: Result<AssignmentGrant, AssignmentError>)
        requires
            old(self).wf(),
        ensures
            final(self).wf(),
            final(self)@.dom().contains(session.0),
            (match r {
                Ok(grant) => {
                    let t0 = resolved_table(old(self)@, session.0);
                    let t1 = final(self)@[session.0];
                    &&& claim_allowed(t0, slot_index as int)
                    &&& grant.slot_index == slot_index
                    &&& grant.secret@.len() == 36
                    &&& t1[slot_index as int].last_heartbeat is Some
                    &&& final(self)@ =~= old(self)@.insert(
                        session.0,
                        after_claim(
                            t0,
                            slot_index as int,
                            name@,
                            grant.secret@,
                            t1[slot_index as int].last_heartbeat->0,
                        ),
                    )
                },
                Err(e) => {
                    let t0 = resolved_table(old(self)@, session.0);
                    &&& !claim_allowed(t0, slot_index as int)
                    &&& e == claim_error(t0, slot_index as int)
                    &&& final(self)@ =~= old(self)@.insert(session.0, t0)
                },
            }),
    {
        let idx = self.ensure_session(session);
        let ghost ss1 = self.sessions@;
        let ghost m1 = self@;
        let ghost t0 = self@[session.0];
        let secret = token::fresh_secret();
        let returned = secret.clone();
        let now_ms = clock::now_millis();
        let session_ref = &mut self.sessions[idx];
        let result = session_ref.table.claim(slot_index, name, secret, now_ms);
        proof {
            lemma_update_view(ss1, self.sessions@, idx as int);
            assert(self@ =~= m1.insert(session.0, self.sessions@[idx as int].table@));
            if old(self)@.dom().contains(session.0) {
                assert(self@ =~= old(self)@.insert(
                    session.0,
                    self.sessions@[idx as int].table@,
                ));
            } else {
                assert(m1 =~= old(self)@.insert(session.0, vacant_table(SLOT_COUNT as nat)));
                assert(self@ =~= old(self)@.insert(
                    session.0,
                    self.sessions@[idx as int].table@,
                ));
            }
        }
        match result {
            Ok(()) => {
                proof {
                    assert(self.sessions@[idx as int].table@ =~= after_claim(
                        t0,
                        slot_index as int,
                        name@,
                        returned@,
                        now_ms,
                    ));
                    assert(self@[session.0][slot_index as int].last_heartbeat == Some(now_ms));
                }
                Ok(AssignmentGrant { slot_index, secret: returned })
            },
            Err(e) => Err(e),
        }
    }

    /// Resume an existing claim: with the matching secret the slot's
    /// heartbeat is refreshed to the current time and the same secret is
    /// returned (it does not rotate), so the call is safe to repeat. A
    /// mismatch reports `InvalidSecret`, an unassigned or out-of-range slot
    /// `InvalidSlot`, and the table is then left exactly as resolved (the
    /// session is still created when absent). Only this session's entry
    /// changes either way.
    pub fn reassign(
        &mut self,
        session: SessionId,
        slot_index: usize,
        secret: &String,
    ) -> (r: Result<AssignmentGrant, AssignmentError>)
        requires
            old(self).wf(),
        ensures
            final(self).wf(),
            final(self)@.dom().contains(session.0),
            (match r {
                Ok(grant) => {
                    let t0 = resolved_table(old(self)@, session.0);
                    let t1 = final(self)@[session.0];
                    &&& reauth_allowed(t0, slot_index as int, secret@)
                    &&& grant.slot_index == slot_index
                    &&& grant.secret@ == secret@
                    &&& t1[slot_index as int].last_heartbeat is Some
                    &&& final(self)@ =~= old(self)@.insert(
                        session.0,
                        after_heartbeat(
                            t0,
                            slot_index as int,
                            t1[slot_index as int].last_heartbeat->0,
                        ),
                    )
                },
                Err(e) => {
                    let t0 = resolved_table(old(self)@, session.0);
                    &&& !reauth_allowed(t0, slot_index as int, secret@)
                    &&& e == reauth_error(t0, slot_index as int, secret@)
                    &&& final(self)@ =~= old(self)@.insert(session.0, t0)
                },
            }),
    {
        let idx = self.ensure_session(session);
        let ghost ss1 = self.sessions@;
        let ghost t0 = self@[session.0];
        let now_ms = clock::now_millis();
        let session_ref = &mut self.sessions[idx];
        let result = session_ref.table.reauthenticate(slot_index, secret, now_ms);
        proof {
            lemma_update_view(ss1, self.sessions@, idx as int);
            assert(self@ =~= old(self)@.insert(session.0, self.sessions@[idx as int].table@));
        }
        match result {
            Ok(returned) => {
                proof {
                    assert(self.sessions@[idx as int].table@ =~= after_heartbeat(
                        t0,
                        slot_index as int,
                        now_ms,
                    ));
                    assert(self@[session.0][slot_index as int].last_heartbeat == Some(now_ms));
                }
                Ok(AssignmentGrant { slot_index, secret: returned })
            },
            Err(e) => Err(e),
        }
    }

    /// Release a claim: with the matching secret the slot returns to
    /// vacancy. The operation fails closed — `InvalidSecret` on a mismatch,
    /// `InvalidSlot` when the slot is unassigned or out of range — and the
    /// table is then left exactly as resolved (the session is still created
    /// when absent). Only this session's entry changes either way.
    pub fn unassign(
        &mut self,
        session: SessionId,
        slot_index: usize,
        secret: &String,
    ) -> (r: Result<(), AssignmentError>)
        requires
            old(self).wf(),
        ensures
            final(self).wf(),
            final(self)@.dom().contains(session.0),
            (match r {
                Ok(()) => {
                    let t0 = resolved_table(old(self)@, session.0);
                    &&& reauth_allowed(t0, slot_index as int, secret@)
                    &&& final(self)@ =~= old(self)@.insert(
                        session.0,
                        after_release(t0, slot_index as int),
                    )
                },
                Err(e) => {
                    let t0 = resolved_table(old(self)@, session.0);
                    &&& !reauth_allowed(t0, slot_index as int, secret@)
                    &&& e == reauth_error(t0, slot_index as int, secret@)
                    &&& final(self)@ =~= old(self)@.insert(session.0, t0)
                },
            }),
    {
        let idx = self.ensure_session(session);
        let ghost ss1 = self.sessions@;
        let ghost t0 = self@[session.0];
        let session_ref = &mut self.sessions[idx];
        let result = session_ref.table.release(slot_index, secret);
        proof {
            lemma_update_view(ss1, self.sessions@, idx as int);
            assert(self@ =~= old(self)@.insert(session.0, self.sessions@[idx as int].table@));
            if result is Ok {
                assert(self.sessions@[idx as int].table@ =~= after_release(
                    t0,
                    slot_index as int,
                ));
            }
        }
        result
    }

    /// Record a presence heartbeat: when the session exists and the secret
    /// matches the assigned slot, its heartbeat becomes `now_ms`; otherwise
    /// the registry is silently left untouched (no session is created, and
    /// slot existence is not leaked to the sender).
    pub fn record_heartbeat(
        &mut self,
        session: SessionId,
        slot_index: usize,
        secret: &String,
        now_ms: i64,
    ) -> (accepted: bool)
        requires
            old(self).wf(),
        ensures
            final(self).wf(),
            accepted == (old(self)@.dom().contains(session.0) && reauth_allowed(
                old(self)@[session.0],
                slot_index as int,
                secret@,
            )),
            final(self)@ =~= (if accepted {
                old(self)@.insert(
                    session.0,
                    after_heartbeat(old(self)@[session.0], slot_index as int, now_ms),
                )
            } else {
                old(self)@
            }),
    {
        let n = self.sessions.len();
        let mut j: usize = 0;
        while j < n
            invariant
                j <= n,
                n == self.sessions@.len(),
                forall|k: int| 0 <= k < j ==> (#[trigger] self.sessions@[k]).id.0 != session.0,
                *self == *old(self),
                self.wf(),
            decreases n - j,
        {
            if self.sessions[j].id.0 == session.0 {
                proof {
                    lemma_index_exact(self.sessions@, j as int);
                }
                let ghost ss1 = self.sessions@;
                let ghost t0 = self@[session.0];
                let session_ref = &mut self.sessions[j];
                let accepted = session_ref.table.record_heartbeat(slot_index, secret, now_ms);
                proof {
                    lemma_update_view(ss1, self.sessions@, j as int);
                    if accepted {
                        assert(self.sessions@[j as int].table@ =~= after_heartbeat(
                            t0,
                            slot_index as int,
                            now_ms,
                        ));
                        assert(self@ =~= old(self)@.insert(
                            session.0,
                            after_heartbeat(t0, slot_index as int, now_ms),
                        ));
                    } else {
                        assert(self.sessions@[j as int].table@ == t0);
                        assert(self@ =~= old(self)@.insert(session.0, t0));
                        assert(self@ =~= old(self)@);
                    }
                }
                return accepted;
            }
            j += 1;
        }
        proof {
            if has_session(self.sessions@, session.0) {
                let w = choose|i: int|
                    0 <= i < self.sessions@.len() && (#[trigger] self.sessions@[i]).id.0
                        == session.0;
            }
        }
        false
    }

    /// The public snapshot of a session's table — slot order kept, secrets
    /// omitted — or nothing when no such session exists. Reading never
    /// creates a session.
    pub fn snapshot(&self, session: SessionId) -> (r: Option<Vec<SlotPublic>>)
        requires
            self.wf(),
        ensures
            (match r {
                Some(snap) => self@.dom().contains(session.0) && snap.deep_view() =~= snapshot_of(
                    self@[session.0],
                ),
                None => !self@.dom().contains(session.0),
            }),
    {
        let n = self.sessions.len();
        let mut j: usize = 0;
        while j < n
            invariant
                j <= n,
                n == self.sessions@.len(),
                forall|k: int| 0 <= k < j ==> (#[trigger] self.sessions@[k]).id.0 != session.0,
                self.wf(),
            decreases n - j,
        {
            if self.sessions[j].id.0 == session.0 {
                proof {
                    lemma_index_exact(self.sessions@, j as int);
                }
                return Some(self.sessions[j].table.public_snapshot());
            }
            j += 1;
        }
        proof {
            if has_session(self.sessions@, session.0) {
                let w = choose|i: int|
                    0 <= i < self.sessions@.len() && (#[trigger] self.sessions@[i]).id.0
                        == session.0;
            }
        }
        None
    }
}

/// Exclusivity at the registry: once an assign of a slot has succeeded —
/// its session's entry updated to the claimed table — a further assign of
/// the same slot of the same session finds it taken and is refused with
/// `AlreadyAssigned`, until an unassign releases it again.
pub proof fn lemma_assign_exclusive(
    m: Map<u128, Seq<SlotView>>,
    sid: u128,
    i: int,
    name: Seq<char>,
    secret: Seq<char>,
    now_ms: i64,
)
    requires
        claim_allowed(resolved_table(m, sid), i),
    ensures
        ({
            let claimed = after_claim(resolved_table(m, sid), i, name, secret, now_ms);
            let m1 = m.insert(sid, claimed);
            &&& !claim_allowed(resolved_table(m1, sid), i)
            &&& claim_error(resolved_table(m1, sid), i) == AssignmentError::AlreadyAssigned
            &&& claim_allowed(
                resolved_table(m1.insert(sid, after_release(resolved_table(m1, sid), i)), sid),
                i,
            )
        }),
{
}

/// Isolation between sessions: an operation's effect is an update of its
/// own session's entry alone, so every other session's existence and table
/// are untouched, and what the operation found for its own session is
/// independent of any other session's entry.
pub proof fn lemma_session_isolation(
    m0: Map<u128, Seq<SlotView>>,
    m1: Map<u128, Seq<SlotView>>,
    a: u128,
    t: Seq<SlotView>,
    b: u128,
)
    requires
        m1 == m0.insert(a, t),
        b != a,
    ensures
        m1.dom().contains(b) == m0.dom().contains(b),
        m0.dom().contains(b) ==> m1[b] == m0[b],
        resolved_table(m1, b) == resolved_table(m0, b),
        resolved_table(m0.insert(b, resolved_table(m0, b)), a) == resolved_table(m0, a),
{
}

/// Operations on distinct sessions commute: applying session `a`'s update
/// and session `b`'s update in either order leaves the registry in the same
/// state.
pub proof fn lemma_session_ops_commute(
    m: Map<u128, Seq<SlotView>>,
    a: u128,
    ta: Seq<SlotView>,
    b: u128,
    tb: Seq<SlotView>,
)
    requires
        a != b,
    ensures
        m.insert(a, ta).insert(b, tb) =~= m.insert(b, tb).insert(a, ta),
{
}

} // verus!
