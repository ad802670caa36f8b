//! The session store and everything that lives inside a session: the
//! authenticated identity, one-shot flash messages, and per-session expiry.
//!
//! A session is server-side state keyed by an opaque identifier carried in a
//! client cookie. The store is an in-memory table injected into the handlers
//! at construction time; its abstract value is the map from identifiers to
//! session records. Identifiers pair a serial number, which makes every
//! identifier this store ever hands out distinct, with a random token drawn
//! from the process's entropy source, which keeps them unguessable.
//!
//! On privilege change the identifier is rotated: the record moves to a
//! fresh identifier and the old one becomes invalid at once, so a cookie
//! observed before login cannot be replayed afterwards.

use vstd::prelude::*;

use crate::error::Error;
use crate::utilities::{FlashMessage, FlashMessageLevel};

verus! {

/// An opaque session identifier: a serial number never reused by the store
/// that issued it, plus a random token that makes the identifier hard to
/// guess.
#[derive(Clone, Copy, PartialEq, Eq, Structural, Debug)]
pub struct SessionId {
    pub serial: u64,
    pub token: u64,
}

/// The identity stored in a session after a successful login, under the
/// fixed session key `user_session`.
#[derive(Debug)]
pub struct UserSessionData {
    pub user_id: u128,
    pub username: String,
}

impl Clone for UserSessionData {
    fn clone(&self) -> (r: Self)
        ensures
            r == *self,
    {
        UserSessionData { user_id: self.user_id, username: self.username.clone() }
    }
}

impl UserSessionData {
    pub fn user_id(&self) -> (r: u128)
        ensures
            r == self.user_id,
    {
        self.user_id
    }

    pub fn username(&self) -> (r: &str)
        ensures
            r@ == self.username@,
    {
        self.username.as_str()
    }
}

/// Everything one session holds: the identity, if logged in; the queue of
/// flash messages, under the fixed session key `flash_messages`; and the
/// time past which the session is dead.
#[derive(Debug)]
pub struct SessionRecord {
    pub identity: Option<UserSessionData>,
    pub flash: Vec<FlashMessage>,
    pub expires_at: i64,
}

struct SessionEntry {
    id: SessionId,
    record: SessionRecord,
}

/// Whether some entry of `s` carries the identifier `id`.
spec fn has_id(s: Seq<SessionEntry>, id: SessionId) -> bool {
    exists|i: int| 0 <= i < s.len() && (#[trigger] s[i]).id == id
}

/// The index of the entry carrying `id`; meaningful only when `has_id`.
spec fn idx_of(s: Seq<SessionEntry>, id: SessionId) -> int {
    choose|i: int| 0 <= i < s.len() && (#[trigger] s[i]).id == id
}

/// The in-memory session store.
pub struct SessionStore {
    entries: Vec<SessionEntry>,
    next_serial: u64,
}

impl View for SessionStore {
    type V = Map<SessionId, SessionRecord>;

    closed spec fn view(&self) -> Map<SessionId, SessionRecord> {
        Map::new(
            |id: SessionId| has_id(self.entries@, id),
            |id: SessionId| self.entries@[idx_of(self.entries@, id)].record,
        )
    }
}

impl SessionStore {
    /// Entries carry pairwise distinct identifiers, and every serial already
    /// issued is below the next one.
    pub closed spec fn wf(&self) -> bool {
        &&& forall|i: int, j: int|
            0 <= i < j < self.entries@.len() ==> (#[trigger] self.entries@[i]).id != (
            #[trigger] self.entries@[j]).id
        &&& forall|i: int|
            0 <= i < self.entries@.len() ==> (#[trigger] self.entries@[i]).id.serial
                < self.next_serial
    }

    proof fn lemma_idx_at(&self, k: int)
        requires
            self.wf(),
            0 <= k < self.entries@.len(),
        ensures
            has_id(self.entries@, self.entries@[k].id),
            idx_of(self.entries@, self.entries@[k].id) == k,
            self@.contains_key(self.entries@[k].id),
            self@[self.entries@[k].id] == self.entries@[k].record,
    {
        let s = self.entries@;
        let id = s[k].id;
        assert(has_id(s, id));
        let j = idx_of(s, id);
        assert(0 <= j < s.len() && s[j].id == id);
        if j != k {
            if j < k {
                assert(s[j].id != s[k].id);
            } else {
                assert(s[k].id != s[j].id);
            }
        }
    }

    /// An empty store.
    pub fn new() -> (r: SessionStore)
        ensures
            r.wf(),
            r@ =~= Map::<SessionId, SessionRecord>::empty(),
    {
        SessionStore { entries: Vec::new(), next_serial: 0 }
    }

    /// The index of the entry for `id`, if the session exists.
    fn find(&self, id: SessionId) -> (r: Option<usize>)
        requires
            self.wf(),
        ensures
            match r {
                Some(i) => {
                    &&& i < self.entries@.len()
                    &&& self.entries@[i as int].id == id
                    &&& idx_of(self.entries@, id) == i
                    &&& self@.contains_key(id)
                    &&& self@[id] == self.entries@[i as int].record
                },
                None => !self@.contains_key(id),
            },
    {
        let n = self.entries.len();
        let mut i: usize = 0;
        while i < n
            invariant
                n == self.entries@.len(),
                i <= n,
                self.wf(),
                forall|k: int| 0 <= k < i ==> (#[trigger] self.entries@[k]).id != id,
            decreases n - i,
        {
            if self.entries[i].id == id {
                proof {
                    self.lemma_idx_at(i as int);
                }
                return Some(i);
            }
            i = i + 1;
        }
        assert(!has_id(self.entries@, id));
        None
    }

    /// Whether a session with this identifier exists.
    pub fn contains(&self, id: SessionId) -> (r: bool)
        requires
            self.wf(),
        ensures
            r == self@.contains_key(id),
    {
        self.find(id).is_some()
    }

    /// Creates a fresh empty session that dies at `expires_at`, and returns
    /// its identifier, which no session of this store has carried before.
    /// Fails only when the serial numbers are exhausted.
    pub fn create(&mut self, expires_at: i64) -> (r: Result<SessionId, Error>)
        requires
            old(self).wf(),
        ensures
            final(self).wf(),
            r is Ok <==> old(self).serials_left(),
            r is Ok ==> (final(self).serials_left() <==> old(self).two_serials_left()),
            match r {
                Ok(id) => {
                    &&& !old(self)@.contains_key(id)
                    &&& final(self)@.contains_key(id)
                    &&& final(self)@.remove(id) == old(self)@
                    &&& final(self)@[id].identity is None
                    &&& final(self)@[id].flash@ =~= Seq::<FlashMessage>::empty()
                    &&& final(self)@[id].expires_at == expires_at
                },
                Err(e) => e == Error::SessionBackend && *final(self) == *old(self),
            },
    {
        if self.next_serial == u64::MAX {
            return Err(Error::SessionBackend);
        }
        let id = SessionId { serial: self.next_serial, token: crate::utilities::fresh_uuid_bits() as u64 };
        proof {
            assert(!has_id(self.entries@, id));
        }
        let record = SessionRecord { identity: None, flash: Vec::new(), expires_at };
        self.entries.push(SessionEntry { id, record });
        self.next_serial = self.next_serial + 1;
        proof {
            let s_old = old(self).entries@;
            let s_new = self.entries@;
            assert forall|k: SessionId| has_id(s_new, k) implies k == id || has_id(s_old, k) by {
                let i = choose|i: int| 0 <= i < s_new.len() && (#[trigger] s_new[i]).id == k;
                if i < s_old.len() {
                    assert(s_old[i].id == k);
                }
            }
            assert forall|k: SessionId| has_id(s_old, k) implies has_id(s_new, k) by {
                let i = choose|i: int| 0 <= i < s_old.len() && (#[trigger] s_old[i]).id == k;
                assert(s_new[i].id == k);
            }
            assert(has_id(s_new, id)) by {
                assert(s_new[s_new.len() - 1].id == id);
            }
            self.lemma_idx_at(s_new.len() - 1);
            assert forall|k: SessionId| #[trigger] old(self)@.contains_key(k) implies self@[k]
                == old(self)@[k] by {
                let i = choose|i: int| 0 <= i < s_old.len() && (#[trigger] s_old[i]).id == k;
                old(self).lemma_idx_at(i);
                assert(s_new[i].id == k);
                self.lemma_idx_at(i);
            }
            assert(self@.remove(id) =~= old(self)@);
        }
        Ok(id)
    }

    /// Whether this store can still issue a fresh identifier.
    pub closed spec fn serials_left(&self) -> bool {
        self.next_serial < u64::MAX
    }

    /// Whether this store can still issue two fresh identifiers: what a
    /// request needs that first creates a session and then rotates it.
    pub closed spec fn two_serials_left(&self) -> bool {
        self.next_serial < u64::MAX - 1
    }

    /// Two fresh identifiers in stock imply at least one.
    pub proof fn lemma_two_serials_left_implies_one(&self)
        requires
            self.two_serials_left(),
        ensures
            self.serials_left(),
    {
    }

    /// After updating the entry at `i` without touching its identifier, the
    /// abstract map changes only at that identifier.
    proof fn lemma_update_same_id(&self, other: &Self, i: int)
        requires
            other.wf(),
            0 <= i < other.entries@.len(),
            self.entries@.len() == other.entries@.len(),
            self.next_serial == other.next_serial,
            self.entries@[i].id == other.entries@[i].id,
            forall|k: int|
                0 <= k < other.entries@.len() && k != i ==> self.entries@[k] == other.entries@[k],
        ensures
            self.wf(),
            self@.contains_key(other.entries@[i].id),
            self@[other.entries@[i].id] == self.entries@[i].record,
            self@.remove(other.entries@[i].id) == other.view().remove(other.entries@[i].id),
            forall|k: SessionId| self@.contains_key(k) == other.view().contains_key(k),
    {
        let s_new = self.entries@;
        let s_old = other.entries@;
        let id = s_old[i].id;
        assert(self.wf()) by {
            assert forall|p: int, q: int|
                0 <= p < q < s_new.len() implies (#[trigger] s_new[p]).id != (
            #[trigger] s_new[q]).id by {
                assert(s_new[p].id == s_old[p].id);
                assert(s_new[q].id == s_old[q].id);
            }
            assert forall|p: int|
                0 <= p < s_new.len() implies (#[trigger] s_new[p]).id.serial
                    < self.next_serial by {
                assert(s_new[p].id == s_old[p].id);
            }
        }
        assert forall|k: SessionId| has_id(s_new, k) == has_id(s_old, k) by {
            if has_id(s_new, k) {
                let p = choose|p: int| 0 <= p < s_new.len() && (#[trigger] s_new[p]).id == k;
                assert(s_old[p].id == k);
            }
            if has_id(s_old, k) {
                let p = choose|p: int| 0 <= p < s_old.len() && (#[trigger] s_old[p]).id == k;
                assert(s_new[p].id == k);
            }
        }
        self.lemma_idx_at(i);
        other.lemma_idx_at(i);
        assert forall|k: SessionId|
            k != id && #[trigger] other.view().contains_key(k) implies self@[k]
            == other.view()[k] by {
            let p = choose|p: int| 0 <= p < s_old.len() && (#[trigger] s_old[p]).id == k;
            other.lemma_idx_at(p);
            assert(p != i);
            assert(s_new[p].id == k);
            self.lemma_idx_at(p);
        }
        assert(self@.remove(id) =~= other.view().remove(id));
    }

    /// Stores the authenticated identity in the session, under the identity
    /// key. Fails exactly when no such session exists.
    pub fn set_identity(&mut self, id: SessionId, data: UserSessionData) -> (r: Result<(), Error>)
        requires
            old(self).wf(),
        ensures
            final(self).wf(),
            final(self).serials_left() == old(self).serials_left(),
            r is Ok <==> old(self)@.contains_key(id),
            match r {
                Ok(()) => {
                    &&& final(self)@.contains_key(id)
                    &&& final(self)@[id].identity == Some(data)
                    &&& final(self)@[id].flash == old(self)@[id].flash
                    &&& final(self)@[id].expires_at == old(self)@[id].expires_at
                    &&& final(self)@.remove(id) == old(self)@.remove(id)
                    &&& forall|k: SessionId|
                        final(self)@.contains_key(k) == old(self)@.contains_key(k)
                },
                Err(e) => e == Error::SessionBackend && *final(self) == *old(self),
            },
    {
        match self.find(id) {
            None => Err(Error::SessionBackend),
            Some(i) => {
                let entry = &mut self.entries[i];
                entry.record.identity = Some(data);
                proof {
                    self.lemma_update_same_id(old(self), i as int);
                }
                Ok(())
            },
        }
    }

    /// Appends a flash message to the session's queue. Fails exactly when no
    /// such session exists.
    pub fn set_msg(&mut self, id: SessionId, level: FlashMessageLevel, msg: String) -> (r: Result<
        (),
        Error,
    >)
        requires
            old(self).wf(),
        ensures
            final(self).wf(),
            final(self).serials_left() == old(self).serials_left(),
            r is Ok <==> old(self)@.contains_key(id),
            match r {
                Ok(()) => {
                    &&& final(self)@.contains_key(id)
                    &&& final(self)@[id].flash@ =~= old(self)@[id].flash@.push(
                        (FlashMessage { level, msg }),
                    )
                    &&& final(self)@[id].identity == old(self)@[id].identity
                    &&& final(self)@[id].expires_at == old(self)@[id].expires_at
                    &&& final(self)@.remove(id) == old(self)@.remove(id)
                    &&& forall|k: SessionId|
                        final(self)@.contains_key(k) == old(self)@.contains_key(k)
                },
                Err(e) => e == Error::SessionBackend && *final(self) == *old(self),
            },
    {
        match self.find(id) {
            None => Err(Error::SessionBackend),
            Some(i) => {
                let entry = &mut self.entries[i];
                entry.record.flash.push(FlashMessage { level, msg });
                proof {
                    self.lemma_update_same_id(old(self), i as int);
                }
                Ok(())
            },
        }
    }

    /// Takes every flash message out of the session, so that a message is
    /// delivered at most once: right after this call the session's queue is
    /// empty, and a second take returns nothing. A missing session has no
    /// messages.
    pub fn get_msgs(&mut self, id: SessionId) -> (r: Vec<FlashMessage>)
        requires
            old(self).wf(),
        ensures
            final(self).wf(),
            final(self).serials_left() == old(self).serials_left(),
            old(self)@.contains_key(id) ==> {
                &&& r == old(self)@[id].flash
                &&& final(self)@.contains_key(id)
                &&& final(self)@[id].flash@ =~= Seq::<FlashMessage>::empty()
                &&& final(self)@[id].identity == old(self)@[id].identity
                &&& final(self)@[id].expires_at == old(self)@[id].expires_at
                &&& final(self)@.remove(id) == old(self)@.remove(id)
                &&& forall|k: SessionId|
                    final(self)@.contains_key(k) == old(self)@.contains_key(k)
            },
            !old(self)@.contains_key(id) ==> r@ =~= Seq::<FlashMessage>::empty() && *final(self)
                == *old(self),
    {
        match self.find(id) {
            None => Vec::new(),
            Some(i) => {
                let entry = &mut self.entries[i];
                let mut out: Vec<FlashMessage> = Vec::new();
                core::mem::swap(&mut entry.record.flash, &mut out);
                proof {
                    self.lemma_update_same_id(old(self), i as int);
                }
                out
            },
        }
    }

    /// Destroys the session, if it exists: afterwards the identifier is
    /// invalid.
    pub fn delete(&mut self, id: SessionId)
        requires
            old(self).wf(),
        ensures
            final(self).wf(),
            final(self).serials_left() == old(self).serials_left(),
            final(self)@ == old(self)@.remove(id),
    {
        match self.find(id) {
            None => {
                proof {
                    assert(self@ =~= old(self)@.remove(id));
                }
            },
            Some(i) => {
                self.entries.swap_remove(i);
                proof {
                    let s_old = old(self).entries@;
                    let s_new = self.entries@;
                    let n = s_old.len() as int;
                    assert(s_new =~= s_old.update(i as int, s_old[n - 1]).drop_last());
                    assert(self.wf()) by {
                        assert forall|p: int, q: int|
                            0 <= p < q < s_new.len() implies (#[trigger] s_new[p]).id != (
                        #[trigger] s_new[q]).id by {
                            if p == i {
                                assert(s_new[p] == s_old[n - 1]);
                            } else {
                                assert(s_new[p] == s_old[p]);
                            }
                            assert(s_new[q] == if q == i {
                                s_old[n - 1]
                            } else {
                                s_old[q]
                            });
                        }
                        assert forall|p: int|
                            0 <= p < s_new.len() implies (#[trigger] s_new[p]).id.serial
                                < self.next_serial by {
                            if p == i {
                                assert(s_new[p] == s_old[n - 1]);
                            } else {
                                assert(s_new[p] == s_old[p]);
                            }
                        }
                    }
                    assert forall|k: SessionId| #[trigger]
                        self@.contains_key(k) implies old(self)@.contains_key(k) && k != id by {
                        let p = choose|p: int|
                            0 <= p < s_new.len() && (#[trigger] s_new[p]).id == k;
                        if p == i {
                            assert(s_old[n - 1].id == k);
                            old(self).lemma_idx_at(n - 1);
                            if n - 1 != i as int {
                                assert(s_old[i as int].id != s_old[n - 1].id);
                            }
                        } else {
                            assert(s_old[p].id == k);
                            old(self).lemma_idx_at(p);
                            assert(s_old[i as int].id != s_old[p].id || i as int == p);
                        }
                    }
                    assert forall|k: SessionId|
                        old(self)@.contains_key(k) && k != id implies #[trigger] self@.contains_key(
                        k) && self@[k] == old(self)@[k] by {
                        let p = choose|p: int|
                            0 <= p < s_old.len() && (#[trigger] s_old[p]).id == k;
                        old(self).lemma_idx_at(p);
                        assert(p != i as int);
                        if p == n - 1 {
                            assert(s_new[i as int] == s_old[n - 1]);
                            self.lemma_idx_at(i as int);
                        } else {
                            assert(s_new[p] == s_old[p]);
                            self.lemma_idx_at(p);
                        }
                    }
                    assert(self@ =~= old(self)@.remove(id));
                }
            },
        }
    }

    /// Moves the session to a fresh identifier and invalidates the old one
    /// at once: afterwards the old identifier reads as no session at all,
    /// and the fresh identifier reads the record the old one held. Fails
    /// exactly when the session does not exist or the serials are exhausted.
    pub fn rotate(&mut self, id: SessionId) -> (r: Result<SessionId, Error>)
        requires
            old(self).wf(),
        ensures
            final(self).wf(),
            r is Ok <==> (old(self)@.contains_key(id) && old(self).serials_left()),
            match r {
                Ok(nid) => {
                    &&& nid != id
                    &&& !old(self)@.contains_key(nid)
                    &&& !final(self)@.contains_key(id)
                    &&& final(self)@.contains_key(nid)
                    &&& final(self)@[nid] == old(self)@[id]
                    &&& final(self)@.remove(nid) == old(self)@.remove(id)
                },
                Err(e) => e == Error::SessionBackend && *final(self) == *old(self),
            },
    {
        match self.find(id) {
            None => Err(Error::SessionBackend),
            Some(i) => {
                if self.next_serial == u64::MAX {
                    return Err(Error::SessionBackend);
                }
                let nid = SessionId {
                    serial: self.next_serial,
                    token: crate::utilities::fresh_uuid_bits() as u64,
                };
                proof {
                    assert(!has_id(self.entries@, nid));
                    assert(self.entries@[i as int].id.serial < self.next_serial);
                }
                let entry = &mut self.entries[i];
                entry.id = nid;
                self.next_serial = self.next_serial + 1;
                proof {
                    let s_old = old(self).entries@;
                    let s_new = self.entries@;
                    assert(self.wf()) by {
                        assert forall|p: int, q: int|
                            0 <= p < q < s_new.len() implies (#[trigger] s_new[p]).id != (
                        #[trigger] s_new[q]).id by {
                            if p != i as int {
                                assert(s_new[p] == s_old[p]);
                            }
                            if q != i as int {
                                assert(s_new[q] == s_old[q]);
                            }
                        }
                        assert forall|p: int|
                            0 <= p < s_new.len() implies (#[trigger] s_new[p]).id.serial
                                < self.next_serial by {
                            if p != i as int {
                                assert(s_new[p] == s_old[p]);
                            }
                        }
                    }
                    self.lemma_idx_at(i as int);
                    old(self).lemma_idx_at(i as int);
                    assert forall|k: SessionId| #[trigger]
                        self@.contains_key(k) implies (k == nid || (old(self)@.contains_key(k) && k
                        != id)) by {
                        let p = choose|p: int|
                            0 <= p < s_new.len() && (#[trigger] s_new[p]).id == k;
                        if p != i as int {
                            assert(s_old[p].id == k);
                            old(self).lemma_idx_at(p);
                            assert(s_old[i as int].id != s_old[p].id);
                        }
                    }
                    assert forall|k: SessionId|
                        old(self)@.contains_key(k) && k != id implies #[trigger] self@.contains_key(
                        k) && self@[k] == old(self)@[k] by {
                        let p = choose|p: int|
                            0 <= p < s_old.len() && (#[trigger] s_old[p]).id == k;
                        old(self).lemma_idx_at(p);
                        assert(p != i as int);
                        assert(s_new[p] == s_old[p]);
                        self.lemma_idx_at(p);
                    }
                    assert(!self@.contains_key(id));
                    assert(self@.remove(nid) =~= old(self)@.remove(id));
                }
                Ok(nid)
            },
        }
    }

    /// Whether a fresh identifier can still be issued, as an executable
    /// check.
    fn can_issue(&self) -> (r: bool)
        ensures
            r == self.serials_left(),
    {
        self.next_serial < u64::MAX
    }

    /// Establishes the logged-in session: stores the identity in the
    /// session's record and rotates the identifier at once — a privilege
    /// change must never keep the pre-login identifier — returning the fresh
    /// identifier the client's cookie is set to.
    pub fn create_user_session(&mut self, sid: SessionId, data: UserSessionData) -> (r: Result<
        SessionId,
        Error,
    >)
        requires
            old(self).wf(),
        ensures
            final(self).wf(),
            r is Ok <==> (old(self)@.contains_key(sid) && old(self).serials_left()),
            match r {
                Ok(nid) => {
                    &&& nid != sid
                    &&& !old(self)@.contains_key(nid)
                    &&& !final(self)@.contains_key(sid)
                    &&& final(self)@.contains_key(nid)
                    &&& final(self)@[nid].identity == Some(data)
                    &&& final(self)@[nid].flash == old(self)@[sid].flash
                    &&& final(self)@[nid].expires_at == old(self)@[sid].expires_at
                    &&& final(self)@.remove(nid) == old(self)@.remove(sid)
                },
                Err(e) => e == Error::SessionBackend && *final(self) == *old(self),
            },
    {
        if !self.can_issue() {
            return Err(Error::SessionBackend);
        }
        match self.set_identity(sid, data) {
            Err(e) => Err(e),
            Ok(()) => self.rotate(sid),
        }
    }

    /// Purges every session dead at time `now`: afterwards exactly the
    /// sessions that expire later remain, unchanged.
    pub fn expire_before(&mut self, now: i64)
        requires
            old(self).wf(),
        ensures
            final(self).wf(),
            final(self).serials_left() == old(self).serials_left(),
            forall|id: SessionId| #[trigger]
                final(self)@.contains_key(id) <==> (old(self)@.contains_key(id) && old(self)@[id].expires_at
                    > now),
            forall|id: SessionId| #[trigger]
                final(self)@.contains_key(id) ==> final(self)@[id] == old(self)@[id],
    {
        let ghost orig = self.entries@;
        let mut olds: Vec<SessionEntry> = Vec::new();
        core::mem::swap(&mut self.entries, &mut olds);
        while olds.len() > 0
            invariant
                self.next_serial == old(self).next_serial,
                olds@.len() <= orig.len(),
                olds@ =~= orig.subrange(orig.len() - olds@.len(), orig.len() as int),
                forall|p: int, q: int|
                    0 <= p < q < orig.len() ==> (#[trigger] orig[p]).id != (#[trigger] orig[q]).id,
                forall|p: int|
                    0 <= p < orig.len() ==> (#[trigger] orig[p]).id.serial < self.next_serial,
                forall|k: int|
                    0 <= k < self.entries@.len() ==> came_from(
                        orig,
                        orig.len() - olds@.len(),
                        #[trigger] self.entries@[k],
                        now,
                    ),
                forall|t: int|
                    0 <= t < orig.len() - olds@.len() && (#[trigger] orig[t]).record.expires_at
                        > now ==> still_held(orig, self.entries@, t),
                forall|k1: int, k2: int|
                    0 <= k1 < k2 < self.entries@.len() ==> (#[trigger] self.entries@[k1]).id != (
                    #[trigger] self.entries@[k2]).id,
            decreases olds@.len(),
        {
            let ghost kept_before = self.entries@;
            let ghost j = orig.len() - olds@.len();
            let e = olds.remove(0);
            proof {
                assert(e == orig[j as int]);
                assert(olds@ =~= orig.subrange(orig.len() - olds@.len(), orig.len() as int));
                assert(orig.len() - olds@.len() == j + 1);
            }
            if e.record.expires_at > now {
                self.entries.push(e);
                proof {
                    assert forall|k1: int, k2: int|
                        0 <= k1 < k2 < self.entries@.len() implies (#[trigger] self.entries@[k1]).id
                        != (#[trigger] self.entries@[k2]).id by {
                        if k2 == self.entries@.len() - 1 {
                            let t = choose|t: int|
                                0 <= t < j && orig[t] == kept_before[k1]
                                    && orig[t].record.expires_at > now;
                            assert(orig[t].id != orig[j as int].id);
                        } else {
                            assert(self.entries@[k1] == kept_before[k1]);
                            assert(self.entries@[k2] == kept_before[k2]);
                        }
                    }
                    assert forall|k: int|
                        0 <= k < self.entries@.len() implies came_from(
                        orig,
                        j + 1,
                        #[trigger] self.entries@[k],
                        now,
                    ) by {
                        if k < kept_before.len() {
                            assert(self.entries@[k] == kept_before[k]);
                            let t = choose|t: int|
                                0 <= t < j && orig[t] == kept_before[k]
                                    && orig[t].record.expires_at > now;
                            assert(0 <= t < j + 1 && orig[t] == self.entries@[k]
                                && orig[t].record.expires_at > now);
                        } else {
                            assert(self.entries@[k] == orig[j as int]);
                            assert(0 <= j < j + 1 && orig[j as int] == self.entries@[k]
                                && orig[j as int].record.expires_at > now);
                        }
                    }
                    assert forall|t: int|
                        0 <= t < j + 1 && (#[trigger] orig[t]).record.expires_at
                            > now implies still_held(orig, self.entries@, t) by {
                        if t < j {
                            let k = choose|k: int|
                                0 <= k < kept_before.len() && kept_before[k] == orig[t];
                            assert(self.entries@[k] == orig[t]);
                        } else {
                            assert(self.entries@[self.entries@.len() - 1] == orig[t]);
                        }
                    }
                }
            } else {
                proof {
                    assert forall|k: int|
                        0 <= k < self.entries@.len() implies came_from(
                        orig,
                        j + 1,
                        #[trigger] self.entries@[k],
                        now,
                    ) by {
                        let t = choose|t: int|
                            0 <= t < j && orig[t] == self.entries@[k] && orig[t].record.expires_at
                                > now;
                        assert(0 <= t < j + 1 && orig[t] == self.entries@[k]
                            && orig[t].record.expires_at > now);
                    }
                    assert forall|t: int|
                        0 <= t < j + 1 && (#[trigger] orig[t]).record.expires_at
                            > now implies still_held(orig, self.entries@, t) by {
                        assert(t < j);
                    }
                }
            }
        }
        proof {
            let kept = self.entries@;
            assert(self.wf()) by {
                assert forall|p: int|
                    0 <= p < kept.len() implies (#[trigger] kept[p]).id.serial
                        < self.next_serial by {
                    let t = choose|t: int|
                        0 <= t < orig.len() && orig[t] == kept[p] && orig[t].record.expires_at
                            > now;
                }
            }
            assert forall|id: SessionId| #[trigger]
                self@.contains_key(id) implies (old(self)@.contains_key(id) && old(
                self,
            )@[id].expires_at > now && self@[id] == old(self)@[id]) by {
                let k = choose|k: int| 0 <= k < kept.len() && (#[trigger] kept[k]).id == id;
                let t = choose|t: int|
                    0 <= t < orig.len() && orig[t] == kept[k] && orig[t].record.expires_at > now;
                old(self).lemma_idx_at(t);
                self.lemma_idx_at(k);
            }
            assert forall|id: SessionId|
                old(self)@.contains_key(id) && old(self)@[id].expires_at > now implies #[trigger]
                self@.contains_key(id) by {
                let t = choose|t: int| 0 <= t < orig.len() && (#[trigger] orig[t]).id == id;
                old(self).lemma_idx_at(t);
                let k = choose|k: int| 0 <= k < kept.len() && kept[k] == orig[t];
                assert(kept[k].id == id);
            }
        }
    }
}

/// Whether `e` is one of the first `bound` entries of `orig` and is alive
/// past `now`.
spec fn came_from(orig: Seq<SessionEntry>, bound: int, e: SessionEntry, now: i64) -> bool {
    exists|t: int| 0 <= t < bound && orig[t] == e && orig[t].record.expires_at > now
}

/// Whether the entry at `orig[t]` still stands somewhere in `kept`.
spec fn still_held(orig: Seq<SessionEntry>, kept: Seq<SessionEntry>, t: int) -> bool {
    exists|k: int| 0 <= k < kept.len() && kept[k] == orig[t]
}

/// Flash messages are delivered at most once. Stated over the store's
/// abstract states along one set-then-read-twice history: `m0` before a
/// message is queued, `m1` after `set_msg` queued `msg`, `first` and `m2`
/// what the first `get_msgs` returns and leaves, `second` what a second
/// `get_msgs` returns. The first read hands the message out; the second
/// hands out nothing.
pub proof fn lemma_flash_single_delivery(
    m0: Map<SessionId, SessionRecord>,
    m1: Map<SessionId, SessionRecord>,
    m2: Map<SessionId, SessionRecord>,
    first: Seq<FlashMessage>,
    second: Seq<FlashMessage>,
    msg: FlashMessage,
    id: SessionId,
)
    requires
        m0.contains_key(id),
        m1.contains_key(id),
        m1[id].flash@ =~= m0[id].flash@.push(msg),
        first == m1[id].flash@,
        m2.contains_key(id),
        m2[id].flash@ =~= Seq::<FlashMessage>::empty(),
        second == m2[id].flash@,
    ensures
        first.len() >= 1,
        first.last() == msg,
        second =~= Seq::<FlashMessage>::empty(),
{
}

/// Whether a request carrying `sid` can keep using its own session: the
/// cookie names a session that exists in `m`.
pub open spec fn session_reusable(m: Map<SessionId, SessionRecord>, sid: Option<SessionId>) -> bool {
    sid matches Some(s) && m.contains_key(s)
}

/// Whether a request carrying `sid` passes the access guard over the
/// sessions `m`: it names a session that exists and holds an identity.
pub open spec fn guard_allows(m: Map<SessionId, SessionRecord>, sid: Option<SessionId>) -> bool {
    sid matches Some(id) && m.contains_key(id) && m[id].identity is Some
}

/// The access guard's one decision: with a valid session whose record holds
/// an identity, the request proceeds as that identity; with anything else —
/// no cookie, an unknown or rotated identifier, or a session nobody logged
/// in on — the request is rejected before any handler runs.
pub fn auth(sessions: &SessionStore, sid: Option<SessionId>) -> (r: Result<UserSessionData, Error>)
    requires
        sessions.wf(),
    ensures
        r is Ok <==> guard_allows(sessions@, sid),
        r matches Ok(d) ==> (sid matches Some(id) && sessions@[id].identity == Some(d)),
        r matches Err(e) ==> e == Error::Unauthorized,
{
    match sid {
        None => Err(Error::Unauthorized),
        Some(id) => {
            match sessions.find(id) {
                None => Err(Error::Unauthorized),
                Some(i) => {
                    match &sessions.entries[i].record.identity {
                        None => Err(Error::Unauthorized),
                        Some(d) => Ok(d.clone()),
                    }
                },
            }
        },
    }
}

} // verus!
