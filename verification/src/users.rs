//! Stored user records and the authenticator.
//!
//! The record store keeps one row per account, with the email and the
//! username each unique across the store — the same two uniqueness rules the
//! production table enforces with constraints, surfaced here as field-level
//! validation errors. The authenticator checks submitted credentials against
//! these records; a missing account and a wrong password are never told
//! apart in its result.

use vstd::prelude::*;

use crate::error::Error;
use crate::password::{hash_password, phc_verifies};
use crate::session::{session_reusable, SessionId, SessionRecord, SessionStore, UserSessionData};
use crate::templates::{LoginTemplate, RegisterTemplate};
use crate::utilities::{
    first_error_msg, fresh_uuid_bits, now_unix, str_eq, take_first_error_msg, ApiState,
    FlashMessage, FlashMessageLevel, Redirect, Route,
};

verus! {

/// How long a freshly created session lives, in seconds.
pub const SESSION_TTL_SECONDS: i64 = 1209600;

/// One account: identifiers, the unique email and username, and the encoded
/// password hash. The password itself is never stored.
#[derive(Debug)]
pub struct User {
    pub user_id: u128,
    pub email: String,
    pub username: String,
    pub password_hash: String,
    pub created_at: i64,
    pub updated_at: i64,
}

impl Clone for User {
    fn clone(&self) -> (r: Self)
        ensures
            r == *self,
    {
        User {
            user_id: self.user_id,
            email: self.email.clone(),
            username: self.username.clone(),
            password_hash: self.password_hash.clone(),
            created_at: self.created_at,
            updated_at: self.updated_at,
        }
    }
}

/// Whether some record of `s` has this email.
pub open spec fn has_email(s: Seq<User>, email: Seq<char>) -> bool {
    exists|i: int| 0 <= i < s.len() && (#[trigger] s[i]).email@ == email
}

/// Whether some record of `s` has this username.
pub open spec fn has_username(s: Seq<User>, username: Seq<char>) -> bool {
    exists|i: int| 0 <= i < s.len() && (#[trigger] s[i]).username@ == username
}

/// Whether `s` holds a record with this email whose stored hash verifies
/// `password`: the condition under which authentication is owed success.
pub open spec fn credentials_match(s: Seq<User>, email: Seq<char>, password: Seq<char>) -> bool {
    exists|i: int|
        0 <= i < s.len() && (#[trigger] s[i]).email@ == email && phc_verifies(
            password,
            s[i].password_hash@,
        )
}

/// The in-memory user record store, injected into the handlers in place of
/// the production database.
pub struct UserStore {
    users: Vec<User>,
}

impl View for UserStore {
    type V = Seq<User>;

    closed spec fn view(&self) -> Seq<User> {
        self.users@
    }
}

impl UserStore {
    /// Emails are pairwise distinct, and so are usernames.
    pub closed spec fn wf(&self) -> bool {
        forall|i: int, j: int|
            0 <= i < j < self.users@.len() ==> (#[trigger] self.users@[i]).email@ != (
            #[trigger] self.users@[j]).email@ && self.users@[i].username@
                != self.users@[j].username@
    }

    /// An empty store.
    pub fn new() -> (r: UserStore)
        ensures
            r.wf(),
            r@ =~= Seq::<User>::empty(),
    {
        UserStore { users: Vec::new() }
    }

    /// The index of the record with this email, if any.
    fn find_by_email(&self, email: &str) -> (r: Option<usize>)
        ensures
            match r {
                Some(i) => i < self@.len() && self@[i as int].email@ == email@,
                None => !has_email(self@, email@),
            },
    {
        let n = self.users.len();
        let mut i: usize = 0;
        while i < n
            invariant
                n == self.users@.len(),
                i <= n,
                forall|k: int| 0 <= k < i ==> (#[trigger] self.users@[k]).email@ != email@,
            decreases n - i,
        {
            if str_eq(self.users[i].email.as_str(), email) {
                return Some(i);
            }
            i = i + 1;
        }
        None
    }

    /// The index of the record with this username, if any.
    fn find_by_username(&self, username: &str) -> (r: Option<usize>)
        ensures
            match r {
                Some(i) => i < self@.len() && self@[i as int].username@ == username@,
                None => !has_username(self@, username@),
            },
    {
        let n = self.users.len();
        let mut i: usize = 0;
        while i < n
            invariant
                n == self.users@.len(),
                i <= n,
                forall|k: int| 0 <= k < i ==> (#[trigger] self.users@[k]).username@ != username@,
            decreases n - i,
        {
            if str_eq(self.users[i].username.as_str(), username) {
                return Some(i);
            }
            i = i + 1;
        }
        None
    }

    /// The record with this email, if any; with none, the email is free.
    pub fn get_user_by_email(&self, email: &str) -> (r: Option<&User>)
        ensures
            match r {
                Some(u) => u.email@ == email@ && exists|i: int|
                    0 <= i < self@.len() && self@[i] == *u,
                None => !has_email(self@, email@),
            },
    {
        match self.find_by_email(email) {
            None => None,
            Some(i) => Some(&self.users[i]),
        }
    }

    /// The record with this username, if any.
    pub fn get_user_by_username(&self, username: &str) -> (r: Option<&User>)
        ensures
            match r {
                Some(u) => u.username@ == username@ && exists|i: int|
                    0 <= i < self@.len() && self@[i] == *u,
                None => !has_username(self@, username@),
            },
    {
        match self.find_by_username(username) {
            None => None,
            Some(i) => Some(&self.users[i]),
        }
    }

    /// Adds an account, succeeding exactly when both the email and the
    /// username are free. A taken email is reported as a validation error on
    /// the `email` field, a taken username on the `username` field; with
    /// both taken, the email is reported, as the first constraint checked.
    pub fn insert_user(
        &mut self,
        email: String,
        username: String,
        password_hash: String,
        user_id: u128,
        now: i64,
    ) -> (r: Result<(), Error>)
        requires
            old(self).wf(),
        ensures
            final(self).wf(),
            r is Ok <==> (!has_email(old(self)@, email@) && !has_username(old(self)@, username@)),
            r is Ok ==> final(self)@ =~= old(self)@.push(
                (User { user_id, email, username, password_hash, created_at: now, updated_at: now }),
            ),
            r is Err ==> *final(self) == *old(self),
            has_email(old(self)@, email@) ==> (r matches Err(e)
                && crate::error::is_duplicate_field(e, "email"@, "email is already taken"@)),
            (!has_email(old(self)@, email@) && has_username(old(self)@, username@)) ==> (
            r matches Err(e) && crate::error::is_duplicate_field(
                e,
                "username"@,
                "username is already taken"@,
            )),
    {
        if self.find_by_email(email.as_str()).is_some() {
            let mut errors: Vec<(String, String)> = Vec::new();
            errors.push(
                (String::from_str("email"), String::from_str("email is already taken")),
            );
            return Err(Error::unprocessable_entity(errors));
        }
        if self.find_by_username(username.as_str()).is_some() {
            let mut errors: Vec<(String, String)> = Vec::new();
            errors.push(
                (String::from_str("username"), String::from_str("username is already taken")),
            );
            return Err(Error::unprocessable_entity(errors));
        }
        self.users.push(
            User { user_id, email, username, password_hash, created_at: now, updated_at: now },
        );
        proof {
            assert forall|i: int, j: int|
                0 <= i < j < self.users@.len() implies (#[trigger] self.users@[i]).email@ != (
            #[trigger] self.users@[j]).email@ && self.users@[i].username@
                != self.users@[j].username@ by {
                if j < self.users@.len() - 1 {
                    assert(self.users@[i] == old(self).users@[i]);
                    assert(self.users@[j] == old(self).users@[j]);
                } else {
                    assert(self.users@[i] == old(self).users@[i]);
                }
            }
        }
        Ok(())
    }

    /// Replaces the stored password hash of the record at `i`, marking the
    /// record updated at `now`.
    fn set_password_hash(&mut self, i: usize, password_hash: String, now: i64)
        requires
            old(self).wf(),
            i < old(self)@.len(),
        ensures
            final(self).wf(),
            final(self)@ =~= old(self)@.update(
                i as int,
                (User {
                    user_id: old(self)@[i as int].user_id,
                    email: old(self)@[i as int].email,
                    username: old(self)@[i as int].username,
                    password_hash,
                    created_at: old(self)@[i as int].created_at,
                    updated_at: now,
                }),
            ),
    {
        let user = &mut self.users[i];
        user.password_hash = password_hash;
        user.updated_at = now;
        proof {
            assert forall|p: int, q: int|
                0 <= p < q < self.users@.len() implies (#[trigger] self.users@[p]).email@ != (
            #[trigger] self.users@[q]).email@ && self.users@[p].username@
                != self.users@[q].username@ by {
                assert(self.users@[p].email@ == old(self).users@[p].email@);
                assert(self.users@[q].email@ == old(self).users@[q].email@);
                assert(self.users@[p].username@ == old(self).users@[p].username@);
                assert(self.users@[q].username@ == old(self).users@[q].username@);
            }
        }
    }
}

/// Verifies submitted credentials against the stored records: success
/// exactly when a record with this email exists and its stored hash
/// verifies the password. A missing account and a wrong password both come
/// back as the same `Unauthorized`, so the response never tells an attacker
/// whether the account exists; the authenticator itself never touches
/// sessions or cookies.
pub fn authenticate(users: &UserStore, email: &str, password: &str) -> (r: Result<
    UserSessionData,
    Error,
>)
    requires
        users.wf(),
    ensures
        r is Ok <==> credentials_match(users@, email@, password@),
        r matches Ok(d) ==> exists|i: int|
            0 <= i < users@.len() && (#[trigger] users@[i]).email@ == email@ && phc_verifies(
                password@,
                users@[i].password_hash@,
            ) && d.user_id == users@[i].user_id && d.username@ == users@[i].username@,
        r matches Err(e) ==> e == Error::Unauthorized,
{
    match users.get_user_by_email(email) {
        None => {
            proof {
                assert(!credentials_match(users@, email@, password@));
            }
            Err(Error::Unauthorized)
        },
        Some(u) => {
            let ghost i0 = choose|i: int| 0 <= i < users@.len() && users@[i] == *u;
            if crate::password::verify_password(password, u.password_hash.as_str()) {
                Ok(UserSessionData { user_id: u.user_id, username: u.username.clone() })
            } else {
                proof {
                    assert forall|j: int|
                        0 <= j < users@.len() && (#[trigger] users@[j]).email@
                            == email@ implies !phc_verifies(password@, users@[j].password_hash@) by {
                        if j < i0 {
                            assert(users@[j].email@ != users@[i0].email@);
                        } else if i0 < j {
                            assert(users@[i0].email@ != users@[j].email@);
                        }
                    }
                }
                Err(Error::Unauthorized)
            }
        },
    }
}

/// Whether `new_m` is `old_m` plus one fresh, empty, logged-out session
/// under `id`.
spec fn fresh_session(
    old_m: Map<SessionId, SessionRecord>,
    new_m: Map<SessionId, SessionRecord>,
    id: SessionId,
) -> bool {
    &&& !old_m.contains_key(id)
    &&& new_m.contains_key(id)
    &&& new_m.remove(id) == old_m
    &&& new_m[id].identity is None
    &&& new_m[id].flash@ =~= Seq::<FlashMessage>::empty()
}

/// Whether the session store can serve a failed login for a request
/// carrying `sid`: queueing the flash needs the request's own session, or
/// one fresh identifier to create it.
pub open spec fn can_flash(sessions: SessionStore, sid: Option<SessionId>) -> bool {
    session_reusable(sessions@, sid) || sessions.serials_left()
}

/// Whether the session store can serve a successful login for a request
/// carrying `sid`: rotation always takes one fresh identifier, and a
/// request without a usable session takes another for the session created
/// first.
pub open spec fn can_login(sessions: SessionStore, sid: Option<SessionId>) -> bool {
    if session_reusable(sessions@, sid) {
        sessions.serials_left()
    } else {
        sessions.two_serials_left()
    }
}

/// The session a request proceeds with: the one named by its cookie, if that
/// session exists, otherwise a fresh one.
fn ensure_session(sessions: &mut SessionStore, sid: Option<SessionId>) -> (r: Result<
    SessionId,
    Error,
>)
    requires
        old(sessions).wf(),
    ensures
        final(sessions).wf(),
        r is Ok <==> (session_reusable(old(sessions)@, sid) || old(sessions).serials_left()),
        match r {
            Ok(id) => match sid {
                Some(s) => {
                    if old(sessions)@.contains_key(s) {
                        id == s && *final(sessions) == *old(sessions)
                    } else {
                        &&& fresh_session(old(sessions)@, final(sessions)@, id)
                        &&& final(sessions).serials_left() <==> old(sessions).two_serials_left()
                    }
                },
                None => {
                    &&& fresh_session(old(sessions)@, final(sessions)@, id)
                    &&& final(sessions).serials_left() <==> old(sessions).two_serials_left()
                },
            },
            Err(e) => e == Error::SessionBackend && *final(sessions) == *old(sessions),
        },
{
    if let Some(s) = sid {
        if sessions.contains(s) {
            return Ok(s);
        }
    }
    let now = now_unix();
    let expires_at = if now > i64::MAX - SESSION_TTL_SECONDS {
        i64::MAX
    } else {
        now + SESSION_TTL_SECONDS
    };
    sessions.create(expires_at)
}

/// Handles a login submission. With credentials that match a stored record,
/// the session identity is set and the identifier rotated — the pre-login
/// identifier, if any, is invalid afterwards — and the client is sent to
/// the task list with the fresh identifier as its cookie. With anything
/// else — unknown email or wrong password, never told apart — an
/// "Incorrect Credentials" flash message is queued in the (possibly fresh)
/// session and the client is sent back to the login page.
pub fn login_user(state: &mut ApiState, sid: Option<SessionId>, email: &str, password: &str) -> (r:
    (Result<Redirect, Error>, Option<SessionId>))
    requires
        old(state).wf(),
    ensures
        final(state).wf(),
        final(state).users == old(state).users,
        final(state).tasks == old(state).tasks,
        r.0 is Ok ==> credentials_match(old(state).users@, email@, password@),
        r.0 matches Err(e) ==> (e == Error::Unauthorized || e == Error::SessionBackend),
        credentials_match(old(state).users@, email@, password@) ==> (r.0 is Ok || (
        r.0 matches Err(e) && e == Error::SessionBackend)),
        (r.0 matches Err(e) && e == Error::Unauthorized) ==> !credentials_match(
            old(state).users@,
            email@,
            password@,
        ),
        can_login(old(state).sessions, sid) ==> (r.0 is Ok <==> credentials_match(
            old(state).users@,
            email@,
            password@,
        )),
        (!credentials_match(old(state).users@, email@, password@) && can_flash(
            old(state).sessions,
            sid,
        )) ==> (r.0 matches Err(e) && e == Error::Unauthorized),
        r.0 matches Ok(red) ==> {
            &&& red.status == 303 && red.target == Route::Todo
            &&& r.1 matches Some(nid) && {
                &&& !old(state).sessions@.contains_key(nid)
                &&& final(state).sessions@.contains_key(nid)
                &&& final(state).sessions@[nid].identity matches Some(d) && exists|i: int|
                    0 <= i < old(state).users@.len() && (#[trigger] old(state).users@[i]).email@
                        == email@ && phc_verifies(
                        password@,
                        old(state).users@[i].password_hash@,
                    ) && d.user_id == old(state).users@[i].user_id && d.username@ == old(
                        state,
                    ).users@[i].username@
            }
            &&& match sid {
                Some(s) => old(state).sessions@.contains_key(s)
                    ==> !final(state).sessions@.contains_key(s),
                None => true,
            }
        },
        (r.0 matches Err(e) && e == Error::Unauthorized) ==> (r.1 matches Some(fid) && {
            &&& final(state).sessions@.contains_key(fid)
            &&& final(state).sessions@[fid].flash@.len() >= 1
            &&& final(state).sessions@[fid].flash@.last().level == FlashMessageLevel::Error
            &&& final(state).sessions@[fid].flash@.last().msg@ == "Incorrect Credentials"@
            &&& match sid {
                Some(s) => old(state).sessions@.contains_key(s) ==> (fid == s
                    && final(state).sessions@[s].flash@ =~= old(state).sessions@[s].flash@.push(
                    final(state).sessions@[s].flash@.last(),
                ) && final(state).sessions@[s].identity == old(state).sessions@[s].identity),
                None => true,
            }
            &&& !session_reusable(old(state).sessions@, sid) ==> (
            final(state).sessions@[fid].identity is None
                && final(state).sessions@[fid].flash@.len() == 1)
        }),
{
    match authenticate(&state.users, email, password) {
        Ok(data) => {
            let sid2 = match ensure_session(&mut state.sessions, sid) {
                Ok(id) => id,
                Err(e) => {
                    proof {
                        if old(state).sessions.two_serials_left() {
                            old(state).sessions.lemma_two_serials_left_implies_one();
                        }
                    }
                    return (Err(e), None);
                },
            };
            match state.sessions.create_user_session(sid2, data) {
                Ok(nid) => (Ok(Redirect::to(Route::Todo)), Some(nid)),
                Err(e) => (Err(e), Some(sid2)),
            }
        },
        Err(_) => {
            let fid = match ensure_session(&mut state.sessions, sid) {
                Ok(id) => id,
                Err(e) => {
                    proof {
                        if old(state).sessions.two_serials_left() {
                            old(state).sessions.lemma_two_serials_left_implies_one();
                        }
                    }
                    return (Err(e), None);
                },
            };
            match state.sessions.set_msg(
                fid,
                FlashMessageLevel::Error,
                String::from_str("Incorrect Credentials"),
            ) {
                Ok(()) => (Err(Error::Unauthorized), Some(fid)),
                Err(e) => {
                    proof {
                        assert(false);
                    }
                    (Err(e), Some(fid))
                },
            }
        },
    }
}

/// Handles a registration submission: hashes the password, then adds the
/// account, succeeding exactly when the email and the username are both
/// free; on success the client is sent to the login page. A taken email or
/// username comes back as the field-level validation error the user sees; a
/// hashing backend failure is an internal error and changes nothing.
pub fn register_user(state: &mut ApiState, email: String, username: String, password: &str) -> (r:
    Result<Redirect, Error>)
    requires
        old(state).wf(),
    ensures
        final(state).wf(),
        final(state).sessions == old(state).sessions,
        final(state).tasks == old(state).tasks,
        r matches Ok(red) ==> {
            &&& red.status == 303 && red.target == Route::Login
            &&& !has_email(old(state).users@, email@)
            &&& !has_username(old(state).users@, username@)
            &&& final(state).users@.len() == old(state).users@.len() + 1
            &&& final(state).users@ =~= old(state).users@.push(final(state).users@.last())
            &&& final(state).users@.last().email == email
            &&& final(state).users@.last().username == username
            &&& phc_verifies(password@, final(state).users@.last().password_hash@)
        },
        r is Err ==> final(state).users == old(state).users,
        r matches Err(e) ==> (e == Error::HashingBackend || (has_email(old(state).users@, email@)
            && crate::error::is_duplicate_field(e, "email"@, "email is already taken"@)) || (
        !has_email(old(state).users@, email@) && has_username(old(state).users@, username@)
            && crate::error::is_duplicate_field(e, "username"@, "username is already taken"@))),
        (!has_email(old(state).users@, email@) && !has_username(old(state).users@, username@)) ==> (
        r is Ok || (r matches Err(e) && e == Error::HashingBackend)),
{
    let password_hash = match hash_password(password) {
        Ok(h) => h,
        Err(e) => {
            return Err(e);
        },
    };
    let user_id = fresh_uuid_bits();
    let now = now_unix();
    match state.users.insert_user(email, username, password_hash, user_id, now) {
        Ok(()) => Ok(Redirect::to(Route::Login)),
        Err(e) => Err(e),
    }
}

/// Serves the login page: takes the flash messages out of the request's
/// session — they are delivered this once and never again — and shows the
/// first error-level one, if any.
pub fn login_page(state: &mut ApiState, sid: Option<SessionId>) -> (r: LoginTemplate)
    requires
        old(state).wf(),
    ensures
        final(state).wf(),
        final(state).users == old(state).users,
        final(state).tasks == old(state).tasks,
        match sid {
            Some(id) => {
                if old(state).sessions@.contains_key(id) {
                    &&& r.errors == first_error_msg(old(state).sessions@[id].flash@)
                    &&& final(state).sessions@.contains_key(id)
                    &&& final(state).sessions@[id].flash@ =~= Seq::<FlashMessage>::empty()
                    &&& final(state).sessions@[id].identity == old(state).sessions@[id].identity
                    &&& final(state).sessions@.remove(id) == old(state).sessions@.remove(id)
                } else {
                    r.errors is None && *final(state) == *old(state)
                }
            },
            None => r.errors is None && *final(state) == *old(state),
        },
{
    match sid {
        None => LoginTemplate::new(None),
        Some(id) => {
            let msgs = state.sessions.get_msgs(id);
            let errors = take_first_error_msg(msgs);
            LoginTemplate::new(errors)
        },
    }
}

/// Serves the registration page, which carries no data.
pub fn register_page() -> (r: RegisterTemplate)
{
    RegisterTemplate
}

/// Handles a logout: destroys the request's session, so its identifier is
/// invalid from here on, and sends the client home.
pub fn logout_user(state: &mut ApiState, sid: Option<SessionId>) -> (r: Redirect)
    requires
        old(state).wf(),
    ensures
        final(state).wf(),
        final(state).users == old(state).users,
        final(state).tasks == old(state).tasks,
        r.status == 303 && r.target == Route::Home,
        final(state).sessions@ == (match sid {
            Some(id) => old(state).sessions@.remove(id),
            None => old(state).sessions@,
        }),
{
    match sid {
        Some(id) => {
            state.sessions.delete(id);
        },
        None => {
            proof {
                assert(state.sessions@ =~= old(state).sessions@);
            }
        },
    }
    Redirect::to(Route::Home)
}

/// Handles a password change: the account is looked up by username, the
/// previous password must verify against its stored hash — a missing
/// account and a wrong password are answered alike — and on success the
/// freshly hashed new password replaces the stored hash.
pub fn update_user(
    state: &mut ApiState,
    username: &str,
    prev_password: &str,
    new_password: &str,
) -> (r: Result<(), Error>)
    requires
        old(state).wf(),
    ensures
        final(state).wf(),
        final(state).sessions == old(state).sessions,
        final(state).tasks == old(state).tasks,
        r is Ok ==> exists|i: int|
            {
                &&& 0 <= i < old(state).users@.len()
                &&& (#[trigger] old(state).users@[i]).username@ == username@
                &&& phc_verifies(prev_password@, old(state).users@[i].password_hash@)
                &&& final(state).users@.len() == old(state).users@.len()
                &&& final(state).users@ =~= old(state).users@.update(i, final(state).users@[i])
                &&& final(state).users@[i].user_id == old(state).users@[i].user_id
                &&& final(state).users@[i].email == old(state).users@[i].email
                &&& final(state).users@[i].username == old(state).users@[i].username
                &&& final(state).users@[i].created_at == old(state).users@[i].created_at
                &&& phc_verifies(new_password@, final(state).users@[i].password_hash@)
            },
        r is Err ==> final(state).users == old(state).users,
        r matches Err(e) ==> (e == Error::Unauthorized || e == Error::HashingBackend),
        (r matches Err(e) && e == Error::Unauthorized) <==> !(exists|i: int|
            0 <= i < old(state).users@.len() && (#[trigger] old(state).users@[i]).username@
                == username@ && phc_verifies(prev_password@, old(state).users@[i].password_hash@)),
        (exists|i: int|
            0 <= i < old(state).users@.len() && (#[trigger] old(state).users@[i]).username@
                == username@ && phc_verifies(prev_password@, old(state).users@[i].password_hash@))
            ==> (r is Ok || (r matches Err(e) && e == Error::HashingBackend)),
{
    let i = match state.users.find_by_username(username) {
        Some(i) => i,
        None => {
            return Err(Error::Unauthorized);
        },
    };
    let ghost i0 = i as int;
    if !crate::password::verify_password(prev_password, state.users.users[i].password_hash.as_str())
    {
        proof {
            assert forall|j: int|
                0 <= j < state.users@.len() && (#[trigger] state.users@[j]).username@
                    == username@ implies !phc_verifies(
                prev_password@,
                state.users@[j].password_hash@,
            ) by {
                if j < i0 {
                    assert(state.users@[j].username@ != state.users@[i0].username@);
                } else if i0 < j {
                    assert(state.users@[i0].username@ != state.users@[j].username@);
                }
            }
        }
        return Err(Error::Unauthorized);
    }
    let new_hash = match hash_password(new_password) {
        Ok(h) => h,
        Err(e) => {
            return Err(e);
        },
    };
    let now = now_unix();
    state.users.set_password_hash(i, new_hash, now);
    Ok(())
}

} // verus!
