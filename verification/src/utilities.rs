//! Shared pieces of the HTTP layer: redirect targets, flash messages, the
//! combined application state, and the small trusted sources of entropy and
//! time that the handlers draw from.

use vstd::prelude::*;

verus! {

/// The routes the application redirects to.
#[derive(Clone, Copy, PartialEq, Eq, Structural, Debug)]
pub enum Route {
    Home,
    Login,
    Todo,
}

impl Route {
    pub fn path(&self) -> (r: &'static str)
        ensures
            *self == Route::Home ==> r@ == "/"@,
            *self == Route::Login ==> r@ == "/users/login"@,
            *self == Route::Todo ==> r@ == "/todo"@,
    {
        match self {
            Route::Home => "/",
            Route::Login => "/users/login",
            Route::Todo => "/todo",
        }
    }
}

/// A redirect response: handlers answer with one of these and the HTTP layer
/// turns it into a response with a `location` header.
#[derive(Clone, Copy, PartialEq, Eq, Structural, Debug)]
pub struct Redirect {
    pub status: u16,
    pub target: Route,
}

impl Redirect {
    /// A "see other" redirect to the given route.
    pub fn to(target: Route) -> (r: Redirect)
        ensures
            r.status == 303,
            r.target == target,
    {
        Redirect { status: 303, target }
    }
}

/// Severity of a flash message.
#[derive(Clone, Copy, PartialEq, Eq, Structural, Debug)]
pub enum FlashMessageLevel {
    Error,
    Success,
}

/// A one-shot notification carried inside a session across one redirect.
///
/// Flash messages live in the session record and are taken out of it on
/// first read (the session-resident design): there is no separately signed
/// flash cookie here, so a flash travels under the session identifier's own
/// protection and can only be read back, never replayed.
#[derive(Debug)]
pub struct FlashMessage {
    pub level: FlashMessageLevel,
    pub msg: String,
}

impl Clone for FlashMessage {
    fn clone(&self) -> (r: Self)
        ensures
            r == *self,
    {
        FlashMessage { level: self.level, msg: self.msg.clone() }
    }
}

/// The first error-level message in a flash queue, if any: what the login
/// page shows.
pub open spec fn first_error_msg(msgs: Seq<FlashMessage>) -> Option<String>
    decreases msgs.len(),
{
    if msgs.len() == 0 {
        None
    } else if msgs[0].level == FlashMessageLevel::Error {
        Some(msgs[0].msg)
    } else {
        first_error_msg(msgs.drop_first())
    }
}

/// A queue holding exactly one error-level message is shown as exactly that
/// message: the state a failed login leaves a fresh session in, so the next
/// rendering of the login page carries that text, once.
pub proof fn lemma_first_error_of_single(msg: FlashMessage)
    requires
        msg.level == FlashMessageLevel::Error,
    ensures
        first_error_msg(Seq::<FlashMessage>::empty().push(msg)) == Some(msg.msg),
{
    let s = Seq::<FlashMessage>::empty().push(msg);
    assert(s.len() == 1);
    assert(s[0] == msg);
}

/// Picks the first error-level message out of a flash queue.
pub fn take_first_error_msg(msgs: Vec<FlashMessage>) -> (r: Option<String>)
    ensures
        r == first_error_msg(msgs@),
{
    let ghost orig = msgs@;
    let n = msgs.len();
    let mut i: usize = 0;
    proof {
        assert(orig.skip(0) =~= orig);
    }
    while i < n
        invariant
            n == msgs@.len(),
            i <= n,
            msgs@ == orig,
            first_error_msg(orig) == first_error_msg(orig.skip(i as int)),
        decreases n - i,
    {
        if msgs[i].level == FlashMessageLevel::Error {
            proof {
                assert(orig.skip(i as int).len() > 0);
                assert(orig.skip(i as int)[0] == orig[i as int]);
                assert(first_error_msg(orig.skip(i as int)) == Some(orig[i as int].msg));
            }
            return Some(msgs[i].msg.clone());
        }
        proof {
            assert(orig.skip(i as int)[0] == orig[i as int]);
            assert(orig.skip(i as int).drop_first() =~= orig.skip(i + 1));
        }
        i = i + 1;
    }
    proof {
        assert(orig.skip(n as int).len() == 0);
    }
    None
}

/// Everything a handler may touch: the user records, the sessions, and the
/// task records, each an in-memory store injected at construction time in
/// place of process-wide state.
pub struct ApiState {
    pub users: crate::users::UserStore,
    pub sessions: crate::session::SessionStore,
    pub tasks: crate::tasks::TaskStore,
}

impl ApiState {
    pub open spec fn wf(&self) -> bool {
        &&& self.users.wf()
        &&& self.sessions.wf()
        &&& self.tasks.wf()
    }

    /// A fresh state with no users, no sessions and no tasks.
    pub fn new() -> (r: ApiState)
        ensures
            r.wf(),
            r.users@ =~= Seq::<crate::users::User>::empty(),
            r.sessions@ =~= Map::<crate::session::SessionId, crate::session::SessionRecord>::empty(),
            r.tasks@ =~= Seq::<crate::tasks::Task>::empty(),
    {
        ApiState {
            users: crate::users::UserStore::new(),
            sessions: crate::session::SessionStore::new(),
            tasks: crate::tasks::TaskStore::new(),
        }
    }
}

/// Compares two string slices by content.
pub fn str_eq(a: &str, b: &str) -> (r: bool)
    ensures
        r == (a@ == b@),
{
    let sa = String::from_str(a);
    let sb = String::from_str(b);
    sa.eq(&sb)
}

/// Relies on uuid::Uuid::new_v4 and Uuid::as_u128: the bits of a freshly
/// generated random version-4 UUID. The value depends on the process's
/// entropy source, so nothing is promised of it.
#[verifier::external_body]
pub(crate) fn fresh_uuid_bits() -> u128 {
    uuid::Uuid::new_v4().as_u128()
}

/// Relies on time::OffsetDateTime::now_utc and unix_timestamp: the clock's
/// current reading in whole seconds. The value depends on the machine's
/// clock, so nothing is promised of it.
#[verifier::external_body]
pub(crate) fn now_unix() -> i64 {
    time::OffsetDateTime::now_utc().unix_timestamp()
}

} // verus!
