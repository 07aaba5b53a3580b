//! Sessions: a server-side row linking an opaque cookie-carried id to an
//! optionally logged-in user. Resolution never creates a session; creation
//! happens only on successful login or signup.

use vstd::prelude::*;
use crate::store::Store;
use crate::text::{parse_i64, int_literal_ok, int_literal_value};

verus! {

pub struct Session {
    pub id: i64,
    pub logged_in_user: Option<i64>,
}

pub struct NewSession {
    pub logged_in_user: i64,
}

impl NewSession {
    pub fn new(logged_in_user: i64) -> (s: NewSession)
        ensures
            s.logged_in_user == logged_in_user,
    {
        NewSession { logged_in_user }
    }
}

/// What happened to the session table when a login attached a user.
#[derive(Clone, Copy, Debug, PartialEq, Eq, Structural)]
pub enum SessionUpdate {
    /// The cookie already named this session id; its row, if present, now
    /// carries the user.
    Updated(i64),
    /// No cookie was sent: a session row with this fresh id was created
    /// and a cookie carrying it must be set.
    Created(i64),
}

/// Every session row with id `sid` now carries `uid`; every other row is
/// untouched.
pub open spec fn session_rows_updated(pre: Seq<Session>, post: Seq<Session>, sid: i64, uid: i64) -> bool {
    &&& post.len() == pre.len()
    &&& forall|i: int|
        0 <= i < pre.len() ==> if (#[trigger] pre[i]).id == sid {
            post[i] == (Session { id: pre[i].id, logged_in_user: Some(uid) })
        } else {
            post[i] == pre[i]
        }
}

/// Every session row with id `sid` is now logged out; every other row is
/// untouched.
pub open spec fn session_rows_cleared(pre: Seq<Session>, post: Seq<Session>, sid: i64) -> bool {
    &&& post.len() == pre.len()
    &&& forall|i: int|
        0 <= i < pre.len() ==> if (#[trigger] pre[i]).id == sid {
            post[i] == (Session { id: pre[i].id, logged_in_user: None })
        } else {
            post[i] == pre[i]
        }
}

/// Why no session could be resolved from the request's cookies.
#[derive(Clone, Copy, Debug, PartialEq, Eq, Structural)]
pub enum SessionError {
    /// No session cookie was sent.
    NoCookie,
    /// The cookie's value is not a 64-bit integer.
    BadCookie,
    /// No session row has the id the cookie carries.
    UnknownSession,
}

/// The session id carried by the request: `cookie` is the value of the
/// session cookie if one was sent, already decrypted by the web layer.
pub fn get_id_from_cookies(cookie: Option<&str>) -> (r: Result<i64, SessionError>)
    ensures
        match r {
            Ok(id) => cookie is Some && int_literal_ok(cookie.unwrap()@)
                && id == int_literal_value(cookie.unwrap()@),
            Err(e) => match e {
                SessionError::NoCookie => cookie is None,
                SessionError::BadCookie => cookie is Some
                    && (!int_literal_ok(cookie.unwrap()@)
                        || int_literal_value(cookie.unwrap()@) < i64::MIN
                        || int_literal_value(cookie.unwrap()@) > i64::MAX),
                SessionError::UnknownSession => false,
            },
        },
{
    match cookie {
        Some(value) => match parse_i64(value) {
            Some(id) => Ok(id),
            None => Err(SessionError::BadCookie),
        },
        None => Err(SessionError::NoCookie),
    }
}

/// The session row with the given id, if any.
pub fn get<'a>(store: &'a Store, session_id: i64) -> (r: Option<&'a Session>)
    ensures
        match r {
            Some(s) => s.id == session_id && store.sessions@.contains(*s),
            None => !store.has_session(session_id),
        },
{
    let n = store.sessions.len();
    let mut i: usize = 0;
    while i < n
        invariant
            n == store.sessions@.len(),
            i <= n,
            forall|k: int| 0 <= k < i ==> (#[trigger] store.sessions@[k]).id != session_id,
        decreases n - i,
    {
        if store.sessions[i].id == session_id {
            return Some(&store.sessions[i]);
        }
        i += 1;
    }
    None
}

/// Resolve the request's session: cookie, then row. Never creates one.
pub fn get_from_cookies<'a>(store: &'a Store, cookie: Option<&str>) -> (r: Result<
    &'a Session,
    SessionError,
>)
    ensures
        match r {
            Ok(s) => cookie is Some && int_literal_ok(cookie.unwrap()@)
                && s.id == int_literal_value(cookie.unwrap()@) && store.sessions@.contains(*s),
            Err(e) => match e {
                SessionError::NoCookie => cookie is None,
                SessionError::BadCookie => cookie is Some
                    && (!int_literal_ok(cookie.unwrap()@)
                        || int_literal_value(cookie.unwrap()@) < i64::MIN
                        || int_literal_value(cookie.unwrap()@) > i64::MAX),
                SessionError::UnknownSession => cookie is Some
                    && int_literal_ok(cookie.unwrap()@)
                    && !store.has_session(int_literal_value(cookie.unwrap()@) as i64),
            },
        },
{
    match get_id_from_cookies(cookie) {
        Ok(session_id) => match get(store, session_id) {
            Some(s) => Ok(s),
            None => Err(SessionError::UnknownSession),
        },
        Err(e) => Err(e),
    }
}

} // verus!
