//! Users: lookup, signup, login, sign-out and the profile page.

use vstd::prelude::*;
use crate::common::{Cleaned, is_clean_of};
use crate::sessions::{Session, SessionUpdate};
use crate::store::Store;
use crate::text::{str_eq, int_literal_ok, int_literal_value};

verus! {

pub struct User {
    pub id: i64,
    pub username: String,
    pub email: String,
    pub password_hash: String,
}

/// A user's display fields in their two safe representations.
pub struct CleanUser {
    pub username: Cleaned,
    pub email: Cleaned,
}

impl CleanUser {
    pub open spec fn is_clean_of(self, user: User) -> bool {
        &&& is_clean_of(self.username, user.username@)
        &&& is_clean_of(self.email, user.email@)
    }

    pub fn from_user(user: &User) -> (c: CleanUser)
        ensures
            c.is_clean_of(*user),
    {
        CleanUser { username: Cleaned::new(&user.username), email: Cleaned::new(&user.email) }
    }

    pub fn from_vec(users: &Vec<User>) -> (v: Vec<CleanUser>)
        ensures
            v@.len() == users@.len(),
            forall|i: int| 0 <= i < v@.len() ==> (#[trigger] v@[i]).is_clean_of(users@[i]),
    {
        let mut cleaned: Vec<CleanUser> = Vec::new();
        let n = users.len();
        let mut i: usize = 0;
        while i < n
            invariant
                n == users@.len(),
                i <= n,
                cleaned@.len() == i,
                forall|k: int| 0 <= k < i ==> (#[trigger] cleaned@[k]).is_clean_of(users@[k]),
            decreases n - i,
        {
            cleaned.push(CleanUser::from_user(&users[i]));
            i += 1;
        }
        cleaned
    }
}

/// The credential form submitted to login and to the ownership gates.
pub struct LoginUser {
    pub username: String,
    pub password: String,
}

/// The signup form.
pub struct NewUser {
    pub username: String,
    pub email: String,
    pub password: String,
}

/// Why a user could not be resolved from a session or its cookies.
#[derive(Clone, Copy, Debug, PartialEq, Eq, Structural)]
pub enum UserLookupError {
    /// No session could be resolved from the cookies.
    NoSession,
    /// The session exists but nobody is logged in on it.
    NotLoggedIn,
    /// The session names a user id with no user row.
    UnknownUser,
}

/// The user row with the given id, if any.
pub fn get<'a>(store: &'a Store, user_id: i64) -> (r: Option<&'a User>)
    ensures
        match r {
            Some(u) => u.id == user_id && store.users@.contains(*u),
            None => !store.has_user(user_id),
        },
{
    let n = store.users.len();
    let mut i: usize = 0;
    while i < n
        invariant
            n == store.users@.len(),
            i <= n,
            forall|k: int| 0 <= k < i ==> (#[trigger] store.users@[k]).id != user_id,
        decreases n - i,
    {
        if store.users[i].id == user_id {
            return Some(&store.users[i]);
        }
        i += 1;
    }
    None
}

/// The user row with the given username, if any.
pub fn get_by_username<'a>(store: &'a Store, username: &str) -> (r: Option<&'a User>)
    ensures
        match r {
            Some(u) => u.username@ == username@ && store.users@.contains(*u),
            None => !store.has_user_named(username@),
        },
{
    let n = store.users.len();
    let mut i: usize = 0;
    while i < n
        invariant
            n == store.users@.len(),
            i <= n,
            forall|k: int| 0 <= k < i ==> (#[trigger] store.users@[k]).username@ != username@,
        decreases n - i,
    {
        if str_eq(store.users[i].username.as_str(), username) {
            return Some(&store.users[i]);
        }
        i += 1;
    }
    None
}

/// The user a session is logged in as.
pub fn get_from_session<'a>(store: &'a Store, session: &Session) -> (r: Result<
    &'a User,
    UserLookupError,
>)
    ensures
        match r {
            Ok(u) => session.logged_in_user == Some(u.id) && store.users@.contains(*u),
            Err(e) => match e {
                UserLookupError::NoSession => false,
                UserLookupError::NotLoggedIn => session.logged_in_user is None,
                UserLookupError::UnknownUser => session.logged_in_user is Some
                    && !store.has_user(session.logged_in_user.unwrap()),
            },
        },
{
    match session.logged_in_user {
        Some(logged_in_user) => match get(store, logged_in_user) {
            Some(u) => Ok(u),
            None => Err(UserLookupError::UnknownUser),
        },
        None => Err(UserLookupError::NotLoggedIn),
    }
}

/// The session id the request's cookie carries, when it parses.
pub open spec fn cookie_session_id(cookie: Option<&str>) -> Option<i64> {
    if cookie is Some && int_literal_ok(cookie.unwrap()@) && i64::MIN
        <= int_literal_value(cookie.unwrap()@) <= i64::MAX {
        Some(int_literal_value(cookie.unwrap()@) as i64)
    } else {
        None
    }
}

/// The user logged in on the session the request's cookies name.
pub fn get_from_cookies<'a>(store: &'a Store, cookie: Option<&str>) -> (r: Result<
    &'a User,
    UserLookupError,
>)
    requires
        store.wf(),
    ensures
        match r {
            Ok(u) => store.users@.contains(*u) && exists|s: Session|
                #[trigger] store.sessions@.contains(s)
                    && Some(s.id) == cookie_session_id(cookie)
                    && s.logged_in_user == Some(u.id),
            Err(e) => match e {
                UserLookupError::NoSession => cookie_session_id(cookie) is None
                    || !store.has_session(cookie_session_id(cookie).unwrap()),
                UserLookupError::NotLoggedIn => exists|s: Session|
                    #[trigger] store.sessions@.contains(s)
                        && Some(s.id) == cookie_session_id(cookie)
                        && s.logged_in_user is None,
                UserLookupError::UnknownUser => exists|s: Session|
                    #[trigger] store.sessions@.contains(s)
                        && Some(s.id) == cookie_session_id(cookie)
                        && s.logged_in_user is Some
                        && !store.has_user(s.logged_in_user.unwrap()),
            },
        },
        r is Err ==> !(exists|u: User|
            #[trigger] store.users@.contains(u) && signed_in_as(*store, cookie, u)),
{
    match crate::sessions::get_from_cookies(store, cookie) {
        Ok(session) => match session.logged_in_user {
            Some(logged_in_user) => match get(store, logged_in_user) {
                Some(u) => Ok(u),
                None => {
                    proof {
                        lemma_nobody_signed_in(*store, cookie, *session);
                    }
                    Err(UserLookupError::UnknownUser)
                },
            },
            None => {
                proof {
                    lemma_nobody_signed_in(*store, cookie, *session);
                }
                Err(UserLookupError::NotLoggedIn)
            },
        },
        Err(_) => {
            proof {
                assert forall|u: User|
                    !(#[trigger] store.users@.contains(u) && signed_in_as(*store, cookie, u)) by {
                    if store.users@.contains(u) && signed_in_as(*store, cookie, u) {
                        let s = choose|s: Session|
                            #[trigger] store.sessions@.contains(s) && Some(s.id)
                                == cookie_session_id(cookie) && s.logged_in_user == Some(u.id);
                        let j = choose|j: int|
                            0 <= j < store.sessions@.len() && store.sessions@[j] == s;
                        assert(store.has_session(s.id));
                    }
                }
            }
            Err(UserLookupError::NoSession)
        },
    }
}

/// When the cookie's session is not logged in, or names a user with no
/// row, nobody is signed in on this request.
pub(crate) proof fn lemma_nobody_signed_in(store: Store, cookie: Option<&str>, sess: Session)
    requires
        store.wf(),
        store.sessions@.contains(sess),
        Some(sess.id) == cookie_session_id(cookie),
        sess.logged_in_user is None || !store.has_user(sess.logged_in_user.unwrap()),
    ensures
        !(exists|u: User| #[trigger] store.users@.contains(u) && signed_in_as(store, cookie, u)),
{
    assert forall|u: User|
        !(#[trigger] store.users@.contains(u) && signed_in_as(store, cookie, u)) by {
        if store.users@.contains(u) && signed_in_as(store, cookie, u) {
            let s = choose|s: Session|
                #[trigger] store.sessions@.contains(s) && Some(s.id) == cookie_session_id(cookie)
                    && s.logged_in_user == Some(u.id);
            let j = choose|j: int| 0 <= j < store.sessions@.len() && store.sessions@[j] == s;
            let k = choose|k: int| 0 <= k < store.sessions@.len() && store.sessions@[k] == sess;
            // session ids are unique, so the cookie's session is `sess` itself
            assert(j == k);
            let i = choose|i: int| 0 <= i < store.users@.len() && store.users@[i] == u;
            assert(store.has_user(u.id));
        }
    }
}

/// Every user row.
pub fn get_all<'a>(store: &'a Store) -> (r: &'a Vec<User>)
    ensures
        r@ == store.users@,
{
    &store.users
}

// ------------------------------------------------------------------
// E-mail validation
// ------------------------------------------------------------------

/// Whether the e-mail format validator accepts a string: the HTML5
/// e-mail shape, a function of the string alone.
pub uninterp spec fn email_ok(s: Seq<char>) -> bool;

/// Relies on `validator::ValidateEmail::validate_email` for `&str`: the
/// HTML5 e-mail format check, deterministic in the string. An empty
/// string is always rejected.
#[verifier::external_body]
pub(crate) fn validate_email(email: &str) -> (r: bool)
    ensures
        r == email_ok(email@),
        email@.len() == 0 ==> !r,
{
    validator::ValidateEmail::validate_email(&email)
}

// ------------------------------------------------------------------
// Credential and session checks shared by every gate
// ------------------------------------------------------------------

/// The cookie names a session on which this user is logged in.
pub open spec fn signed_in_as(store: Store, cookie: Option<&str>, u: User) -> bool {
    exists|s: Session|
        #[trigger] store.sessions@.contains(s) && Some(s.id) == cookie_session_id(cookie)
            && s.logged_in_user == Some(u.id)
}

/// Re-authenticate from submitted credentials: the user whose username
/// matches and whose stored hash accepts the password.
pub fn authenticate<'a>(store: &'a Store, login_user: &LoginUser) -> (r: Option<&'a User>)
    ensures
        match r {
            Some(u) => u.username@ == login_user.username@ && crate::crypt_eq::crypt_verifies(
                login_user.password@,
                u.password_hash@,
            ) && store.users@.contains(*u),
            None => !store.authenticates(login_user.username@, login_user.password@),
        },
{
    let n = store.users.len();
    let mut i: usize = 0;
    while i < n
        invariant
            n == store.users@.len(),
            i <= n,
            forall|k: int|
                0 <= k < i ==> !((#[trigger] store.users@[k]).username@ == login_user.username@
                    && crate::crypt_eq::crypt_verifies(
                    login_user.password@,
                    store.users@[k].password_hash@,
                )),
        decreases n - i,
    {
        if str_eq(store.users[i].username.as_str(), login_user.username.as_str())
            && crate::crypt_eq::verify_password(
            login_user.password.as_str(),
            store.users[i].password_hash.as_str(),
        ) {
            return Some(&store.users[i]);
        }
        i += 1;
    }
    None
}

// ------------------------------------------------------------------
// Attaching a user to the request's session
// ------------------------------------------------------------------

/// How a successful login or signup reached the session table: either the
/// cookie's session row was updated, or a fresh row was created for a new
/// cookie.
pub open spec fn session_attached(
    pre: Store,
    post: Store,
    cookie: Option<&str>,
    uid: i64,
    su: SessionUpdate,
) -> bool {
    match su {
        SessionUpdate::Updated(sid) => {
            &&& cookie_session_id(cookie) == Some(sid)
            &&& post.next_session_id == pre.next_session_id
            &&& crate::sessions::session_rows_updated(pre.sessions@, post.sessions@, sid, uid)
        },
        SessionUpdate::Created(sid) => {
            &&& cookie is None
            &&& sid == pre.next_session_id
            &&& post.next_session_id == pre.next_session_id + 1
            &&& post.sessions@ == pre.sessions@.push(
                Session { id: sid, logged_in_user: Some(uid) },
            )
        },
    }
}

/// Record `user_id` as logged in on the request's session: update the row
/// the cookie names, or create a new row (whose id the caller must set as
/// a new cookie) when no cookie was sent. An unparsable cookie is an
/// error; a cookie naming no row is accepted and changes nothing, as the
/// storage layer's row update touches zero rows.
pub fn update_session_logged_in_user(store: &mut Store, cookie: Option<&str>, user_id: i64) -> (r:
    Result<SessionUpdate, ()>)
    requires
        old(store).wf(),
        old(store).next_session_id < i64::MAX,
    ensures
        final(store).users@ == old(store).users@,
        final(store).apps@ == old(store).apps@,
        final(store).repos@ == old(store).repos@,
        final(store).next_user_id == old(store).next_user_id,
        final(store).next_app_id == old(store).next_app_id,
        final(store).next_repo_id == old(store).next_repo_id,
        final(store).wf(),
        match r {
            Ok(su) => session_attached(*old(store), *final(store), cookie, user_id, su),
            Err(()) => cookie is Some && cookie_session_id(cookie) is None && *final(store)
                == *old(store),
        },
{
    match cookie {
        Some(value) => match crate::text::parse_i64(value) {
            Some(session_id) => {
                let n = store.sessions.len();
                let mut i: usize = 0;
                while i < n
                    invariant
                        n == store.sessions@.len(),
                        i <= n,
                        old(store).wf(),
                        cookie_session_id(cookie) == Some(session_id),
                        *store == *old(store),
                        forall|k: int|
                            0 <= k < i ==> (#[trigger] store.sessions@[k]).id != session_id,
                    decreases n - i,
                {
                    if store.sessions[i].id == session_id {
                        let row = &mut store.sessions[i];
                        row.logged_in_user = Some(user_id);
                        proof {
                            assert(store.sessions@ =~= old(store).sessions@.update(
                                i as int,
                                Session { id: session_id, logged_in_user: Some(user_id) },
                            ));
                            assert forall|k: int|
                                0 <= k < old(store).sessions@.len() implies if (
                            #[trigger] old(store).sessions@[k]).id == session_id {
                                store.sessions@[k] == (Session {
                                    id: old(store).sessions@[k].id,
                                    logged_in_user: Some(user_id),
                                })
                            } else {
                                store.sessions@[k] == old(store).sessions@[k]
                            } by {
                                if old(store).sessions@[k].id == session_id && k != i {
                                    // ids are unique, so only row i carries this id
                                    assert(false);
                                }
                            }
                        }
                        return Ok(SessionUpdate::Updated(session_id));
                    }
                    i += 1;
                }
                Ok(SessionUpdate::Updated(session_id))
            },
            None => Err(()),
        },
        None => {
            let sid = store.next_session_id;
            store.sessions.push(Session { id: sid, logged_in_user: Some(user_id) });
            store.next_session_id = sid + 1;
            proof {
                assert forall|i: int, j: int|
                    0 <= i < j < store.sessions@.len() implies (
                #[trigger] store.sessions@[i]).id != (#[trigger] store.sessions@[j]).id by {
                    if j == store.sessions@.len() - 1 {
                        assert(store.sessions@[i] == old(store).sessions@[i]);
                        assert(old(store).sessions@[i].id < sid);
                    }
                }
            }
            Ok(SessionUpdate::Created(sid))
        },
    }
}

/// The three-way outcome of an ownership gate: re-authentication by
/// submitted credentials, resource lookup, then the owner comparison.
#[derive(Clone, Copy, Debug, PartialEq, Eq, Structural)]
pub enum OwnershipError {
    /// The submitted credentials authenticate nobody.
    AuthFailed,
    /// No resource carries the requested title.
    NotFound,
    /// The authenticated user does not own the resource.
    NotOwner,
}

/// Why a login failed.
#[derive(Clone, Copy, Debug, PartialEq, Eq, Structural)]
pub enum LoginError {
    /// No user carries this username with a matching password.
    BadCredentials,
    /// The user authenticated, but the session cookie sent along could not
    /// be read.
    SessionCookie,
}

/// Log in with submitted credentials: look the user up by username and
/// one-way password comparison, then attach them to the request's session.
pub fn submit_login(store: &mut Store, cookie: Option<&str>, login_user: &LoginUser) -> (r: Result<
    SessionUpdate,
    LoginError,
>)
    requires
        old(store).wf(),
        old(store).next_session_id < i64::MAX,
    ensures
        final(store).users@ == old(store).users@,
        final(store).apps@ == old(store).apps@,
        final(store).repos@ == old(store).repos@,
        final(store).next_user_id == old(store).next_user_id,
        final(store).next_app_id == old(store).next_app_id,
        final(store).next_repo_id == old(store).next_repo_id,
        final(store).wf(),
        match r {
            Ok(su) => exists|i: int|
                0 <= i < old(store).users@.len() && (#[trigger] old(store).users@[i]).username@
                    == login_user.username@ && crate::crypt_eq::crypt_verifies(
                    login_user.password@,
                    old(store).users@[i].password_hash@,
                ) && session_attached(
                    *old(store),
                    *final(store),
                    cookie,
                    old(store).users@[i].id,
                    su,
                ),
            Err(LoginError::BadCredentials) => !old(store).authenticates(
                login_user.username@,
                login_user.password@,
            ) && *final(store) == *old(store),
            Err(LoginError::SessionCookie) => old(store).authenticates(
                login_user.username@,
                login_user.password@,
            ) && cookie is Some && cookie_session_id(cookie) is None && *final(store) == *old(
                store,
            ),
        },
{
    let user_id: i64;
    match authenticate(store, login_user) {
        Some(user) => {
            user_id = user.id;
            proof {
                let u = *user;
                assert(old(store).users@.contains(u));
                let i = choose|i: int|
                    0 <= i < old(store).users@.len() && old(store).users@[i] == u;
                assert(old(store).users@[i].username@ == login_user.username@);
            }
        },
        None => {
            return Err(LoginError::BadCredentials);
        },
    }
    match update_session_logged_in_user(store, cookie, user_id) {
        Ok(su) => Ok(su),
        Err(()) => Err(LoginError::SessionCookie),
    }
}

/// Why a sign-out failed.
#[derive(Clone, Copy, Debug, PartialEq, Eq, Structural)]
pub enum SignoutError {
    /// The cookie's session exists but nobody is logged in on it.
    NotSignedIn,
    /// No session could be resolved from the cookies at all.
    NoSession,
}

/// Sign out: clear `logged_in_user` on the cookie's session. The row and
/// the cookie stay as they are, ready for a later login to reuse.
pub fn signout(store: &mut Store, cookie: Option<&str>) -> (r: Result<(), SignoutError>)
    requires
        old(store).wf(),
    ensures
        final(store).users@ == old(store).users@,
        final(store).apps@ == old(store).apps@,
        final(store).repos@ == old(store).repos@,
        final(store).next_user_id == old(store).next_user_id,
        final(store).next_session_id == old(store).next_session_id,
        final(store).next_app_id == old(store).next_app_id,
        final(store).next_repo_id == old(store).next_repo_id,
        final(store).wf(),
        match r {
            Ok(()) => exists|i: int|
                0 <= i < old(store).sessions@.len() && Some(
                    (#[trigger] old(store).sessions@[i]).id,
                ) == cookie_session_id(cookie) && old(store).sessions@[i].logged_in_user is Some
                    && crate::sessions::session_rows_cleared(
                    old(store).sessions@,
                    final(store).sessions@,
                    old(store).sessions@[i].id,
                ),
            Err(SignoutError::NotSignedIn) => *final(store) == *old(store) && exists|i: int|
                0 <= i < old(store).sessions@.len() && Some(
                    (#[trigger] old(store).sessions@[i]).id,
                ) == cookie_session_id(cookie) && old(store).sessions@[i].logged_in_user is None,
            Err(SignoutError::NoSession) => *final(store) == *old(store) && (cookie_session_id(
                cookie,
            ) is None || !old(store).has_session(cookie_session_id(cookie).unwrap())),
        },
{
    let sid: i64;
    match crate::sessions::get_id_from_cookies(cookie) {
        Ok(id) => {
            sid = id;
        },
        Err(_) => {
            return Err(SignoutError::NoSession);
        },
    }
    let n = store.sessions.len();
    let mut i: usize = 0;
    while i < n
        invariant
            n == store.sessions@.len(),
            i <= n,
            old(store).wf(),
            cookie_session_id(cookie) == Some(sid),
            *store == *old(store),
            forall|k: int| 0 <= k < i ==> (#[trigger] store.sessions@[k]).id != sid,
        decreases n - i,
    {
        if store.sessions[i].id == sid {
            if store.sessions[i].logged_in_user.is_some() {
                let row = &mut store.sessions[i];
                row.logged_in_user = None;
                proof {
                    assert(store.sessions@ =~= old(store).sessions@.update(
                        i as int,
                        Session { id: sid, logged_in_user: None },
                    ));
                    assert forall|k: int|
                        0 <= k < old(store).sessions@.len() implies if (
                    #[trigger] old(store).sessions@[k]).id == sid {
                        store.sessions@[k] == (Session {
                            id: old(store).sessions@[k].id,
                            logged_in_user: None,
                        })
                    } else {
                        store.sessions@[k] == old(store).sessions@[k]
                    } by {
                        if old(store).sessions@[k].id == sid && k != i {
                            assert(false);
                        }
                    }
                }
                return Ok(());
            } else {
                return Err(SignoutError::NotSignedIn);
            }
        }
        i += 1;
    }
    Err(SignoutError::NoSession)
}

// ------------------------------------------------------------------
// Signup
// ------------------------------------------------------------------

/// A valid username: the title format, at most 24 bytes.
pub open spec fn username_ok(u: Seq<char>) -> bool {
    crate::common::title_ok(u) && crate::common::byte_len(u) <= 24
}

/// A valid password: between 1 and 72 bytes.
pub open spec fn password_len_ok(p: Seq<char>) -> bool {
    1 <= crate::common::byte_len(p) <= 72
}

/// All three signup fields pass validation.
pub open spec fn signup_fields_ok(u: Seq<char>, e: Seq<char>, p: Seq<char>) -> bool {
    username_ok(u) && email_ok(e) && password_len_ok(p)
}

/// The user table grew by exactly one row: the new user, under the next
/// id, carrying the given password hash.
pub open spec fn user_stored(
    pre: Store,
    post: Store,
    username: Seq<char>,
    email: Seq<char>,
    hash: Seq<char>,
) -> bool {
    &&& post.users@.len() == pre.users@.len() + 1
    &&& forall|i: int| 0 <= i < pre.users@.len() ==> post.users@[i] == pre.users@[i]
    &&& post.users@.last().id == pre.next_user_id
    &&& post.users@.last().username@ == username
    &&& post.users@.last().email@ == email
    &&& post.users@.last().password_hash@ == hash
    &&& post.next_user_id == pre.next_user_id + 1
}

/// The user table grew by exactly one row: the new user, under the next
/// id, with a password hash that accepts the submitted password.
pub open spec fn user_inserted(
    pre: Store,
    post: Store,
    username: Seq<char>,
    email: Seq<char>,
    password: Seq<char>,
) -> bool {
    &&& post.users@.len() == pre.users@.len() + 1
    &&& forall|i: int| 0 <= i < pre.users@.len() ==> post.users@[i] == pre.users@[i]
    &&& post.users@.last().id == pre.next_user_id
    &&& post.users@.last().username@ == username
    &&& post.users@.last().email@ == email
    &&& crate::crypt_eq::crypt_verifies(password, post.users@.last().password_hash@)
    &&& post.next_user_id == pre.next_user_id + 1
}

/// Why a signup failed.
#[derive(Clone, Copy, Debug, PartialEq, Eq, Structural)]
pub enum SignupError {
    /// The username fails the title format or is over 24 bytes.
    InvalidUsername,
    /// The e-mail address fails format validation.
    InvalidEmail,
    /// The password is empty or over 72 bytes.
    InvalidPassword,
    /// Another user already carries this username.
    DuplicateUsername,
    /// Another user already carries this e-mail address.
    DuplicateEmail,
    /// The hashing primitive failed; nothing was stored.
    HashFailure,
    /// The user was created, but the session cookie sent along could not
    /// be read, so no session carries them yet.
    SessionCookie,
}

/// What a successful signup produced.
#[derive(Clone, Copy, Debug, PartialEq, Eq, Structural)]
pub struct SignupOutcome {
    pub user_id: i64,
    pub session: SessionUpdate,
}

/// The user row with the given e-mail address, if any.
fn find_by_email<'a>(store: &'a Store, email: &str) -> (r: Option<&'a User>)
    ensures
        match r {
            Some(u) => u.email@ == email@ && store.users@.contains(*u),
            None => !store.has_user_with_email(email@),
        },
{
    let n = store.users.len();
    let mut i: usize = 0;
    while i < n
        invariant
            n == store.users@.len(),
            i <= n,
            forall|k: int| 0 <= k < i ==> (#[trigger] store.users@[k]).email@ != email@,
        decreases n - i,
    {
        if str_eq(store.users[i].email.as_str(), email) {
            return Some(&store.users[i]);
        }
        i += 1;
    }
    None
}

/// Sign a new user up: validate the three fields in order, reject
/// duplicates by column, store the user with a freshly salted hash of the
/// password, and attach them to the request's session as a login would.
pub fn submit_signup(store: &mut Store, cookie: Option<&str>, new_user: NewUser) -> (r: Result<
    SignupOutcome,
    SignupError,
>)
    requires
        old(store).wf(),
        old(store).next_user_id < i64::MAX,
        old(store).next_session_id < i64::MAX,
    ensures
        final(store).apps@ == old(store).apps@,
        final(store).repos@ == old(store).repos@,
        final(store).next_app_id == old(store).next_app_id,
        final(store).next_repo_id == old(store).next_repo_id,
        final(store).wf(),
        match r {
            Ok(out) => {
                &&& signup_fields_ok(new_user.username@, new_user.email@, new_user.password@)
                &&& !old(store).has_user_named(new_user.username@)
                &&& !old(store).has_user_with_email(new_user.email@)
                &&& user_inserted(
                    *old(store),
                    *final(store),
                    new_user.username@,
                    new_user.email@,
                    new_user.password@,
                )
                &&& out.user_id == old(store).next_user_id
                &&& session_attached(
                    *old(store),
                    *final(store),
                    cookie,
                    out.user_id,
                    out.session,
                )
            },
            Err(SignupError::InvalidUsername) => !username_ok(new_user.username@) && *final(store)
                == *old(store),
            Err(SignupError::InvalidEmail) => username_ok(new_user.username@) && !email_ok(
                new_user.email@,
            ) && *final(store) == *old(store),
            Err(SignupError::InvalidPassword) => username_ok(new_user.username@) && email_ok(
                new_user.email@,
            ) && !password_len_ok(new_user.password@) && *final(store) == *old(store),
            Err(SignupError::DuplicateUsername) => signup_fields_ok(
                new_user.username@,
                new_user.email@,
                new_user.password@,
            ) && old(store).has_user_named(new_user.username@) && *final(store) == *old(store),
            Err(SignupError::DuplicateEmail) => signup_fields_ok(
                new_user.username@,
                new_user.email@,
                new_user.password@,
            ) && !old(store).has_user_named(new_user.username@) && old(store).has_user_with_email(
                new_user.email@,
            ) && *final(store) == *old(store),
            Err(SignupError::HashFailure) => signup_fields_ok(
                new_user.username@,
                new_user.email@,
                new_user.password@,
            ) && *final(store) == *old(store),
            Err(SignupError::SessionCookie) => {
                &&& signup_fields_ok(new_user.username@, new_user.email@, new_user.password@)
                &&& !old(store).has_user_named(new_user.username@)
                &&& !old(store).has_user_with_email(new_user.email@)
                &&& user_inserted(
                    *old(store),
                    *final(store),
                    new_user.username@,
                    new_user.email@,
                    new_user.password@,
                )
                &&& final(store).sessions@ == old(store).sessions@
                &&& final(store).next_session_id == old(store).next_session_id
                &&& cookie is Some
                &&& cookie_session_id(cookie) is None
            },
        },
{
    if !(crate::common::validate_title(new_user.username.as_str()) && new_user.username.as_str().len()
        <= 24) {
        return Err(SignupError::InvalidUsername);
    }
    if !validate_email(new_user.email.as_str()) {
        return Err(SignupError::InvalidEmail);
    }
    let plen = new_user.password.as_str().len();
    if !(plen >= 1 && plen <= 72) {
        return Err(SignupError::InvalidPassword);
    }
    let hash: String;
    match crate::crypt_eq::hash_password(new_user.password.as_str()) {
        Some(h) => {
            hash = h;
        },
        None => {
            return Err(SignupError::HashFailure);
        },
    }
    let ghost password = new_user.password@;
    let ghost hash_view = hash@;
    let r = register_user(store, cookie, new_user, hash);
    proof {
        assert(crate::crypt_eq::crypt_verifies(password, hash_view));
    }
    r
}

/// Store a validated signup under an already-computed password hash and
/// attach the new user to the request's session. Unlike [`submit_signup`]
/// this decides nothing by an outside call: every outcome is pinned by
/// the arguments.
pub fn register_user(
    store: &mut Store,
    cookie: Option<&str>,
    new_user: NewUser,
    password_hash: String,
) -> (r: Result<SignupOutcome, SignupError>)
    requires
        old(store).wf(),
        old(store).next_user_id < i64::MAX,
        old(store).next_session_id < i64::MAX,
    ensures
        final(store).apps@ == old(store).apps@,
        final(store).repos@ == old(store).repos@,
        final(store).next_app_id == old(store).next_app_id,
        final(store).next_repo_id == old(store).next_repo_id,
        final(store).wf(),
        match r {
            Ok(out) => {
                &&& signup_fields_ok(new_user.username@, new_user.email@, new_user.password@)
                &&& !old(store).has_user_named(new_user.username@)
                &&& !old(store).has_user_with_email(new_user.email@)
                &&& user_stored(
                    *old(store),
                    *final(store),
                    new_user.username@,
                    new_user.email@,
                    password_hash@,
                )
                &&& out.user_id == old(store).next_user_id
                &&& session_attached(
                    *old(store),
                    *final(store),
                    cookie,
                    out.user_id,
                    out.session,
                )
            },
            Err(SignupError::InvalidUsername) => !username_ok(new_user.username@) && *final(store)
                == *old(store),
            Err(SignupError::InvalidEmail) => username_ok(new_user.username@) && !email_ok(
                new_user.email@,
            ) && *final(store) == *old(store),
            Err(SignupError::InvalidPassword) => username_ok(new_user.username@) && email_ok(
                new_user.email@,
            ) && !password_len_ok(new_user.password@) && *final(store) == *old(store),
            Err(SignupError::DuplicateUsername) => signup_fields_ok(
                new_user.username@,
                new_user.email@,
                new_user.password@,
            ) && old(store).has_user_named(new_user.username@) && *final(store) == *old(store),
            Err(SignupError::DuplicateEmail) => signup_fields_ok(
                new_user.username@,
                new_user.email@,
                new_user.password@,
            ) && !old(store).has_user_named(new_user.username@) && old(store).has_user_with_email(
                new_user.email@,
            ) && *final(store) == *old(store),
            Err(SignupError::HashFailure) => false,
            Err(SignupError::SessionCookie) => {
                &&& signup_fields_ok(new_user.username@, new_user.email@, new_user.password@)
                &&& !old(store).has_user_named(new_user.username@)
                &&& !old(store).has_user_with_email(new_user.email@)
                &&& user_stored(
                    *old(store),
                    *final(store),
                    new_user.username@,
                    new_user.email@,
                    password_hash@,
                )
                &&& final(store).sessions@ == old(store).sessions@
                &&& final(store).next_session_id == old(store).next_session_id
                &&& cookie is Some
                &&& cookie_session_id(cookie) is None
            },
        },
{
    if !(crate::common::validate_title(new_user.username.as_str()) && new_user.username.as_str().len()
        <= 24) {
        return Err(SignupError::InvalidUsername);
    }
    if !validate_email(new_user.email.as_str()) {
        return Err(SignupError::InvalidEmail);
    }
    let plen = new_user.password.as_str().len();
    if !(plen >= 1 && plen <= 72) {
        return Err(SignupError::InvalidPassword);
    }
    match get_by_username(store, new_user.username.as_str()) {
        Some(_) => {
            return Err(SignupError::DuplicateUsername);
        },
        None => {},
    }
    match find_by_email(store, new_user.email.as_str()) {
        Some(_) => {
            return Err(SignupError::DuplicateEmail);
        },
        None => {},
    }
    let uid = store.next_user_id;
    store.users.push(
        User {
            id: uid,
            username: new_user.username,
            email: new_user.email,
            password_hash: password_hash,
        },
    );
    store.next_user_id = uid + 1;
    proof {
        assert forall|i: int, j: int| 0 <= i < j < store.users@.len() implies {
            &&& (#[trigger] store.users@[i]).id != (#[trigger] store.users@[j]).id
            &&& store.users@[i].username@ != store.users@[j].username@
            &&& store.users@[i].email@ != store.users@[j].email@
        } by {
            if j == store.users@.len() - 1 {
                assert(store.users@[i] == old(store).users@[i]);
                assert(old(store).users@[i].id < uid);
            }
        }
    }
    match update_session_logged_in_user(store, cookie, uid) {
        Ok(su) => Ok(SignupOutcome { user_id: uid, session: su }),
        Err(()) => Err(SignupError::SessionCookie),
    }
}

// ------------------------------------------------------------------
// Pages
// ------------------------------------------------------------------

/// The login form page: the shared context, and the error message and
/// attempted username carried over as query parameters, escaped for
/// display.
pub struct LoginPage {
    pub context: crate::common::PageContext,
    pub error: Option<String>,
    pub username: Option<String>,
}

pub fn login(
    error: Option<String>,
    username: Option<String>,
    store: &Store,
    cookie: Option<&str>,
) -> (p: LoginPage)
    requires
        store.wf(),
    ensures
        crate::common::context_for(*store, cookie, p.context),
        match error {
            Some(e) => p.error is Some && p.error.unwrap()@ == crate::common::html_escaped(e@),
            None => p.error is None,
        },
        match username {
            Some(u) => p.username is Some && p.username.unwrap()@ == crate::common::html_escaped(
                u@,
            ),
            None => p.username is None,
        },
{
    let (context, _, _) = crate::common::signed_in_context(store, cookie);
    let clean_error = match error {
        Some(e) => Some(crate::common::clean_text(e.as_str())),
        None => None,
    };
    let clean_username = match username {
        Some(u) => Some(crate::common::clean_text(u.as_str())),
        None => None,
    };
    LoginPage { context, error: clean_error, username: clean_username }
}

/// The signup form page: as the login page, with the attempted e-mail
/// address carried over too.
pub struct SignupPage {
    pub context: crate::common::PageContext,
    pub error: Option<String>,
    pub username: Option<String>,
    pub email: Option<String>,
}

pub fn signup(
    error: Option<String>,
    username: Option<String>,
    email: Option<String>,
    store: &Store,
    cookie: Option<&str>,
) -> (p: SignupPage)
    requires
        store.wf(),
    ensures
        crate::common::context_for(*store, cookie, p.context),
        match error {
            Some(e) => p.error is Some && p.error.unwrap()@ == crate::common::html_escaped(e@),
            None => p.error is None,
        },
        match username {
            Some(u) => p.username is Some && p.username.unwrap()@ == crate::common::html_escaped(
                u@,
            ),
            None => p.username is None,
        },
        match email {
            Some(e) => p.email is Some && p.email.unwrap()@ == crate::common::html_escaped(e@),
            None => p.email is None,
        },
{
    let (context, _, _) = crate::common::signed_in_context(store, cookie);
    let clean_error = match error {
        Some(e) => Some(crate::common::clean_text(e.as_str())),
        None => None,
    };
    let clean_username = match username {
        Some(u) => Some(crate::common::clean_text(u.as_str())),
        None => None,
    };
    let clean_email = match email {
        Some(e) => Some(crate::common::clean_text(e.as_str())),
        None => None,
    };
    SignupPage { context, error: clean_error, username: clean_username, email: clean_email }
}

/// The public profile page for a username; an error (a 404) when no user
/// carries it.
pub fn user_profile<'a>(store: &'a Store, username: &str, cookie: Option<&str>) -> (r: Result<
    (crate::common::PageContext, &'a User, CleanUser),
    (),
>)
    requires
        store.wf(),
    ensures
        match r {
            Ok(page) => crate::common::context_for(*store, cookie, page.0) && page.1.username@
                == username@ && store.users@.contains(*page.1) && page.2.is_clean_of(*page.1),
            Err(()) => !store.has_user_named(username@),
        },
{
    let (context, _, _) = crate::common::signed_in_context(store, cookie);
    match get_by_username(store, username) {
        Some(user) => {
            let cleaned = CleanUser::from_user(user);
            Ok((context, user, cleaned))
        },
        None => Err(()),
    }
}

// ------------------------------------------------------------------
// Laws
// ------------------------------------------------------------------

/// A user a signup just created authenticates with the credentials it was
/// created from, and no other user does: a subsequent login with them
/// succeeds, and the session it attaches carries the new user's id.
pub proof fn lemma_signup_then_login(
    pre: Store,
    post: Store,
    username: Seq<char>,
    email: Seq<char>,
    password: Seq<char>,
)
    requires
        !pre.has_user_named(username),
        user_inserted(pre, post, username, email, password),
    ensures
        post.authenticates(username, password),
        forall|i: int|
            0 <= i < post.users@.len() && (#[trigger] post.users@[i]).username@ == username
                && crate::crypt_eq::crypt_verifies(password, post.users@[i].password_hash@)
                ==> post.users@[i].id == pre.next_user_id,
{
    let w = post.users@.len() - 1;
    assert(post.users@[w].username@ == username);
    assert(crate::crypt_eq::crypt_verifies(password, post.users@[w].password_hash@));
    assert forall|i: int|
        0 <= i < post.users@.len() && (#[trigger] post.users@[i]).username@ == username
            && crate::crypt_eq::crypt_verifies(password, post.users@[i].password_hash@)
            implies post.users@[i].id == pre.next_user_id by {
        if i < pre.users@.len() {
            assert(pre.users@[i].username@ == username);
            assert(false);
        }
    }
}

/// Signing out clears who is logged in but deletes nothing: the session
/// row survives, and a later login through the same cookie reattaches a
/// user to the very same row.
pub proof fn lemma_signout_keeps_session(pre: Store, mid: Store, post: Store, sid: i64, uid: i64)
    requires
        pre.has_session(sid),
        crate::sessions::session_rows_cleared(pre.sessions@, mid.sessions@, sid),
        crate::sessions::session_rows_updated(mid.sessions@, post.sessions@, sid, uid),
    ensures
        mid.has_session(sid),
        forall|i: int|
            0 <= i < mid.sessions@.len() && (#[trigger] mid.sessions@[i]).id == sid
                ==> mid.sessions@[i].logged_in_user is None,
        exists|i: int|
            0 <= i < post.sessions@.len() && (#[trigger] post.sessions@[i]).id == sid
                && post.sessions@[i].logged_in_user == Some(uid),
{
    let w = choose|i: int| 0 <= i < pre.sessions@.len() && (#[trigger] pre.sessions@[i]).id == sid;
    assert(mid.sessions@[w] == (Session { id: sid, logged_in_user: None }));
    assert(post.sessions@[w] == (Session { id: sid, logged_in_user: Some(uid) }));
    assert forall|i: int|
        0 <= i < mid.sessions@.len() && (#[trigger] mid.sessions@[i]).id == sid
            implies mid.sessions@[i].logged_in_user is None by {
        if pre.sessions@[i].id != sid {
            assert(mid.sessions@[i] == pre.sessions@[i]);
        }
    }
}

} // verus!
