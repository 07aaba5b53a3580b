//! The durable state of the application: users, sessions, apps and repos,
//! with the uniqueness invariants the storage layer maintains (unique ids
//! everywhere, unique usernames and e-mail addresses, unique titles).

use vstd::prelude::*;
use crate::apps::App;
use crate::crypt_eq::crypt_verifies;
use crate::repos::Repo;
use crate::sessions::Session;
use crate::users::User;

verus! {

pub struct Store {
    pub users: Vec<User>,
    pub sessions: Vec<Session>,
    pub apps: Vec<App>,
    pub repos: Vec<Repo>,
    pub next_user_id: i64,
    pub next_session_id: i64,
    pub next_app_id: i64,
    pub next_repo_id: i64,
}

impl Store {
    pub open spec fn users_wf(self) -> bool {
        &&& forall|i: int, j: int|
            0 <= i < j < self.users@.len() ==> {
                &&& (#[trigger] self.users@[i]).id != (#[trigger] self.users@[j]).id
                &&& self.users@[i].username@ != self.users@[j].username@
                &&& self.users@[i].email@ != self.users@[j].email@
            }
        &&& forall|i: int|
            0 <= i < self.users@.len() ==> (#[trigger] self.users@[i]).id < self.next_user_id
    }

    pub open spec fn sessions_wf(self) -> bool {
        &&& forall|i: int, j: int|
            0 <= i < j < self.sessions@.len() ==> (#[trigger] self.sessions@[i]).id != (
            #[trigger] self.sessions@[j]).id
        &&& forall|i: int|
            0 <= i < self.sessions@.len() ==> (#[trigger] self.sessions@[i]).id
                < self.next_session_id
    }

    pub open spec fn apps_wf(self) -> bool {
        &&& forall|i: int, j: int|
            0 <= i < j < self.apps@.len() ==> {
                &&& (#[trigger] self.apps@[i]).id != (#[trigger] self.apps@[j]).id
                &&& self.apps@[i].title@ != self.apps@[j].title@
            }
        &&& forall|i: int|
            0 <= i < self.apps@.len() ==> (#[trigger] self.apps@[i]).id < self.next_app_id
    }

    pub open spec fn repos_wf(self) -> bool {
        &&& forall|i: int, j: int|
            0 <= i < j < self.repos@.len() ==> {
                &&& (#[trigger] self.repos@[i]).id != (#[trigger] self.repos@[j]).id
                &&& self.repos@[i].title@ != self.repos@[j].title@
            }
        &&& forall|i: int|
            0 <= i < self.repos@.len() ==> (#[trigger] self.repos@[i]).id < self.next_repo_id
    }

    /// The storage invariant: every table keyed by unique ids, usernames
    /// and e-mail addresses unique among users, titles unique among apps
    /// and among repos, and each id counter ahead of the rows it numbered.
    pub open spec fn wf(self) -> bool {
        &&& self.users_wf()
        &&& self.sessions_wf()
        &&& self.apps_wf()
        &&& self.repos_wf()
    }

    pub open spec fn has_session(self, id: i64) -> bool {
        exists|i: int| 0 <= i < self.sessions@.len() && (#[trigger] self.sessions@[i]).id == id
    }

    pub open spec fn has_user(self, id: i64) -> bool {
        exists|i: int| 0 <= i < self.users@.len() && (#[trigger] self.users@[i]).id == id
    }

    pub open spec fn has_user_named(self, name: Seq<char>) -> bool {
        exists|i: int| 0 <= i < self.users@.len() && (#[trigger] self.users@[i]).username@ == name
    }

    pub open spec fn has_user_with_email(self, email: Seq<char>) -> bool {
        exists|i: int| 0 <= i < self.users@.len() && (#[trigger] self.users@[i]).email@ == email
    }

    pub open spec fn has_app(self, id: i64) -> bool {
        exists|i: int| 0 <= i < self.apps@.len() && (#[trigger] self.apps@[i]).id == id
    }

    pub open spec fn has_app_titled(self, title: Seq<char>) -> bool {
        exists|i: int| 0 <= i < self.apps@.len() && (#[trigger] self.apps@[i]).title@ == title
    }

    pub open spec fn has_repo_titled(self, title: Seq<char>) -> bool {
        exists|i: int| 0 <= i < self.repos@.len() && (#[trigger] self.repos@[i]).title@ == title
    }

    /// Whether the submitted credentials authenticate some stored user:
    /// the row with this username exists and its stored hash matches the
    /// password.
    pub open spec fn authenticates(self, username: Seq<char>, password: Seq<char>) -> bool {
        exists|i: int|
            0 <= i < self.users@.len() && (#[trigger] self.users@[i]).username@ == username
                && crypt_verifies(password, self.users@[i].password_hash@)
    }

    /// An empty store, as a fresh database starts out.
    pub fn new() -> (s: Store)
        ensures
            s.wf(),
            s.users@.len() == 0,
            s.sessions@.len() == 0,
            s.apps@.len() == 0,
            s.repos@.len() == 0,
            s.next_user_id == 1,
            s.next_session_id == 1,
            s.next_app_id == 1,
            s.next_repo_id == 1,
    {
        Store {
            users: Vec::new(),
            sessions: Vec::new(),
            apps: Vec::new(),
            repos: Vec::new(),
            next_user_id: 1,
            next_session_id: 1,
            next_app_id: 1,
            next_repo_id: 1,
        }
    }
}

} // verus!
