//! Repos: named collections of apps owned by a user. A repo's `apps` field
//! is an ordered list of app ids, rewritten whole on every membership
//! change.

use vstd::prelude::*;
use crate::apps::{App, CleanApp};
use crate::common::{Cleaned, is_clean_of};
use crate::store::Store;
use crate::text::str_eq;
use crate::users::{User, LoginUser, CleanUser};

verus! {

pub struct Repo {
    pub id: i64,
    pub owner_id: i64,
    pub title: String,
    pub description: String,
    pub apps: Vec<i64>,
}

/// A sequence with the first occurrence of `x` removed, if there is one.
pub open spec fn remove_first(s: Seq<i64>, x: i64) -> Seq<i64>
    decreases s.len(),
{
    if s.len() == 0 {
        s
    } else if s[0] == x {
        s.drop_first()
    } else {
        seq![s[0]] + remove_first(s.drop_first(), x)
    }
}

impl Repo {
    /// Drop the first occurrence of `app_id` from the member list; an error
    /// if the repo does not contain the app. Only the first occurrence
    /// goes: a duplicate entry survives one removal.
    pub fn remove_app(&mut self, app_id: i64) -> (r: Result<(), ()>)
        ensures
            final(self).id == old(self).id,
            final(self).owner_id == old(self).owner_id,
            final(self).title == old(self).title,
            final(self).description == old(self).description,
            match r {
                Ok(()) => old(self).apps@.contains(app_id) && final(self).apps@ == remove_first(
                    old(self).apps@,
                    app_id,
                ),
                Err(()) => !old(self).apps@.contains(app_id) && final(self).apps@ == old(
                    self,
                ).apps@,
            },
    {
        let n = self.apps.len();
        let mut i: usize = 0;
        while i < n
            invariant
                n == self.apps@.len(),
                i <= n,
                *self == *old(self),
                forall|k: int| 0 <= k < i ==> old(self).apps@[k] != app_id,
            decreases n - i,
        {
            if self.apps[i] == app_id {
                self.apps.remove(i);
                proof {
                    lemma_remove_first_at(old(self).apps@, app_id, i as int);
                }
                return Ok(());
            }
            i += 1;
        }
        Err(())
    }
}

/// Removing the first occurrence at its index is `Seq::remove` there.
pub proof fn lemma_remove_first_at(s: Seq<i64>, x: i64, i: int)
    requires
        0 <= i < s.len(),
        s[i] == x,
        forall|k: int| 0 <= k < i ==> s[k] != x,
    ensures
        remove_first(s, x) == s.remove(i),
    decreases i,
{
    if i == 0 {
        assert(remove_first(s, x) == s.drop_first());
        assert(s.drop_first() =~= s.remove(0));
    } else {
        let t = s.drop_first();
        assert(s[0] != x);
        assert(remove_first(s, x) == seq![s[0]] + remove_first(t, x));
        assert(t[i - 1] == x);
        assert(forall|k: int| 0 <= k < i - 1 ==> t[k] != x);
        lemma_remove_first_at(t, x, i - 1);
        assert(seq![s[0]] + t.remove(i - 1) =~= s.remove(i));
    }
}

/// A sequence without an element is unchanged by removing it.
pub proof fn lemma_remove_first_absent(s: Seq<i64>, x: i64)
    requires
        !s.contains(x),
    ensures
        remove_first(s, x) == s,
    decreases s.len(),
{
    if s.len() > 0 {
        assert(s[0] != x);
        assert(!s.drop_first().contains(x)) by {
            if s.drop_first().contains(x) {
                let i = choose|i: int| 0 <= i < s.drop_first().len() && s.drop_first()[i] == x;
                assert(s[i + 1] == x);
            }
        }
        lemma_remove_first_absent(s.drop_first(), x);
        assert(seq![s[0]] + s.drop_first() =~= s);
    }
}

/// Pruning an app from every repo leaves a repo that never held it with
/// its member list intact.
pub proof fn lemma_prune_leaves_nonmembers(pre: Seq<Repo>, post: Seq<Repo>, app_id: i64, k: int)
    requires
        repos_pruned(pre, post, app_id),
        0 <= k < pre.len(),
        !pre[k].apps@.contains(app_id),
    ensures
        post[k].apps@ == pre[k].apps@,
{
    lemma_remove_first_absent(pre[k].apps@, app_id);
}

/// Every repo lost the first occurrence of `app_id` from its member list
/// (and nothing, if it held none); every other field is untouched.
pub open spec fn repos_pruned(pre: Seq<Repo>, post: Seq<Repo>, app_id: i64) -> bool {
    &&& post.len() == pre.len()
    &&& forall|k: int|
        0 <= k < pre.len() ==> {
            &&& (#[trigger] post[k]).id == pre[k].id
            &&& post[k].owner_id == pre[k].owner_id
            &&& post[k].title == pre[k].title
            &&& post[k].description == pre[k].description
            &&& post[k].apps@ == remove_first(pre[k].apps@, app_id)
        }
}

/// A repo's display fields in their two safe representations.
pub struct CleanRepo {
    pub title: Cleaned,
    pub description: Cleaned,
}

impl CleanRepo {
    pub open spec fn is_clean_of(self, repo: Repo) -> bool {
        &&& is_clean_of(self.title, repo.title@)
        &&& is_clean_of(self.description, repo.description@)
    }

    pub fn from_repo(repo: &Repo) -> (c: CleanRepo)
        ensures
            c.is_clean_of(*repo),
    {
        CleanRepo { title: Cleaned::new(&repo.title), description: Cleaned::new(&repo.description) }
    }

    pub fn from_vec(repos: &Vec<Repo>) -> (v: Vec<CleanRepo>)
        ensures
            v@.len() == repos@.len(),
            forall|i: int| 0 <= i < v@.len() ==> (#[trigger] v@[i]).is_clean_of(repos@[i]),
    {
        let mut cleaned: Vec<CleanRepo> = Vec::new();
        let n = repos.len();
        let mut i: usize = 0;
        while i < n
            invariant
                n == repos@.len(),
                i <= n,
                cleaned@.len() == i,
                forall|k: int| 0 <= k < i ==> (#[trigger] cleaned@[k]).is_clean_of(repos@[k]),
            decreases n - i,
        {
            cleaned.push(CleanRepo::from_repo(&repos[i]));
            i += 1;
        }
        cleaned
    }
}

/// The create-repo form as submitted.
pub struct FormRepo {
    pub title: String,
    pub description: String,
}

impl FormRepo {
    pub fn to_new_repo(self, owner_id: i64) -> (n: NewRepo)
        ensures
            n.owner_id == owner_id,
            n.title == self.title,
            n.description == self.description,
    {
        NewRepo { owner_id, title: self.title, description: self.description }
    }
}

/// A validated repo row waiting for its id.
pub struct NewRepo {
    pub owner_id: i64,
    pub title: String,
    pub description: String,
}

/// The add-app form: the title of the app to add.
pub struct AddAppForum {
    pub title: String,
}

/// The repo row with the given title, if any.
pub fn get_by_title<'a>(store: &'a Store, title: &str) -> (r: Option<&'a Repo>)
    ensures
        match r {
            Some(p) => p.title@ == title@ && store.repos@.contains(*p),
            None => !store.has_repo_titled(title@),
        },
{
    let n = store.repos.len();
    let mut i: usize = 0;
    while i < n
        invariant
            n == store.repos@.len(),
            i <= n,
            forall|k: int| 0 <= k < i ==> (#[trigger] store.repos@[k]).title@ != title@,
        decreases n - i,
    {
        if str_eq(store.repos[i].title.as_str(), title) {
            return Some(&store.repos[i]);
        }
        i += 1;
    }
    None
}

/// Every repo row.
pub fn get_all<'a>(store: &'a Store) -> (r: &'a Vec<Repo>)
    ensures
        r@ == store.repos@,
{
    &store.repos
}

/// The index of the repo row with the given title, if any.
fn find_repo_index(store: &Store, title: &str) -> (r: Option<usize>)
    ensures
        match r {
            Some(i) => i < store.repos@.len() && store.repos@[i as int].title@ == title@,
            None => !store.has_repo_titled(title@),
        },
{
    let n = store.repos.len();
    let mut i: usize = 0;
    while i < n
        invariant
            n == store.repos@.len(),
            i <= n,
            forall|k: int| 0 <= k < i ==> (#[trigger] store.repos@[k]).title@ != title@,
        decreases n - i,
    {
        if str_eq(store.repos[i].title.as_str(), title) {
            return Some(i);
        }
        i += 1;
    }
    None
}

/// The member apps of a repo, in the order its list gives them; an error
/// as soon as a member id has no app row.
pub fn get_apps<'a>(store: &'a Store, repo: &Repo) -> (r: Result<Vec<&'a App>, ()>)
    ensures
        match r {
            Ok(v) => v@.len() == repo.apps@.len() && forall|i: int|
                0 <= i < v@.len() ==> (#[trigger] v@[i]).id == repo.apps@[i]
                    && store.apps@.contains(*v@[i]),
            Err(()) => exists|i: int|
                0 <= i < repo.apps@.len() && !store.has_app(#[trigger] repo.apps@[i]),
        },
{
    let mut found: Vec<&'a App> = Vec::new();
    let n = repo.apps.len();
    let mut i: usize = 0;
    while i < n
        invariant
            n == repo.apps@.len(),
            i <= n,
            found@.len() == i,
            forall|k: int|
                0 <= k < i ==> (#[trigger] found@[k]).id == repo.apps@[k] && store.apps@.contains(
                    *found@[k],
                ),
        decreases n - i,
    {
        match crate::apps::get_by_id(store, repo.apps[i]) {
            Some(a) => {
                found.push(a);
            },
            None => {
                return Err(());
            },
        }
        i += 1;
    }
    Ok(found)
}

// ------------------------------------------------------------------
// Pages
// ------------------------------------------------------------------

/// The repo listing page: the shared context and every repo, cleaned.
pub fn repos(store: &Store, cookie: Option<&str>) -> (r: (
    crate::common::PageContext,
    Vec<CleanRepo>,
))
    requires
        store.wf(),
    ensures
        crate::common::context_for(*store, cookie, r.0),
        r.1@.len() == store.repos@.len(),
        forall|i: int|
            0 <= i < store.repos@.len() ==> (#[trigger] r.1@[i]).is_clean_of(store.repos@[i]),
{
    let (context, _, _) = crate::common::signed_in_context(store, cookie);
    let cleaned = CleanRepo::from_vec(get_all(store));
    (context, cleaned)
}

/// The create-repo form page.
pub fn create_repo(store: &Store, cookie: Option<&str>) -> (c: crate::common::PageContext)
    requires
        store.wf(),
    ensures
        crate::common::context_for(*store, cookie, c),
{
    let (context, _, _) = crate::common::signed_in_context(store, cookie);
    context
}

/// A repo's detail page: the row, its safe representations, the owner's
/// display data when the owner row exists, and the member apps when every
/// member id still has a row.
pub struct RepoPage<'a> {
    pub context: crate::common::PageContext,
    pub repo: &'a Repo,
    pub clean_repo: CleanRepo,
    pub owner: Option<(&'a User, CleanUser)>,
    pub members: Option<(Vec<&'a App>, Vec<CleanApp>)>,
}

impl<'a> RepoPage<'a> {
    /// The page faithfully shows the repo with the given title.
    pub open spec fn shows(self, store: Store, cookie: Option<&str>, title: Seq<char>) -> bool {
        &&& crate::common::context_for(store, cookie, self.context)
        &&& self.repo.title@ == title
        &&& store.repos@.contains(*self.repo)
        &&& self.clean_repo.is_clean_of(*self.repo)
        &&& match self.owner {
            Some(owner) => owner.0.id == self.repo.owner_id && store.users@.contains(*owner.0)
                && owner.1.is_clean_of(*owner.0),
            None => !store.has_user(self.repo.owner_id),
        }
        &&& match self.members {
            Some(members) => {
                &&& members.0@.len() == self.repo.apps@.len()
                &&& forall|i: int|
                    0 <= i < members.0@.len() ==> (#[trigger] members.0@[i]).id
                        == self.repo.apps@[i] && store.apps@.contains(*members.0@[i])
                &&& members.1@.len() == members.0@.len()
                &&& forall|i: int|
                    0 <= i < members.1@.len() ==> (#[trigger] members.1@[i]).is_clean_of(
                        *members.0@[i],
                    )
            },
            None => exists|i: int|
                0 <= i < self.repo.apps@.len() && !store.has_app(#[trigger] self.repo.apps@[i]),
        }
    }
}

/// An error is the not-found page (a 404) for a title no repo carries.
pub fn repo<'a>(store: &'a Store, title: &str, cookie: Option<&str>) -> (r: Result<
    RepoPage<'a>,
    (),
>)
    requires
        store.wf(),
    ensures
        match r {
            Ok(page) => page.shows(*store, cookie, title@),
            Err(()) => !store.has_repo_titled(title@),
        },
{
    let (context, _, _) = crate::common::signed_in_context(store, cookie);
    match get_by_title(store, title) {
        Some(found) => {
            let cleaned = CleanRepo::from_repo(found);
            let owner = match crate::users::get(store, found.owner_id) {
                Some(u) => Some((u, crate::users::CleanUser::from_user(u))),
                None => None,
            };
            let members = match get_apps(store, found) {
                Ok(list) => {
                    let mut cleaned_apps: Vec<CleanApp> = Vec::new();
                    let m = list.len();
                    let mut i: usize = 0;
                    while i < m
                        invariant
                            m == list@.len(),
                            i <= m,
                            cleaned_apps@.len() == i,
                            forall|k: int|
                                0 <= k < i ==> (#[trigger] cleaned_apps@[k]).is_clean_of(
                                    *list@[k],
                                ),
                        decreases m - i,
                    {
                        cleaned_apps.push(CleanApp::from_app(list[i]));
                        i += 1;
                    }
                    Some((list, cleaned_apps))
                },
                Err(()) => None,
            };
            Ok(RepoPage { context, repo: found, clean_repo: cleaned, owner, members })
        },
        None => Err(()),
    }
}

// ------------------------------------------------------------------
// Creating a repo
// ------------------------------------------------------------------

/// The repo table grew by exactly one row: the form's fields under the
/// next id, owned by `owner_id`, with no members yet.
pub open spec fn repo_inserted(pre: Store, post: Store, owner_id: i64, form: FormRepo) -> bool {
    &&& post.repos@.len() == pre.repos@.len() + 1
    &&& forall|i: int| 0 <= i < pre.repos@.len() ==> post.repos@[i] == pre.repos@[i]
    &&& post.repos@.last().id == pre.next_repo_id
    &&& post.repos@.last().owner_id == owner_id
    &&& post.repos@.last().title == form.title
    &&& post.repos@.last().description == form.description
    &&& post.repos@.last().apps@ == Seq::<i64>::empty()
    &&& post.next_repo_id == pre.next_repo_id + 1
}

/// Why creating a repo failed.
#[derive(Clone, Copy, Debug, PartialEq, Eq, Structural)]
pub enum SubmitRepoError {
    /// Nobody is signed in on the request's session.
    NotSignedIn,
    /// The title fails the title format or is over 24 bytes.
    InvalidTitle,
    /// The description is over 256 bytes.
    DescriptionTooLong,
    /// Another repo already carries this title.
    DuplicateTitle,
}

/// Create a repo for the signed-in user: validate the title and the
/// description, reject a duplicate title, and store the row. Returns the
/// new repo's id.
pub fn submit_repo(store: &mut Store, cookie: Option<&str>, repo_form: FormRepo) -> (r: Result<
    i64,
    SubmitRepoError,
>)
    requires
        old(store).wf(),
        old(store).next_repo_id < i64::MAX,
    ensures
        final(store).users@ == old(store).users@,
        final(store).sessions@ == old(store).sessions@,
        final(store).apps@ == old(store).apps@,
        final(store).next_user_id == old(store).next_user_id,
        final(store).next_session_id == old(store).next_session_id,
        final(store).next_app_id == old(store).next_app_id,
        final(store).wf(),
        match r {
            Ok(new_id) => {
                &&& exists|u: User|
                    #[trigger] old(store).users@.contains(u) && crate::users::signed_in_as(
                        *old(store),
                        cookie,
                        u,
                    ) && final(store).repos@.last().owner_id == u.id
                &&& crate::apps::submitted_title_ok(repo_form.title@)
                &&& crate::apps::description_ok(repo_form.description@)
                &&& !old(store).has_repo_titled(repo_form.title@)
                &&& repo_inserted(
                    *old(store),
                    *final(store),
                    final(store).repos@.last().owner_id,
                    repo_form,
                )
                &&& new_id == old(store).next_repo_id
            },
            Err(SubmitRepoError::NotSignedIn) => !(exists|u: User|
                #[trigger] old(store).users@.contains(u) && crate::users::signed_in_as(
                    *old(store),
                    cookie,
                    u,
                )) && *final(store) == *old(store),
            Err(SubmitRepoError::InvalidTitle) => !crate::apps::submitted_title_ok(repo_form.title@)
                && *final(store) == *old(store),
            Err(SubmitRepoError::DescriptionTooLong) => crate::apps::submitted_title_ok(
                repo_form.title@,
            ) && !crate::apps::description_ok(repo_form.description@) && *final(store) == *old(
                store,
            ),
            Err(SubmitRepoError::DuplicateTitle) => crate::apps::submitted_title_ok(
                repo_form.title@,
            ) && crate::apps::description_ok(repo_form.description@) && old(
                store,
            ).has_repo_titled(repo_form.title@) && *final(store) == *old(store),
        },
{
    let owner_id: i64;
    match crate::users::get_from_cookies(store, cookie) {
        Ok(user) => {
            owner_id = user.id;
        },
        Err(_) => {
            return Err(SubmitRepoError::NotSignedIn);
        },
    }
    if !(crate::common::validate_title(repo_form.title.as_str()) && repo_form.title.as_str().len()
        <= 24) {
        return Err(SubmitRepoError::InvalidTitle);
    }
    if repo_form.description.as_str().len() > 256 {
        return Err(SubmitRepoError::DescriptionTooLong);
    }
    match get_by_title(store, repo_form.title.as_str()) {
        Some(_) => {
            return Err(SubmitRepoError::DuplicateTitle);
        },
        None => {},
    }
    let new_id = store.next_repo_id;
    let new_repo = repo_form.to_new_repo(owner_id);
    store.repos.push(
        Repo {
            id: new_id,
            owner_id: new_repo.owner_id,
            title: new_repo.title,
            description: new_repo.description,
            apps: Vec::new(),
        },
    );
    store.next_repo_id = new_id + 1;
    proof {
        assert forall|i: int, j: int| 0 <= i < j < store.repos@.len() implies {
            &&& (#[trigger] store.repos@[i]).id != (#[trigger] store.repos@[j]).id
            &&& store.repos@[i].title@ != store.repos@[j].title@
        } by {
            if j == store.repos@.len() - 1 {
                assert(store.repos@[i] == old(store).repos@[i]);
                assert(old(store).repos@[i].id < new_id);
            }
        }
    }
    Ok(new_id)
}

// ------------------------------------------------------------------
// Deleting a repo
// ------------------------------------------------------------------

/// Delete a repo through the ownership gate: re-authenticate from the
/// submitted credentials, look the repo up by title, compare owners; on
/// success drop the row. Member apps themselves are untouched.
pub fn delete_repo(store: &mut Store, title: &str, login_user: &LoginUser) -> (r: Result<
    (),
    crate::users::OwnershipError,
>)
    requires
        old(store).wf(),
    ensures
        final(store).users@ == old(store).users@,
        final(store).sessions@ == old(store).sessions@,
        final(store).apps@ == old(store).apps@,
        final(store).next_user_id == old(store).next_user_id,
        final(store).next_session_id == old(store).next_session_id,
        final(store).next_app_id == old(store).next_app_id,
        final(store).next_repo_id == old(store).next_repo_id,
        final(store).wf(),
        match r {
            Ok(()) => exists|ri: int|
                {
                    &&& 0 <= ri < old(store).repos@.len()
                    &&& (#[trigger] old(store).repos@[ri]).title@ == title@
                    &&& (exists|ui: int|
                        0 <= ui < old(store).users@.len() && (
                        #[trigger] old(store).users@[ui]).username@ == login_user.username@
                            && crate::crypt_eq::crypt_verifies(
                            login_user.password@,
                            old(store).users@[ui].password_hash@,
                        ) && old(store).repos@[ri].owner_id == old(store).users@[ui].id)
                    &&& final(store).repos@ == old(store).repos@.remove(ri)
                },
            Err(crate::users::OwnershipError::AuthFailed) => !old(store).authenticates(
                login_user.username@,
                login_user.password@,
            ) && *final(store) == *old(store),
            Err(crate::users::OwnershipError::NotFound) => old(store).authenticates(
                login_user.username@,
                login_user.password@,
            ) && !old(store).has_repo_titled(title@) && *final(store) == *old(store),
            Err(crate::users::OwnershipError::NotOwner) => exists|ri: int|
                {
                    &&& 0 <= ri < old(store).repos@.len()
                    &&& (#[trigger] old(store).repos@[ri]).title@ == title@
                    &&& (exists|ui: int|
                        0 <= ui < old(store).users@.len() && (
                        #[trigger] old(store).users@[ui]).username@ == login_user.username@
                            && crate::crypt_eq::crypt_verifies(
                            login_user.password@,
                            old(store).users@[ui].password_hash@,
                        ) && old(store).repos@[ri].owner_id != old(store).users@[ui].id)
                    &&& *final(store) == *old(store)
                },
        },
{
    let user_id: i64;
    let ghost mut wi: int = 0;
    match crate::users::authenticate(store, login_user) {
        Some(user) => {
            user_id = user.id;
            proof {
                let u = *user;
                wi = choose|i: int| 0 <= i < store.users@.len() && store.users@[i] == u;
            }
        },
        None => {
            return Err(crate::users::OwnershipError::AuthFailed);
        },
    }
    let repo_idx: usize;
    match find_repo_index(store, title) {
        Some(i) => {
            repo_idx = i;
        },
        None => {
            proof {
                assert(old(store).users@[wi].username@ == login_user.username@);
            }
            return Err(crate::users::OwnershipError::NotFound);
        },
    }
    if store.repos[repo_idx].owner_id != user_id {
        proof {
            assert(old(store).users@[wi].username@ == login_user.username@);
        }
        return Err(crate::users::OwnershipError::NotOwner);
    }
    let _ = store.repos.remove(repo_idx);
    proof {
        assert forall|i: int, k: int| 0 <= i < k < store.repos@.len() implies {
            &&& (#[trigger] store.repos@[i]).id != (#[trigger] store.repos@[k]).id
            &&& store.repos@[i].title@ != store.repos@[k].title@
        } by {
            let oi: int = if i < repo_idx {
                i
            } else {
                i + 1
            };
            let ok: int = if k < repo_idx {
                k
            } else {
                k + 1
            };
            assert(store.repos@[i] == old(store).repos@[oi]);
            assert(store.repos@[k] == old(store).repos@[ok]);
        }
        assert forall|i: int| 0 <= i < store.repos@.len() implies (#[trigger] store.repos@[i]).id
            < store.next_repo_id by {
            let oi: int = if i < repo_idx {
                i
            } else {
                i + 1
            };
            assert(store.repos@[i] == old(store).repos@[oi]);
        }
        assert(old(store).users@[wi].username@ == login_user.username@);
    }
    Ok(())
}

// ------------------------------------------------------------------
// Adding an app to a repo
// ------------------------------------------------------------------

/// Why adding an app to a repo failed, with the status the route answers.
#[derive(Clone, Copy, Debug, PartialEq, Eq, Structural)]
pub enum AddAppError {
    /// No repo carries the requested title (answered as a 403).
    RepoNotFound,
    /// Nobody is signed in on the request's session (403).
    NotSignedIn,
    /// The signed-in user does not own the repo (403).
    NotOwner,
    /// No app carries the submitted title (404).
    AppNotFound,
}

/// Append an app to a repo's member list: the repo's owner, identified by
/// the session (not by re-submitted credentials), names an app by title
/// and its id is pushed onto the list — also when it is already a member,
/// so a duplicate entry can arise.
pub fn add_app(store: &mut Store, title: &str, cookie: Option<&str>, add_app_forum: &AddAppForum)
    -> (r: Result<(), AddAppError>)
    requires
        old(store).wf(),
    ensures
        final(store).users@ == old(store).users@,
        final(store).sessions@ == old(store).sessions@,
        final(store).apps@ == old(store).apps@,
        final(store).next_user_id == old(store).next_user_id,
        final(store).next_session_id == old(store).next_session_id,
        final(store).next_app_id == old(store).next_app_id,
        final(store).next_repo_id == old(store).next_repo_id,
        final(store).wf(),
        match r {
            Ok(()) => exists|ri: int|
                {
                    &&& 0 <= ri < old(store).repos@.len()
                    &&& (#[trigger] old(store).repos@[ri]).title@ == title@
                    &&& (exists|u: User|
                        #[trigger] old(store).users@.contains(u) && crate::users::signed_in_as(
                            *old(store),
                            cookie,
                            u,
                        ) && u.id == old(store).repos@[ri].owner_id)
                    &&& (exists|ai: int|
                        {
                            &&& 0 <= ai < old(store).apps@.len()
                            &&& (#[trigger] old(store).apps@[ai]).title@ == add_app_forum.title@
                            &&& final(store).repos@.len() == old(store).repos@.len()
                            &&& final(store).repos@[ri].id == old(store).repos@[ri].id
                            &&& final(store).repos@[ri].owner_id == old(store).repos@[ri].owner_id
                            &&& final(store).repos@[ri].title == old(store).repos@[ri].title
                            &&& final(store).repos@[ri].description == old(
                                store,
                            ).repos@[ri].description
                            &&& final(store).repos@[ri].apps@ == old(store).repos@[ri].apps@.push(
                                old(store).apps@[ai].id,
                            )
                            &&& (forall|k: int|
                                0 <= k < old(store).repos@.len() && k != ri
                                    ==> final(store).repos@[k] == old(store).repos@[k])
                        })
                },
            Err(AddAppError::RepoNotFound) => !old(store).has_repo_titled(title@) && *final(store)
                == *old(store),
            Err(AddAppError::NotSignedIn) => old(store).has_repo_titled(title@) && !(exists|u: User|
                #[trigger] old(store).users@.contains(u) && crate::users::signed_in_as(
                    *old(store),
                    cookie,
                    u,
                )) && *final(store) == *old(store),
            Err(AddAppError::NotOwner) => exists|ri: int|
                {
                    &&& 0 <= ri < old(store).repos@.len()
                    &&& (#[trigger] old(store).repos@[ri]).title@ == title@
                    &&& (exists|u: User|
                        #[trigger] old(store).users@.contains(u) && crate::users::signed_in_as(
                            *old(store),
                            cookie,
                            u,
                        ) && u.id != old(store).repos@[ri].owner_id)
                    &&& *final(store) == *old(store)
                },
            Err(AddAppError::AppNotFound) => exists|ri: int|
                {
                    &&& 0 <= ri < old(store).repos@.len()
                    &&& (#[trigger] old(store).repos@[ri]).title@ == title@
                    &&& (exists|u: User|
                        #[trigger] old(store).users@.contains(u) && crate::users::signed_in_as(
                            *old(store),
                            cookie,
                            u,
                        ) && u.id == old(store).repos@[ri].owner_id)
                    &&& !old(store).has_app_titled(add_app_forum.title@)
                    &&& *final(store) == *old(store)
                },
        },
{
    let repo_idx: usize;
    match find_repo_index(store, title) {
        Some(i) => {
            repo_idx = i;
        },
        None => {
            return Err(AddAppError::RepoNotFound);
        },
    }
    let user_id: i64;
    match crate::users::get_from_cookies(store, cookie) {
        Ok(user) => {
            user_id = user.id;
            proof {
                assert(old(store).users@.contains(*user));
                assert(exists|u: User|
                    #[trigger] old(store).users@.contains(u) && crate::users::signed_in_as(
                        *old(store),
                        cookie,
                        u,
                    ) && u.id == user_id);
            }
        },
        Err(_) => {
            return Err(AddAppError::NotSignedIn);
        },
    }
    if store.repos[repo_idx].owner_id != user_id {
        return Err(AddAppError::NotOwner);
    }
    let app_id: i64;
    let ghost mut gai: int = 0;
    match crate::apps::get_by_title(store, add_app_forum.title.as_str()) {
        Some(app) => {
            app_id = app.id;
            proof {
                let a = *app;
                gai = choose|i: int| 0 <= i < store.apps@.len() && store.apps@[i] == a;
            }
        },
        None => {
            return Err(AddAppError::AppNotFound);
        },
    }
    let row = &mut store.repos[repo_idx];
    row.apps.push(app_id);
    proof {
        assert(old(store).apps@[gai].title@ == add_app_forum.title@);
        assert(old(store).apps@[gai].id == app_id);
        assert forall|i: int, k: int| 0 <= i < k < store.repos@.len() implies {
            &&& (#[trigger] store.repos@[i]).id != (#[trigger] store.repos@[k]).id
            &&& store.repos@[i].title@ != store.repos@[k].title@
        } by {
            assert(store.repos@[i].id == old(store).repos@[i].id);
            assert(store.repos@[k].id == old(store).repos@[k].id);
            assert(store.repos@[i].title == old(store).repos@[i].title);
            assert(store.repos@[k].title == old(store).repos@[k].title);
        }
        assert forall|i: int| 0 <= i < store.repos@.len() implies (#[trigger] store.repos@[i]).id
            < store.next_repo_id by {
            assert(store.repos@[i].id == old(store).repos@[i].id);
        }
    }
    Ok(())
}

} // verus!
