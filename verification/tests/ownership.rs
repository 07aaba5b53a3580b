use schoolthings::apps::{self, FormApp, SubmitAppError};
use schoolthings::repos::{self, AddAppForum, FormRepo, Repo, AddAppError, SubmitRepoError};
use schoolthings::store::Store;
use schoolthings::users::{self, LoginUser, NewUser, OwnershipError};

fn new_user(username: &str, email: &str, password: &str) -> NewUser {
    NewUser {
        username: username.to_string(),
        email: email.to_string(),
        password: password.to_string(),
    }
}

fn login_user(username: &str, password: &str) -> LoginUser {
    LoginUser { username: username.to_string(), password: password.to_string() }
}

fn token() -> String {
    "t".repeat(60)
}

fn form_app(title: &str) -> FormApp {
    FormApp {
        title: title.to_string(),
        description: "an app".to_string(),
        domain: "https://example.com".to_string(),
        token: token(),
    }
}

fn form_repo(title: &str) -> FormRepo {
    FormRepo { title: title.to_string(), description: "a repo".to_string() }
}

/// A store with alice signed in on session 1 and bob on session 2.
fn two_users() -> Store {
    let mut store = Store::new();
    users::submit_signup(&mut store, None, new_user("alice", "alice@example.com", "alicepw"))
        .unwrap();
    users::submit_signup(&mut store, None, new_user("bob", "bob@example.com", "bobpw"))
        .unwrap();
    store
}

#[test]
fn deleting_a_member_app_prunes_every_repo() {
    let mut store = two_users();
    let app_id = apps::submit_app(&mut store, Some("1"), form_app("alicesapp")).unwrap();
    repos::submit_repo(&mut store, Some("1"), form_repo("alicesrepo")).unwrap();
    repos::add_app(&mut store, "alicesrepo", Some("1"), &AddAppForum {
        title: "alicesapp".to_string(),
    })
    .unwrap();
    assert_eq!(repos::get_by_title(&store, "alicesrepo").unwrap().apps, vec![app_id]);

    let r = apps::delete_app(&mut store, "alicesapp", &login_user("alice", "alicepw"));
    assert_eq!(r, Ok(()));
    assert!(apps::get_by_title(&store, "alicesapp").is_none());
    assert!(repos::get_by_title(&store, "alicesrepo").unwrap().apps.is_empty());
}

#[test]
fn deleting_an_unreferenced_app_only_drops_its_row() {
    let mut store = two_users();
    apps::submit_app(&mut store, Some("1"), form_app("alicesapp")).unwrap();
    repos::submit_repo(&mut store, Some("1"), form_repo("alicesrepo")).unwrap();
    let r = apps::delete_app(&mut store, "alicesapp", &login_user("alice", "alicepw"));
    assert_eq!(r, Ok(()));
    assert!(apps::get_by_title(&store, "alicesapp").is_none());
    assert!(repos::get_by_title(&store, "alicesrepo").is_some());
}

#[test]
fn non_owner_with_their_own_credentials_gets_forbidden() {
    let mut store = two_users();
    apps::submit_app(&mut store, Some("1"), form_app("alicesapp")).unwrap();
    // bob's credentials are correct — for bob's account, not alice's app
    let r = apps::delete_app(&mut store, "alicesapp", &login_user("bob", "bobpw"));
    assert_eq!(r, Err(OwnershipError::NotOwner));
    assert!(apps::get_by_title(&store, "alicesapp").is_some());
}

#[test]
fn delete_app_gate_order() {
    let mut store = two_users();
    apps::submit_app(&mut store, Some("1"), form_app("alicesapp")).unwrap();
    let r = apps::delete_app(&mut store, "alicesapp", &login_user("alice", "wrong"));
    assert_eq!(r, Err(OwnershipError::AuthFailed));
    let r = apps::delete_app(&mut store, "missing", &login_user("alice", "alicepw"));
    assert_eq!(r, Err(OwnershipError::NotFound));
}

#[test]
fn delete_repo_flow() {
    let mut store = two_users();
    repos::submit_repo(&mut store, Some("1"), form_repo("alicesrepo")).unwrap();
    let r = repos::delete_repo(&mut store, "alicesrepo", &login_user("bob", "bobpw"));
    assert_eq!(r, Err(OwnershipError::NotOwner));
    let r = repos::delete_repo(&mut store, "alicesrepo", &login_user("bob", "wrong"));
    assert_eq!(r, Err(OwnershipError::AuthFailed));
    let r = repos::delete_repo(&mut store, "nosuch", &login_user("alice", "alicepw"));
    assert_eq!(r, Err(OwnershipError::NotFound));
    let r = repos::delete_repo(&mut store, "alicesrepo", &login_user("alice", "alicepw"));
    assert_eq!(r, Ok(()));
    assert!(repos::get_by_title(&store, "alicesrepo").is_none());
}

#[test]
fn app_creation_validates_in_order() {
    let mut store = two_users();
    let r = apps::submit_app(&mut store, None, form_app("anapp"));
    assert_eq!(r, Err(SubmitAppError::NotSignedIn));

    let mut bad = form_app("anapp");
    bad.domain = "http://example.com".to_string();
    assert_eq!(apps::submit_app(&mut store, Some("1"), bad), Err(SubmitAppError::InvalidDomain));

    let mut bad = form_app("ab");
    assert_eq!(apps::submit_app(&mut store, Some("1"), bad), Err(SubmitAppError::InvalidTitle));

    bad = form_app("anapp");
    bad.description = "d".repeat(257);
    assert_eq!(
        apps::submit_app(&mut store, Some("1"), bad),
        Err(SubmitAppError::DescriptionTooLong)
    );

    bad = form_app("anapp");
    bad.token = "t".repeat(59);
    assert_eq!(apps::submit_app(&mut store, Some("1"), bad), Err(SubmitAppError::InvalidToken));

    assert!(apps::submit_app(&mut store, Some("1"), form_app("anapp")).is_ok());
    assert_eq!(
        apps::submit_app(&mut store, Some("2"), form_app("anapp")),
        Err(SubmitAppError::DuplicateTitle)
    );
}

#[test]
fn repo_creation_validates_in_order() {
    let mut store = two_users();
    assert_eq!(
        repos::submit_repo(&mut store, None, form_repo("arepo")),
        Err(SubmitRepoError::NotSignedIn)
    );
    assert_eq!(
        repos::submit_repo(&mut store, Some("1"), form_repo("ab")),
        Err(SubmitRepoError::InvalidTitle)
    );
    let mut bad = form_repo("arepo");
    bad.description = "d".repeat(257);
    assert_eq!(
        repos::submit_repo(&mut store, Some("1"), bad),
        Err(SubmitRepoError::DescriptionTooLong)
    );
    assert!(repos::submit_repo(&mut store, Some("1"), form_repo("arepo")).is_ok());
    assert_eq!(
        repos::submit_repo(&mut store, Some("2"), form_repo("arepo")),
        Err(SubmitRepoError::DuplicateTitle)
    );
}

#[test]
fn add_app_outcomes() {
    let mut store = two_users();
    apps::submit_app(&mut store, Some("1"), form_app("alicesapp")).unwrap();
    repos::submit_repo(&mut store, Some("1"), form_repo("alicesrepo")).unwrap();
    let form = AddAppForum { title: "alicesapp".to_string() };

    assert_eq!(
        repos::add_app(&mut store, "nosuch", Some("1"), &form),
        Err(AddAppError::RepoNotFound)
    );
    assert_eq!(
        repos::add_app(&mut store, "alicesrepo", None, &form),
        Err(AddAppError::NotSignedIn)
    );
    assert_eq!(
        repos::add_app(&mut store, "alicesrepo", Some("2"), &form),
        Err(AddAppError::NotOwner)
    );
    assert_eq!(
        repos::add_app(&mut store, "alicesrepo", Some("1"), &AddAppForum {
            title: "nosuch".to_string(),
        }),
        Err(AddAppError::AppNotFound)
    );
    assert_eq!(repos::add_app(&mut store, "alicesrepo", Some("1"), &form), Ok(()));
    // adding again duplicates the entry
    assert_eq!(repos::add_app(&mut store, "alicesrepo", Some("1"), &form), Ok(()));
    let repo = repos::get_by_title(&store, "alicesrepo").unwrap();
    assert_eq!(repo.apps.len(), 2);
}

#[test]
fn duplicate_membership_survives_one_removal() {
    let mut repo = Repo {
        id: 1,
        owner_id: 1,
        title: "arepo".to_string(),
        description: String::new(),
        apps: vec![7, 9, 7],
    };
    assert_eq!(repo.remove_app(7), Ok(()));
    assert_eq!(repo.apps, vec![9, 7]);
    assert_eq!(repo.remove_app(7), Ok(()));
    assert_eq!(repo.apps, vec![9]);
    assert_eq!(repo.remove_app(7), Err(()));
    assert_eq!(repo.apps, vec![9]);
}
