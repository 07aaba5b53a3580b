use schoolthings::apps::{self, FormApp};
use schoolthings::common::{self, Cleaned};
use schoolthings::repos::{self, AddAppForum, FormRepo};
use schoolthings::store::Store;
use schoolthings::users::{self, NewUser};

fn new_user(username: &str, email: &str, password: &str) -> NewUser {
    NewUser {
        username: username.to_string(),
        email: email.to_string(),
        password: password.to_string(),
    }
}

fn signed_up() -> Store {
    let mut store = Store::new();
    users::submit_signup(&mut store, None, new_user("alice", "alice@example.com", "pw"))
        .unwrap();
    store
}

#[test]
fn home_is_anonymous_without_a_cookie() {
    let store = Store::new();
    let context = common::home(&store, None);
    assert_eq!(context.domain, "https://schoolthings.xyz");
    assert!(context.clean_user.is_none());
}

#[test]
fn home_shows_the_signed_in_user() {
    let store = signed_up();
    let context = common::home(&store, Some("1"));
    let clean_user = context.clean_user.unwrap();
    assert_eq!(clean_user.username.html, "alice");
    assert_eq!(clean_user.email.html, "alice@example.com");
}

#[test]
fn context_degrades_on_lookup_failure() {
    let store = signed_up();
    let (context, session, user) = common::signed_in_context(&store, Some("99"));
    assert!(session.is_none());
    assert!(user.is_none());
    assert!(context.clean_user.is_none());
    let (_, session, user) = common::signed_in_context(&store, Some("1"));
    assert_eq!(session.unwrap().id, 1);
    assert_eq!(user.unwrap().username, "alice");
}

#[test]
fn login_page_escapes_query_parameters() {
    let store = Store::new();
    let p = users::login(
        Some("<b>err</b>".to_string()),
        Some("al ice".to_string()),
        &store,
        None,
    );
    assert_eq!(p.error.unwrap(), "&lt;b&gt;err&lt;&#47;b&gt;");
    assert_eq!(p.username.unwrap(), "al&#32;ice");
    let p = users::login(None, None, &store, None);
    assert!(p.error.is_none() && p.username.is_none());
}

#[test]
fn signup_page_escapes_query_parameters() {
    let store = Store::new();
    let p = users::signup(
        Some("dup".to_string()),
        Some("alice".to_string()),
        Some("a&b@example.com".to_string()),
        &store,
        None,
    );
    assert_eq!(p.error.unwrap(), "dup");
    assert_eq!(p.username.unwrap(), "alice");
    assert_eq!(p.email.unwrap(), "a&amp;b@example.com");
}

#[test]
fn profile_page_finds_users_by_name() {
    let store = signed_up();
    let (_, user, cleaned) = users::user_profile(&store, "alice", None).unwrap();
    assert_eq!(user.username, "alice");
    assert_eq!(cleaned.username.html, "alice");
    assert!(users::user_profile(&store, "nobody", None).is_err());
}

#[test]
fn sitemap_lists_every_app_and_user() {
    let mut store = signed_up();
    apps::submit_app(&mut store, Some("1"), FormApp {
        title: "anapp".to_string(),
        description: String::new(),
        domain: "https://example.com".to_string(),
        token: "t".repeat(60),
    })
    .unwrap();
    let p = common::sitemap(&store);
    assert_eq!(p.clean_apps.len(), 1);
    assert_eq!(p.clean_users.len(), 1);
    assert_eq!(p.clean_apps[0].title.html, "anapp");
}

#[test]
fn app_page_shows_owner() {
    let mut store = signed_up();
    apps::submit_app(&mut store, Some("1"), FormApp {
        title: "anapp".to_string(),
        description: "d".to_string(),
        domain: "https://example.com".to_string(),
        token: "t".repeat(60),
    })
    .unwrap();
    let (_, app, clean_app, owner) = apps::app(&store, "anapp", None).unwrap();
    assert_eq!(app.title, "anapp");
    assert_eq!(clean_app.domain.url, "https%3A%2F%2Fexample%2Ecom");
    let (owner_user, owner_clean) = owner.unwrap();
    assert_eq!(owner_user.username, "alice");
    assert_eq!(owner_clean.username.html, "alice");
    assert!(apps::app(&store, "nosuch", None).is_err());
}

#[test]
fn repo_page_lists_members() {
    let mut store = signed_up();
    apps::submit_app(&mut store, Some("1"), FormApp {
        title: "anapp".to_string(),
        description: String::new(),
        domain: "https://example.com".to_string(),
        token: "t".repeat(60),
    })
    .unwrap();
    repos::submit_repo(&mut store, Some("1"), FormRepo {
        title: "arepo".to_string(),
        description: String::new(),
    })
    .unwrap();
    repos::add_app(&mut store, "arepo", Some("1"), &AddAppForum { title: "anapp".to_string() })
        .unwrap();
    let page = repos::repo(&store, "arepo", None).unwrap();
    assert_eq!(page.repo.title, "arepo");
    let (members, clean_members) = page.members.unwrap();
    assert_eq!(members.len(), 1);
    assert_eq!(members[0].title, "anapp");
    assert_eq!(clean_members[0].title.html, "anapp");
    let (owner_user, _) = page.owner.unwrap();
    assert_eq!(owner_user.username, "alice");
    assert!(repos::repo(&store, "nosuch", None).is_err());
}

#[test]
fn listing_pages_clean_every_row() {
    let mut store = signed_up();
    apps::submit_app(&mut store, Some("1"), FormApp {
        title: "my_app".to_string(),
        description: String::new(),
        domain: "https://example.com".to_string(),
        token: "t".repeat(60),
    })
    .unwrap();
    let (_, clean_apps) = apps::apps(&store, None);
    assert_eq!(clean_apps.len(), 1);
    assert_eq!(clean_apps[0].title.html, "my_app");
    let (_, clean_repos) = repos::repos(&store, None);
    assert!(clean_repos.is_empty());
    let c = apps::create_app(&store, None);
    assert!(c.clean_user.is_none());
    let c = repos::create_repo(&store, None);
    assert!(c.clean_user.is_none());
}

#[test]
fn cleaned_percent_encodes_reserved_bytes() {
    let c = Cleaned::new(&"a/b c".to_string());
    assert_eq!(c.url, "a%2Fb%20c");
}
