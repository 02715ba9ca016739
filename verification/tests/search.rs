use rustlog::app::App;
use rustlog::collections::{DashStringSet, StringSet};
use rustlog::search::{GetUsers, UsersRequest, UsersStep, PAGE};
use rustlog::users::{User, UserMap, UsersCache};

fn s(text: &str) -> String {
    text.to_string()
}

fn user(id: &str, login: &str) -> User {
    User { id: s(id), login: s(login) }
}

fn empty_app() -> App {
    App {
        users: UsersCache::new(),
        channels: StringSet::new(),
        optout_codes: DashStringSet::new(),
        optout_users: DashStringSet::new(),
    }
}

fn asks_ids(step: UsersStep) -> (Vec<String>, GetUsers) {
    match step {
        UsersStep::Fetch { request: UsersRequest::Ids(ids), then } => (ids, then),
        _ => panic!("no request for ids"),
    }
}

fn asks_logins(step: UsersStep) -> (Vec<String>, GetUsers) {
    match step {
        UsersStep::Fetch { request: UsersRequest::Logins(logins), then } => (logins, then),
        _ => panic!("no request for logins"),
    }
}

fn done(step: UsersStep) -> UserMap {
    match step {
        UsersStep::Done(users) => users,
        _ => panic!("not done"),
    }
}

fn resume(then: GetUsers, app: &mut App, users: Vec<User>) -> UsersStep {
    then.resume(app, Ok::<Vec<User>, String>(users)).unwrap()
}

#[test]
fn nothing_is_asked_for_without_ids_and_names() {
    let mut app = empty_app();
    assert!(done(app.get_users(vec![], vec![], false)).into_users().is_empty());
    assert!(done(app.get_users(vec![], vec![], true)).into_users().is_empty());
}

#[test]
fn remembered_users_are_not_asked_for() {
    let mut app = empty_app();
    app.users.insert(s("1"), s("one"));
    app.users.insert(s("2"), s("two"));
    app.users.insert_optional(Some(s("3")), None);
    app.users.insert_optional(None, Some(s("four")));
    let users = done(app.get_users(vec![s("1"), s("3")], vec![s("two"), s("four")], false));
    assert_eq!(users.get(&s("1")), Some(&s("one")));
    assert_eq!(users.get(&s("2")), Some(&s("two")));
    assert_eq!(users.into_users().len(), 2);
}

#[test]
fn what_is_remembered_may_be_ignored() {
    let mut app = empty_app();
    app.users.insert(s("1"), s("one"));
    let step = app.get_users(vec![s("1")], vec![s("one")], true);
    let (ids, then) = asks_ids(step);
    assert_eq!(ids, vec![s("1")]);
    let (logins, then) = asks_logins(resume(then, &mut app, vec![user("1", "uno")]));
    assert_eq!(logins, vec![s("one")]);
    let users = done(resume(then, &mut app, vec![]));
    assert_eq!(users.get(&s("1")), Some(&s("uno")));
    assert_eq!(app.users.get_login("1"), Some(Some(s("uno"))));
    assert_eq!(app.users.get_id("uno"), Some(Some(s("1"))));
    assert_eq!(app.users.get_id("one"), Some(None));
}

#[test]
fn requests_come_in_pages() {
    assert_eq!(PAGE, 100);
    for (count, pages) in [(1, vec![1]), (100, vec![100]), (101, vec![100, 1]), (250, vec![100, 100, 50])] {
        let ids: Vec<String> = (0..count).map(|i| format!("{i}")).collect();
        let mut app = empty_app();
        let mut step = app.get_users(ids.clone(), vec![], false);
        let mut asked = Vec::new();
        for page in pages {
            let (some, then) = asks_ids(step);
            assert_eq!(some.len(), page);
            let answer = some.iter().map(|id| user(id, &format!("u{id}"))).collect();
            asked.extend(some);
            step = resume(then, &mut app, answer);
        }
        assert_eq!(asked, ids);
        assert_eq!(done(step).into_users().len(), count);
    }
}

#[test]
fn ids_are_asked_for_before_names() {
    let mut app = empty_app();
    let names: Vec<String> = (0..101).map(|i| format!("n{i}")).collect();
    let (ids, then) = asks_ids(app.get_users(vec![s("7")], names.clone(), false));
    assert_eq!(ids, vec![s("7")]);
    let (first, then) = asks_logins(resume(then, &mut app, vec![]));
    assert_eq!(first, names[..100].to_vec());
    let (second, then) = asks_logins(resume(then, &mut app, vec![]));
    assert_eq!(second, names[100..].to_vec());
    assert!(done(resume(then, &mut app, vec![])).into_users().is_empty());
}

#[test]
fn found_and_missing_users_are_remembered() {
    let mut app = empty_app();
    let step = app.get_users(vec![s("1"), s("2")], vec![s("three"), s("four")], false);
    let (_, then) = asks_ids(step);
    let (_, then) = asks_logins(resume(then, &mut app, vec![user("1", "one")]));
    assert_eq!(app.users.get_login("1"), None);
    let users = done(resume(then, &mut app, vec![user("3", "three")]));
    assert_eq!(users.get(&s("1")), Some(&s("one")));
    assert_eq!(users.get(&s("3")), Some(&s("three")));
    assert_eq!(app.users.get_login("1"), Some(Some(s("one"))));
    assert_eq!(app.users.get_id("one"), Some(Some(s("1"))));
    assert_eq!(app.users.get_login("2"), Some(None));
    assert_eq!(app.users.get_id("three"), Some(Some(s("3"))));
    assert_eq!(app.users.get_id("four"), Some(None));
}

#[test]
fn a_search_is_not_made_twice() {
    let mut app = empty_app();
    let ids = vec![s("1"), s("2")];
    let names = vec![s("three")];
    let (_, then) = asks_ids(app.get_users(ids.clone(), names.clone(), false));
    let (_, then) = asks_logins(resume(then, &mut app, vec![user("1", "one")]));
    done(resume(then, &mut app, vec![user("3", "other")]));
    let users = done(app.get_users(ids, names, false));
    assert_eq!(users.get(&s("1")), Some(&s("one")));
    assert_eq!(users.into_users().len(), 1);
}

#[test]
fn the_last_user_with_an_id_counts() {
    let mut app = empty_app();
    let (_, then) = asks_ids(app.get_users(vec![s("1")], vec![], false));
    let users = done(resume(then, &mut app, vec![user("1", "one"), user("1", "uno")]));
    assert_eq!(users.get(&s("1")), Some(&s("uno")));
    assert_eq!(app.users.get_login("1"), Some(Some(s("uno"))));
}

#[test]
fn a_failed_request_ends_the_search() {
    let mut app = empty_app();
    let (_, then) = asks_ids(app.get_users(vec![s("1")], vec![], false));
    let result = then.resume(&mut app, Err::<Vec<User>, String>(s("down")));
    assert!(matches!(result, Err(error) if error == "down"));
    assert_eq!(app.users.get_login("1"), None);
}

#[test]
fn a_repeated_search_finds_the_same_users() {
    let mut app = empty_app();
    app.users.insert(s("1"), s("one"));
    let ids = vec![s("1"), s("2"), s("3")];
    let (asked, then) = asks_ids(app.get_users(ids.clone(), vec![], false));
    assert_eq!(asked, vec![s("2"), s("3")]);
    let first = done(resume(then, &mut app, vec![user("2", "two")]));
    let second = done(app.get_users(ids.clone(), vec![], false));
    for id in &ids {
        assert_eq!(first.get(id), second.get(id));
    }
    assert_eq!(first.into_users().len(), 2);
    assert_eq!(second.into_users().len(), 2);
}
