use rustlog::app::{App, ChannelAction, NameStep};
use rustlog::collections::{DashStringSet, StringSet};
use rustlog::error::{Error, Failure};
use rustlog::fetch::{fetch_users, is_unauthorized, ClientRequestError, FetchStep};
use rustlog::search::UsersRequest;
use rustlog::users::{User, UsersCache};
use rustlog::web::optout::{code_of, expire_code, issue_code, optout};

fn s(text: &str) -> String {
    text.to_string()
}

fn empty_app() -> App {
    App {
        users: UsersCache::new(),
        channels: StringSet::new(),
        optout_codes: DashStringSet::new(),
        optout_users: DashStringSet::new(),
    }
}

fn rejection() -> ClientRequestError<String> {
    ClientRequestError::HelixRequestGetError { status: 401, error: s("rejected") }
}

#[test]
fn a_remembered_name_is_not_asked_for() {
    let mut app = empty_app();
    app.users.insert(s("1"), s("one"));
    app.users.insert_optional(None, Some(s("gone")));
    match app.get_user_id_by_name("one") {
        NameStep::Done(answer) => assert_eq!(answer.unwrap(), "1"),
        _ => panic!("asked for"),
    }
    match app.get_user_id_by_name("gone") {
        NameStep::Done(answer) => assert!(matches!(answer, Err(Error::NotFound))),
        _ => panic!("asked for"),
    }
}

#[test]
fn a_name_that_is_looked_up_is_remembered() {
    let mut app = empty_app();
    let NameStep::Fetch { request, then } = app.get_user_id_by_name("One") else {
        panic!("not asked for")
    };
    assert!(matches!(request, UsersRequest::Logins(logins) if logins == vec![s("One")]));
    let users = vec![
        User { id: s("1"), login: s("one") },
        User { id: s("2"), login: s("two") },
    ];
    let id = then.resume(&mut app, Ok::<Vec<User>, String>(users)).unwrap();
    assert_eq!(id, "1");
    assert_eq!(app.users.get_id("one"), Some(Some(s("1"))));
    assert_eq!(app.users.get_login("1"), Some(Some(s("one"))));
    assert_eq!(app.users.get_id("One"), None);
    assert_eq!(app.users.get_id("two"), None);
}

#[test]
fn a_name_that_nobody_has_is_remembered() {
    let mut app = empty_app();
    let NameStep::Fetch { then, .. } = app.get_user_id_by_name("gone") else {
        panic!("not asked for")
    };
    let id = then.resume(&mut app, Ok::<Vec<User>, String>(vec![]));
    assert!(matches!(id, Err(Failure::Refused(Error::NotFound))));
    assert_eq!(app.users.get_id("gone"), Some(None));
}

#[test]
fn a_failed_lookup_is_not_remembered() {
    let mut app = empty_app();
    let NameStep::Fetch { then, .. } = app.get_user_id_by_name("one") else {
        panic!("not asked for")
    };
    let id = then.resume(&mut app, Err::<Vec<User>, String>(s("down")));
    assert!(matches!(id, Err(Failure::Failed(error)) if error == "down"));
    assert_eq!(app.users.get_id("one"), None);
}

#[test]
fn who_has_opted_out_is_refused() {
    let mut app = empty_app();
    assert!(app.check_opted_out("1", Some("2")).is_ok());
    let deleting = app.optout_user("2");
    assert_eq!(deleting.user_id, "2");
    let saving = deleting.resume(&mut app, Ok::<(), String>(())).unwrap();
    assert_eq!(saving.user_id, "2");
    assert!(saving.state);
    assert!(saving.resume(Ok::<(), String>(())).is_ok());
    assert!(matches!(app.check_opted_out("2", None), Err(Error::ChannelOptedOut)));
    assert!(matches!(app.check_opted_out("1", Some("2")), Err(Error::UserOptedOut)));
    assert!(matches!(app.check_opted_out("2", Some("2")), Err(Error::ChannelOptedOut)));
    assert!(app.check_opted_out("1", None).is_ok());
    assert!(app.check_opted_out("1", Some("3")).is_ok());
}

#[test]
fn logs_that_are_not_deleted_stop_an_opt_out() {
    let mut app = empty_app();
    let result = app.optout_user("2").resume(&mut app, Err(s("down")));
    let error = result.err().unwrap();
    assert_eq!(error.context, Some("Could not delete logs"));
    assert_eq!(error.error, "down");
    assert!(app.check_opted_out("2", None).is_ok());
}

#[test]
fn an_opt_out_that_is_not_saved_still_counts() {
    let mut app = empty_app();
    let saving = app.optout_user("2").resume(&mut app, Ok::<(), String>(())).unwrap();
    let error = saving.resume(Err(s("down"))).err().unwrap();
    assert_eq!(error.context, Some("Could not save opt-out state"));
    assert_eq!(error.error, "down");
    assert!(app.check_opted_out("2", None).is_err());
}

#[test]
fn channels_are_joined_and_parted() {
    let mut app = empty_app();
    let joining = app.update_channels(&[s("1"), s("2"), s("1")], ChannelAction::Join);
    assert_eq!(joining.channels, vec![s("1"), s("2"), s("1")]);
    assert!(matches!(joining.action, ChannelAction::Join));
    assert!(app.channels.to_vec().is_empty());
    assert!(joining.resume(&mut app, Ok::<(), String>(())).is_ok());
    assert_eq!(app.channels.to_vec(), vec![s("1"), s("2")]);
    let parting = app.update_channels(&[s("1"), s("3")], ChannelAction::Part);
    assert_eq!(parting.channels, vec![s("1"), s("3")]);
    assert!(matches!(parting.action, ChannelAction::Part));
    assert!(parting.resume(&mut app, Ok::<(), String>(())).is_ok());
    assert_eq!(app.channels.to_vec(), vec![s("2")]);
}

#[test]
fn channels_that_are_not_saved_stay_as_they_are() {
    let mut app = empty_app();
    app.channels.insert(s("1"));
    let joining = app.update_channels(&[s("2")], ChannelAction::Join);
    assert_eq!(joining.resume(&mut app, Err(s("down"))), Err(s("down")));
    let parting = app.update_channels(&[s("1")], ChannelAction::Part);
    assert_eq!(parting.resume(&mut app, Err(s("down"))), Err(s("down")));
    assert_eq!(app.channels.to_vec(), vec![s("1")]);
}

#[test]
fn only_the_unauthorized_status_rejects_a_token() {
    assert!(is_unauthorized(&rejection()));
    assert!(!is_unauthorized(&ClientRequestError::HelixRequestGetError {
        status: 403,
        error: s("forbidden")
    }));
    assert!(!is_unauthorized(&ClientRequestError::Other(s("timeout"))));
}

#[test]
fn a_rejected_request_is_sent_once_more() {
    let sending = fetch_users(UsersRequest::Ids(vec![s("1")]));
    assert!(!sending.again);
    let FetchStep::RefreshToken(refreshing) = sending.resume(Err(rejection())) else {
        panic!("no new token")
    };
    let FetchStep::Send(sending) = refreshing.resume(Ok::<(), String>(())) else {
        panic!("not sent again")
    };
    assert!(matches!(&sending.request, UsersRequest::Ids(ids) if ids == &vec![s("1")]));
    let FetchStep::Done(answer) = sending.resume(Err(rejection())) else {
        panic!("sent a third time")
    };
    assert_eq!(answer.err(), Some(s("rejected")));
}

#[test]
fn a_request_with_a_new_token_is_answered() {
    let sending = fetch_users(UsersRequest::Logins(vec![s("one")]));
    let FetchStep::RefreshToken(refreshing) = sending.resume(Err(rejection())) else {
        panic!("no new token")
    };
    let FetchStep::Send(sending) = refreshing.resume(Ok::<(), String>(())) else {
        panic!("not sent again")
    };
    let users = vec![User { id: s("1"), login: s("one") }];
    let FetchStep::Done(answer) = sending.resume(Ok::<_, ClientRequestError<String>>(users)) else {
        panic!("not answered")
    };
    assert_eq!(answer.unwrap()[0].id, "1");
}

#[test]
fn other_replies_are_the_answer() {
    let sending = fetch_users(UsersRequest::Ids(vec![s("1")]));
    let reply = Err(ClientRequestError::Other(s("timeout")));
    let FetchStep::Done(answer) = sending.resume(reply) else {
        panic!("not answered")
    };
    assert_eq!(answer.err(), Some(s("timeout")));

    let sending = fetch_users(UsersRequest::Ids(vec![s("1")]));
    let reply = Err(ClientRequestError::HelixRequestGetError { status: 500, error: s("broken") });
    let FetchStep::Done(answer) = sending.resume(reply) else {
        panic!("not answered")
    };
    assert_eq!(answer.err(), Some(s("broken")));
}

#[test]
fn a_token_that_cannot_be_replaced_is_the_answer() {
    let sending = fetch_users(UsersRequest::Ids(vec![s("1")]));
    let FetchStep::RefreshToken(refreshing) = sending.resume(Err(rejection())) else {
        panic!("no new token")
    };
    let FetchStep::Done(answer) = refreshing.resume(Err(s("no token"))) else {
        panic!("not answered")
    };
    assert_eq!(answer.err(), Some(s("no token")));
}

#[test]
fn codes_are_five_letters_or_digits() {
    let mut app = empty_app();
    let mut codes = Vec::new();
    for _ in 0..50 {
        let issued = optout(&mut app);
        assert_eq!(issued.lifetime, 60);
        assert_eq!(issued.code.len(), 5);
        assert!(issued.code.chars().all(|c| c.is_ascii_alphanumeric()));
        assert!(app.optout_codes.contains(&issued.code));
        codes.push(issued.code);
    }
    codes.sort();
    codes.dedup();
    assert!(codes.len() > 1);
}

#[test]
fn codes_hold_until_they_expire() {
    let mut app = empty_app();
    assert_eq!(issue_code(&mut app, s("abcde")).code, "abcde");
    issue_code(&mut app, s("12345"));
    assert!(app.optout_codes.contains("abcde"));
    assert!(expire_code(&mut app, "abcde"));
    assert!(!app.optout_codes.contains("abcde"));
    assert!(app.optout_codes.contains("12345"));
    assert!(!expire_code(&mut app, "abcde"));
}

#[test]
fn a_code_is_made_of_the_drawn_characters() {
    assert_eq!(code_of(&vec![b'a', b'Z', b'0', b'a', b'9']), "aZ0a9");
    assert_eq!(code_of(&vec![]), "");
}
