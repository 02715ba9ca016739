use rustlog::app::App;
use rustlog::calendar::{LogRange, Moment};
use rustlog::collections::{DashStringSet, StringSet};
use rustlog::error::{Error, Failure};
use rustlog::search::{UsersRequest, UsersStep};
use rustlog::users::{User, UserMap, UsersCache};
use rustlog::web::caching::{cache_header, no_cache_header, CacheRule, Reading};
use rustlog::web::firehose::{firehose, Firehose, FirehoseStep};
use rustlog::web::handlers::{
    available_logs_response, channel_stats_read, channels_response, get_channel_logs,
    get_channel_logs_all, get_channel_logs_by_date, get_channel_logs_by_month, get_channel_stats,
    get_channels, get_user_logs, get_user_logs_all, get_user_logs_by_date,
    get_user_logs_by_date_all_channels, get_user_name_history, get_user_stats,
    list_available_logs, random_channel_line, random_user_line, search_global_logs_route,
    search_user_logs, StatsRow,
};
use rustlog::web::params::{
    AvailableLogsParams, ChannelIdType, ChannelLogsByDatePath, ChannelLogsByMonthPath,
    ChannelParam, LogsParams, LogsPathChannel, LogsPathDate, SearchParams, UserIdType, UserLogPathParams,
    UserLogsDatePath, UserLogsPath, UserNameHistoryParam, UserParam,
};
use rustlog::web::redirect::Redirection;
use rustlog::web::steps::{AvailableQuery, NameGoal, RangeQuery, ReadQuery, Step};

type WebStep = Step<u8, char, u32>;
type Started = Result<WebStep, Error>;
type Resumed = Result<WebStep, Failure<String>>;

fn s(text: &str) -> String {
    text.to_string()
}

/// An app in which the user 9 has opted out.
fn app() -> App {
    let mut app = App {
        users: UsersCache::new(),
        channels: StringSet::new(),
        optout_codes: DashStringSet::new(),
        optout_users: DashStringSet::new(),
    };
    app.optout_users.insert(s("9"));
    app
}

/// Logs that are read with 7 and sent as 'j'.
fn wanted() -> LogsParams<u8, char> {
    LogsParams { read: 7, response_type: 'j' }
}

fn started(step: Started) -> Started {
    step
}

fn resumed(step: Resumed) -> Resumed {
    step
}

fn channel_id(id: &str) -> LogsPathChannel {
    LogsPathChannel { channel_id_type: ChannelIdType::Id, channel: s(id) }
}

fn channel_name(name: &str) -> LogsPathChannel {
    LogsPathChannel { channel_id_type: ChannelIdType::Name, channel: s(name) }
}

fn user_id(id: &str) -> UserLogsPath {
    UserLogsPath { user_id_type: UserIdType::Id, user: s(id) }
}

fn ids(channel: &str, user: &str) -> UserLogPathParams {
    UserLogPathParams {
        channel_id_type: ChannelIdType::Id,
        channel: s(channel),
        user_id_type: UserIdType::Id,
        user: s(user),
    }
}

fn names(channel: &str, user: &str) -> UserLogPathParams {
    UserLogPathParams {
        channel_id_type: ChannelIdType::Name,
        channel: s(channel),
        user_id_type: UserIdType::Name,
        user: s(user),
    }
}

fn month(year: &str, month: &str) -> UserLogsDatePath {
    UserLogsDatePath { year: s(year), month: s(month) }
}

fn range(from: i64, to: i64) -> LogRange {
    LogRange { from: Moment { seconds: from, nanos: 0 }, to: Moment { seconds: to, nanos: 0 } }
}

fn february() -> LogRange {
    range(1706745600, 1709251200)
}

fn refusal(step: Started) -> Error {
    match step {
        Err(error) => error,
        Ok(_) => panic!("not refused"),
    }
}

fn name_step(step: Started) -> (String, NameGoal<u8, char, u32>) {
    match step {
        Ok(Step::ResolveName { name, then }) => (name, then),
        _ => panic!("no name is looked for"),
    }
}

fn found(id: &str) -> Result<String, Failure<String>> {
    Ok(s(id))
}

fn read_step(step: WebStep) -> (ReadQuery<u8>, Reading<char>) {
    match step {
        Step::Read { query, then } => (query, then),
        _ => panic!("no logs are read"),
    }
}

#[test]
fn logs_of_a_channel_in_a_range() {
    let step = get_channel_logs(&app(), channel_id("1"), s("channelid"), Some(range(5, 9)), wanted(), None);
    let (query, then) = read_step(step.unwrap());
    assert!(matches!(query, ReadQuery::Channel { channel_id, params: 7, range: r }
        if channel_id == "1" && r == range(5, 9)));
    assert!(matches!(then.cache, CacheRule::RangeEnd(end) if end == range(5, 9).to));
    let step = get_channel_logs(&app(), channel_id("9"), s("channelid"), Some(range(5, 9)), wanted(), None);
    assert!(matches!(refusal(step), Error::ChannelOptedOut));
}

#[test]
fn newest_logs_of_a_channel() {
    for opted in ["1", "9"] {
        let step = get_channel_logs(&app(), channel_id(opted), s("channelid"), None, wanted(), Some(s("raw&reverse")));
        let Ok(Step::FindLatest { query, then }) = started(step) else {
            panic!("the newest logs are not looked for")
        };
        assert!(matches!(query, AvailableQuery::Channel { channel_id } if channel_id == opted));
        let address = then.resume(Ok::<_, String>(vec![s("2024/2/29"), s("2024/2/28")]));
        assert_eq!(address.unwrap(), format!("/channelid/{opted}/2024/2/29?raw&reverse"));
    }
}

#[test]
fn newest_logs_of_a_named_channel_keep_the_name() {
    let step = get_channel_logs(&app(), channel_name("one"), s("channel"), None, wanted(), None);
    let (name, then) = name_step(step);
    assert_eq!(name, "one");
    let Ok(Step::FindLatest { query, then }) = then.resume(&app(), found("1")) else {
        panic!("the newest logs are not looked for")
    };
    assert!(matches!(query, AvailableQuery::Channel { channel_id } if channel_id == "1"));
    let address = then.resume(Ok::<_, String>(vec![s("2024/2/29")]));
    assert_eq!(address.unwrap(), "/channel/one/2024/2/29");
}

#[test]
fn without_logs_there_are_no_newest_ones() {
    let redirection = Redirection::Channel { id_word: s("channel"), channel: s("one"), query: None };
    let address = redirection.resume(Ok::<Vec<String>, String>(vec![]));
    assert!(matches!(address, Err(Failure::Refused(Error::NotFound))));
    let redirection = Redirection::Channel { id_word: s("channel"), channel: s("one"), query: None };
    let address = redirection.resume(Err(s("down")));
    assert!(matches!(address, Err(Failure::Failed(error)) if error == "down"));
}

#[test]
fn logs_of_a_channel_of_a_day() {
    let date = || LogsPathDate { year: s("2024"), month: s("2"), day: s("29") };
    let path = ChannelLogsByDatePath { channel_info: channel_id("1"), date: date() };
    let (query, then) = read_step(get_channel_logs_by_date(&app(), path, wanted()).unwrap());
    let day = range(1709164800, 1709251200);
    assert!(matches!(query, ReadQuery::Channel { channel_id, params: 7, range } if channel_id == "1" && range == day));
    assert!(matches!(then.cache, CacheRule::RangeEnd(end) if end == day.to));
    let path = ChannelLogsByDatePath { channel_info: channel_id("9"), date: date() };
    assert!(matches!(refusal(get_channel_logs_by_date(&app(), path, wanted())), Error::ChannelOptedOut));
}

#[test]
fn a_date_is_read_before_a_channel_is_refused() {
    let date = LogsPathDate { year: s("2023"), month: s("2"), day: s("29") };
    let path = ChannelLogsByDatePath { channel_info: channel_id("9"), date };
    let error = refusal(get_channel_logs_by_date(&app(), path, wanted()));
    assert!(matches!(error, Error::InvalidParam(text) if text == "Invalid date"));
    let path = ChannelLogsByMonthPath { channel_info: channel_id("9"), date: month("x", "1") };
    assert!(matches!(refusal(get_channel_logs_by_month(&app(), path, wanted())), Error::ParseInt(_)));
}

#[test]
fn a_name_is_looked_for_before_a_date_is_read() {
    let path = ChannelLogsByMonthPath { channel_info: channel_name("one"), date: month("x", "1") };
    let (name, then) = name_step(get_channel_logs_by_month(&app(), path, wanted()));
    assert_eq!(name, "one");
    let step = then.resume(&app(), found("1"));
    assert!(matches!(step, Err(Failure::Refused(Error::ParseInt(_)))));
}

#[test]
fn logs_of_a_channel_of_a_month() {
    let path = ChannelLogsByMonthPath { channel_info: channel_id("1"), date: month("2024", "2") };
    let (query, _) = read_step(get_channel_logs_by_month(&app(), path, wanted()).unwrap());
    assert!(matches!(query, ReadQuery::Channel { channel_id, params: 7, range } if channel_id == "1" && range == february()));
    let path = ChannelLogsByMonthPath { channel_info: channel_id("9"), date: month("2024", "2") };
    assert!(matches!(refusal(get_channel_logs_by_month(&app(), path, wanted())), Error::ChannelOptedOut));
}

#[test]
fn all_logs_of_a_channel() {
    let Ok(Step::FindRange(query)) = started(get_channel_logs_all(&app(), channel_id("1"), wanted())) else {
        panic!("no range is looked for")
    };
    assert!(matches!(&query, RangeQuery::Channel { channel_id, .. } if channel_id == "1"));
    let step = query.resume(&app(), Ok::<_, String>(Some(february())));
    let (query, then) = read_step(step.unwrap());
    assert!(matches!(query, ReadQuery::Channel { channel_id, params: 7, range } if channel_id == "1" && range == february()));
    assert!(matches!(then.cache, CacheRule::RangeEnd(end) if end == february().to));
    assert!(matches!(refusal(get_channel_logs_all(&app(), channel_id("9"), wanted())), Error::ChannelOptedOut));
}

#[test]
fn a_channel_that_opts_out_meanwhile_is_refused() {
    let Ok(Step::FindRange(query)) = started(get_channel_logs_all(&app(), channel_id("1"), wanted())) else {
        panic!("no range is looked for")
    };
    let mut later = app();
    later.optout_users.insert(s("1"));
    let step = resumed(query.resume(&later, Ok(Some(february()))));
    assert!(matches!(step, Err(Failure::Refused(Error::ChannelOptedOut))));
}

#[test]
fn without_a_range_there_are_no_logs() {
    let step = resumed(RangeQuery::User { user_id: s("1"), params: wanted() }.resume(&app(), Ok(None)));
    assert!(matches!(step, Err(Failure::Refused(Error::NotFound))));
    let step = resumed(RangeQuery::Channel { channel_id: s("1"), params: wanted() }.resume(&app(), Err(s("down"))));
    assert!(matches!(step, Err(Failure::Failed(error)) if error == "down"));
}

#[test]
fn logs_of_a_user_in_a_range() {
    let step = get_user_logs(&app(), ids("1", "2"), s("channelid"), s("userid"), Some(range(5, 9)), wanted(), None);
    let (query, then) = read_step(step.unwrap());
    assert!(matches!(query, ReadQuery::User { channel_id, user_id, params: 7, range: r }
        if channel_id == "1" && user_id == "2" && r == range(5, 9)));
    assert!(matches!(then.cache, CacheRule::RangeEnd(end) if end == range(5, 9).to));
}

#[test]
fn newest_logs_of_a_user() {
    let step = get_user_logs(&app(), names("one", "two"), s("channel"), s("user"), None, wanted(), Some(s("json")));
    let (name, then) = name_step(step);
    assert_eq!(name, "one");
    let (name, then) = match then.resume(&app(), found("1")) {
        Ok(Step::ResolveName { name, then }) => (name, then),
        _ => panic!("the user is not looked for"),
    };
    assert_eq!(name, "two");
    let Ok(Step::FindLatest { query, then }) = then.resume(&app(), found("2")) else {
        panic!("the newest logs are not looked for")
    };
    assert!(matches!(query, AvailableQuery::User { channel_id, user_id } if channel_id == "1" && user_id == "2"));
    let address = then.resume(Ok::<_, String>(vec![s("2024/2")]));
    assert_eq!(address.unwrap(), "/channel/one/user/two/2024/2?json");
}

#[test]
fn what_is_asked_of_who_has_opted_out_is_refused() {
    let search = || SearchParams { q: s("hello") };
    for (params, channel) in [(("9", "2"), true), (("9", "9"), true), (("1", "9"), false)] {
        let steps = vec![
            get_user_logs(&app(), ids(params.0, params.1), s("channelid"), s("userid"), None, wanted(), None),
            get_user_logs_by_date(&app(), ids(params.0, params.1), month("x", "x"), wanted()),
            random_user_line(&app(), ids(params.0, params.1), wanted()),
            search_user_logs(&app(), ids(params.0, params.1), search(), wanted()),
            get_user_stats(&app(), ids(params.0, params.1), 31),
        ];
        for step in steps {
            match refusal(step) {
                Error::ChannelOptedOut => assert!(channel),
                Error::UserOptedOut => assert!(!channel),
                other => panic!("{:?}", other),
            }
        }
    }
    let steps = vec![
        get_user_logs_all(&app(), user_id("9"), wanted()),
        get_user_logs_by_date_all_channels(&app(), user_id("9"), month("x", "x"), wanted()),
        get_user_name_history(&app(), UserNameHistoryParam { user_id: s("9") }),
    ];
    for step in steps {
        assert!(matches!(refusal(step), Error::ChannelOptedOut));
    }
}

#[test]
fn a_user_who_opts_out_under_a_name_is_refused() {
    let (_, then) = name_step(random_user_line(&app(), names("one", "nine"), wanted()));
    let Ok(Step::ResolveName { then, .. }) = then.resume(&app(), found("1")) else {
        panic!("the user is not looked for")
    };
    let step = then.resume(&app(), found("9"));
    assert!(matches!(step, Err(Failure::Refused(Error::UserOptedOut))));
}

#[test]
fn a_name_that_is_not_found_ends_a_request() {
    let (_, then) = name_step(get_channel_stats(&app(), channel_name("one"), 31));
    let step = then.resume(&app(), Err::<String, Failure<String>>(Failure::Refused(Error::NotFound)));
    assert!(matches!(step, Err(Failure::Refused(Error::NotFound))));
    let (_, then) = name_step(get_user_stats(&app(), names("one", "two"), 31));
    let step = then.resume(&app(), Err::<String, _>(Failure::Failed(s("down"))));
    assert!(matches!(step, Err(Failure::Failed(error)) if error == "down"));
}

#[test]
fn logs_of_a_user_of_a_month() {
    let (query, _) = read_step(get_user_logs_by_date(&app(), ids("1", "2"), month("2024", "2"), wanted()).unwrap());
    assert!(matches!(query, ReadQuery::User { channel_id, user_id, params: 7, range }
        if channel_id == "1" && user_id == "2" && range == february()));
    let error = refusal(get_user_logs_by_date(&app(), ids("1", "2"), month("2024", "0"), wanted()));
    assert!(matches!(error, Error::InvalidParam(text) if text == "Invalid date"));
}

#[test]
fn logs_of_a_user_in_all_channels() {
    let Ok(Step::FindRange(query)) = started(get_user_logs_all(&app(), user_id("2"), wanted())) else {
        panic!("no range is looked for")
    };
    let (query, then) = read_step(query.resume(&app(), Ok::<_, String>(Some(february()))).unwrap());
    assert!(matches!(query, ReadQuery::UserAllChannels { user_id, params: 7, range }
        if user_id == "2" && range == february()));
    assert!(matches!(then.cache, CacheRule::RangeEnd(end) if end == february().to));

    let step = get_user_logs_by_date_all_channels(&app(), user_id("2"), month("2024", "2"), wanted());
    let (query, _) = read_step(step.unwrap());
    assert!(matches!(query, ReadQuery::UserAllChannels { user_id, params: 7, range }
        if user_id == "2" && range == february()));

    let path = UserLogsPath { user_id_type: UserIdType::Name, user: s("two") };
    let (name, then) = name_step(get_user_logs_all(&app(), path, wanted()));
    assert_eq!(name, "two");
    assert!(matches!(then.resume(&app(), found("2")), Ok(Step::FindRange(RangeQuery::User { user_id, .. })) if user_id == "2"));
}

#[test]
fn random_lines_are_not_kept() {
    let (query, then) = read_step(random_channel_line(&app(), channel_id("9"), wanted()).unwrap());
    assert!(matches!(query, ReadQuery::RandomChannelLine { channel_id } if channel_id == "9"));
    assert!(matches!(then.cache, CacheRule::Never));
    let (query, then) = read_step(random_user_line(&app(), ids("1", "2"), wanted()).unwrap());
    assert!(matches!(query, ReadQuery::RandomUserLine { channel_id, user_id }
        if channel_id == "1" && user_id == "2"));
    let answer = then.resume(Ok::<&str, String>("line")).unwrap();
    assert_eq!(answer.cache, Some(no_cache_header()));
    assert_eq!(answer.stream, "line");
    assert_eq!(answer.response_type, 'j');
}

#[test]
fn searches_say_nothing_about_being_kept() {
    let step = search_user_logs(&app(), ids("1", "2"), SearchParams { q: s("hello") }, wanted());
    let (query, then) = read_step(step.unwrap());
    assert!(matches!(query, ReadQuery::SearchUser { channel_id, user_id, q, params: 7 }
        if channel_id == "1" && user_id == "2" && q == "hello"));
    assert_eq!(then.resume(Ok::<&str, String>("lines")).unwrap().cache, None);
    let (query, then) = read_step(search_global_logs_route(SearchParams { q: s("hello") }, wanted()));
    assert!(matches!(query, ReadQuery::SearchGlobal { q, params: 7 } if q == "hello"));
    assert!(matches!(then.cache, CacheRule::Unstated));
}

#[test]
fn available_logs() {
    let step = started(list_available_logs(&app(), AvailableLogsParams {
        channel: Some(ChannelParam::ChannelId(s("1"))),
        user: Some(UserParam::UserId(s("2"))),
    }));
    assert!(matches!(step, Ok(Step::ListAvailable(AvailableQuery::User { channel_id, user_id }))
        if channel_id == "1" && user_id == "2"));

    let step = started(list_available_logs(&app(), AvailableLogsParams {
        channel: Some(ChannelParam::ChannelId(s("1"))),
        user: None,
    }));
    assert!(matches!(step, Ok(Step::ListAvailable(AvailableQuery::Channel { channel_id }))
        if channel_id == "1"));

    let step = started(list_available_logs(&app(), AvailableLogsParams {
        channel: None,
        user: Some(UserParam::User(s("two"))),
    }));
    let (name, then) = name_step(step);
    assert_eq!(name, "two");
    let step = then.resume(&app(), found("2"));
    assert!(matches!(step, Ok(Step::ListAvailable(AvailableQuery::UserAllChannels { user_id }))
        if user_id == "2"));

    let step = started(list_available_logs(&app(), AvailableLogsParams {
        channel: Some(ChannelParam::Channel(s("one"))),
        user: Some(UserParam::UserId(s("9"))),
    }));
    let (name, then) = name_step(step);
    assert_eq!(name, "one");
    let step = then.resume(&app(), found("1"));
    assert!(matches!(step, Err(Failure::Refused(Error::UserOptedOut))));
}

#[test]
fn available_logs_of_nobody() {
    let step = started(list_available_logs(&app(), AvailableLogsParams { channel: None, user: None }));
    let error = refusal(step);
    assert!(matches!(error, Error::InvalidParam(text)
        if text == "Must specify at least one of channel or user"));
}

#[test]
fn a_list_of_logs_may_be_kept_for_ten_minutes() {
    let response = available_logs_response(Ok::<_, String>(vec![1, 2])).unwrap();
    assert_eq!(response.cache, cache_header(600));
    assert_eq!(response.available_logs, vec![1, 2]);
    let response = available_logs_response(Ok::<Vec<u8>, String>(vec![]));
    assert!(matches!(response, Err(Failure::Refused(Error::NotFound))));
    let response = available_logs_response(Err::<Vec<u8>, _>(s("down")));
    assert!(matches!(response, Err(Failure::Failed(error)) if error == "down"));
}

#[test]
fn names_of_a_user() {
    let step: Started = get_user_name_history(&app(), UserNameHistoryParam { user_id: s("2") });
    assert!(matches!(step, Ok(Step::ReadNameHistory { user_id }) if user_id == "2"));
}

#[test]
fn list_of_channels() {
    let mut app = app();
    app.channels.insert(s("1"));
    app.channels.insert(s("2"));
    app.users.insert(s("1"), s("one"));
    let UsersStep::Fetch { request, then } = get_channels(&mut app) else {
        panic!("not asked for")
    };
    assert!(matches!(request, UsersRequest::Ids(ids) if ids == vec![s("2")]));
    let users = vec![User { id: s("2"), login: s("two") }];
    let Ok(UsersStep::Done(users)) = then.resume(&mut app, Ok::<_, String>(users)) else {
        panic!("not done")
    };
    let list = channels_response(users);
    assert_eq!(list.cache, cache_header(600));
    let mut channels: Vec<(String, String)> =
        list.channels.into_iter().map(|channel| (channel.user_id, channel.name)).collect();
    channels.sort();
    assert_eq!(channels, vec![(s("1"), s("one")), (s("2"), s("two"))]);
}

#[test]
fn statistics_of_a_channel() {
    let mut app = app();
    let Ok(Step::ReadChannelStats { channel_id, range_params }) = started(get_channel_stats(&app, channel_id("9"), 31)) else {
        panic!("no statistics are read")
    };
    assert_eq!(channel_id, "9");
    assert_eq!(range_params, 31);
    let rows = vec![
        StatsRow { user_id: s("1"), cnt: 30 },
        StatsRow { user_id: s("2"), cnt: 20 },
        StatsRow { user_id: s("1"), cnt: 10 },
    ];
    let naming = channel_stats_read(Ok::<_, String>((75, rows))).unwrap();
    app.users.insert(s("1"), s("one"));
    app.users.insert_optional(Some(s("2")), None);
    let UsersStep::Done(users) = naming.search(&mut app) else {
        panic!("asked for")
    };
    let stats = naming.resume(Ok::<_, String>(users)).unwrap();
    assert_eq!(stats.message_count, 75);
    let chatters: Vec<_> = stats
        .top_chatters
        .into_iter()
        .map(|chatter| (chatter.user_id, chatter.user_login, chatter.message_count))
        .collect();
    assert_eq!(
        chatters,
        vec![(s("1"), Some(s("one")), 30), (s("2"), None, 20), (s("1"), None, 10)]
    );
}

#[test]
fn statistics_that_fail() {
    let naming = channel_stats_read(Err::<(u64, Vec<StatsRow>), _>(s("down")));
    assert!(matches!(naming, Err(Failure::Failed(error)) if error == "down"));
    let naming = channel_stats_read(Ok::<_, String>((0, vec![]))).unwrap();
    let stats = naming.resume(Err::<UserMap, _>(s("down")));
    assert!(matches!(stats, Err(Failure::Failed(error)) if error == "down"));
}

#[test]
fn statistics_of_a_user() {
    let mut app = app();
    let Ok(Step::FindLogin(goal)) = started(get_user_stats(&app, ids("1", "2"), 31)) else {
        panic!("the user is not looked for")
    };
    let UsersStep::Fetch { request, then } = goal.search(&mut app) else {
        panic!("not asked for")
    };
    assert!(matches!(request, UsersRequest::Ids(ids) if ids == vec![s("2")]));
    let users = vec![User { id: s("2"), login: s("two") }];
    let Ok(UsersStep::Done(users)) = then.resume(&mut app, Ok::<_, String>(users)) else {
        panic!("not done")
    };
    let step = resumed(goal.resume(Ok(users)));
    assert!(matches!(step, Ok(Step::ReadUserStats { channel_id, user_id, user_login, range_params: 31 })
        if channel_id == "1" && user_id == "2" && user_login == Some(s("two"))));

    let Ok(Step::FindLogin(goal)) = started(get_user_stats(&app, ids("1", "3"), 31)) else {
        panic!("the user is not looked for")
    };
    let step = resumed(goal.resume(Ok(UserMap::new())));
    assert!(matches!(step, Ok(Step::ReadUserStats { user_id, user_login: None, .. }) if user_id == "3"));

    let Ok(Step::FindLogin(goal)) = started(get_user_stats(&app, ids("1", "3"), 31)) else {
        panic!("the user is not looked for")
    };
    let step = resumed(goal.resume(Err(s("down"))));
    assert!(matches!(step, Err(Failure::Failed(error)) if error == "down"));
}

#[test]
fn only_finished_ranges_are_kept() {
    let rule = CacheRule::RangeEnd(Moment { seconds: 100, nanos: 0 });
    let before = Moment { seconds: 99, nanos: 999999999 };
    let end = Moment { seconds: 100, nanos: 0 };
    let after = Moment { seconds: 200, nanos: 0 };
    assert_eq!(rule.header_at(before), Some(no_cache_header()));
    assert_eq!(rule.header_at(end), Some(cache_header(36000)));
    assert_eq!(rule.header_at(after), Some(cache_header(36000)));
    assert_eq!(CacheRule::Never.header_at(after), Some(no_cache_header()));
    assert_eq!(CacheRule::Unstated.header_at(before), None);
    let answer = Reading { cache: rule, response_type: 'j' }.respond(before, Ok::<u8, String>(7)).unwrap();
    assert_eq!(answer.stream, 7);
    assert_eq!(answer.response_type, 'j');
    assert_eq!(answer.cache, Some(no_cache_header()));
    let answer = Reading { cache: rule, response_type: 'j' }.respond(before, Err::<u8, _>(s("down")));
    assert!(matches!(answer, Err(Failure::Failed(error)) if error == "down"));
}

#[test]
fn ranges_end_by_the_clock() {
    let past = CacheRule::RangeEnd(Moment { seconds: 1700000000, nanos: 0 });
    let answer = Reading { cache: past, response_type: 'j' }.resume(Ok::<u8, String>(7)).unwrap();
    assert_eq!(answer.cache, Some(cache_header(36000)));
    let future = CacheRule::RangeEnd(Moment { seconds: 100000000000, nanos: 0 });
    let answer = Reading { cache: future, response_type: 'j' }.resume(Ok::<u8, String>(7)).unwrap();
    assert_eq!(answer.cache, Some(no_cache_header()));
}

#[test]
fn headers() {
    let header = cache_header(600);
    assert!(header.public && !header.no_cache);
    assert_eq!(header.max_age, Some(600));
    let header = no_cache_header();
    assert!(!header.public && header.no_cache);
    assert_eq!(header.max_age, None);
}

#[test]
fn a_stream_of_json() {
    let stream = firehose(true);
    let step: FirehoseStep<u8, u16> = stream.received(Ok::<u8, String>(1));
    assert!(matches!(step, FirehoseStep::ToBasic(1)));
    let step: FirehoseStep<u8, u16> = stream.converted(Ok::<u16, String>(2));
    assert!(matches!(step, FirehoseStep::ToJson(2)));
    let step: FirehoseStep<u8, u16> = stream.encoded(Ok::<String, String>(s("{}")));
    assert!(matches!(step, FirehoseStep::Send(text) if text == "{}"));
    let step: FirehoseStep<u8, u16> = stream.sent(Ok::<(), String>(()));
    assert!(matches!(step, FirehoseStep::Receive));
}

#[test]
fn a_stream_of_irc() {
    let stream = firehose(false);
    let step: FirehoseStep<u8, u16> = stream.received(Ok::<u8, String>(1));
    assert!(matches!(step, FirehoseStep::ToRawIrc(1)));
    let step: FirehoseStep<u8, u16> = stream.encoded(Ok::<String, String>(s("PRIVMSG")));
    assert!(matches!(step, FirehoseStep::Send(text) if text == "PRIVMSG"));
}

#[test]
fn a_message_that_cannot_be_written_is_passed_over() {
    let stream = firehose(true);
    let step: FirehoseStep<u8, u16> = stream.converted(Err::<u16, String>(s("broken")));
    assert!(matches!(step, FirehoseStep::Receive));
    let step: FirehoseStep<u8, u16> = stream.encoded(Err::<String, String>(s("broken")));
    assert!(matches!(step, FirehoseStep::Receive));
}

#[test]
fn a_stream_that_ends_is_closed() {
    for stream in [firehose(true), firehose(false)] {
        let step: FirehoseStep<u8, u16> = stream.received(Err::<u8, String>(s("closed")));
        assert!(matches!(step, FirehoseStep::Close));
        let step: FirehoseStep<u8, u16> = stream.sent(Err::<(), String>(s("gone")));
        assert!(matches!(step, FirehoseStep::Close));
    }
}

/// The texts that are sent for messages: each has its number, and its basic parts and its text
/// where it has them.
fn run(stream: Firehose, inbox: &[(u8, Option<u16>, Option<&str>)], room: usize) -> Vec<String> {
    let mut sent = Vec::new();
    let mut inbox = inbox.iter();
    let mut current = (0, None, None);
    let mut step: FirehoseStep<u8, u16> = FirehoseStep::Receive;
    loop {
        step = match step {
            FirehoseStep::Receive => match inbox.next() {
                Some(passage) => {
                    current = *passage;
                    stream.received(Ok::<u8, String>(current.0))
                }
                None => stream.received(Err(s("closed"))),
            },
            FirehoseStep::ToBasic(message) => {
                assert_eq!(message, current.0);
                stream.converted(current.1.ok_or(s("broken")))
            }
            FirehoseStep::ToJson(_) | FirehoseStep::ToRawIrc(_) => {
                stream.encoded(current.2.map(s).ok_or(s("broken")))
            }
            FirehoseStep::Send(text) => {
                if sent.len() < room {
                    sent.push(text);
                    stream.sent(Ok::<(), String>(()))
                } else {
                    stream.sent(Err(s("gone")))
                }
            }
            FirehoseStep::Close => return sent,
        };
    }
}

#[test]
fn a_stream_sends_what_can_be_written() {
    let inbox = [
        (1, Some(1), Some("a")),
        (2, None, Some("b")),
        (3, Some(3), None),
        (4, Some(4), Some("d")),
        (5, Some(5), Some("e")),
    ];
    assert_eq!(run(firehose(true), &inbox, 9), vec![s("a"), s("d"), s("e")]);
    assert_eq!(run(firehose(true), &inbox, 2), vec![s("a"), s("d")]);
    assert_eq!(run(firehose(false), &inbox, 9), vec![s("a"), s("b"), s("d"), s("e")]);
    assert!(run(firehose(false), &inbox, 0).is_empty());
    assert!(run(firehose(true), &[], 9).is_empty());
}
