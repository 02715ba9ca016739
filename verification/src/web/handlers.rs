//! The requests that the web interface takes, each with what it needs first.

use crate::app::App;
use crate::calendar::LogRange;
use crate::collections::lists_members;
use crate::error::{outcome, Error, Failure, Refusal};
use crate::search::{planned, UsersStep};
use crate::users::{User, UserMap};
use crate::web::caching::{
    cache_header, kept_for, CacheControl, CacheRule, Reading, LISTING_MAX_AGE,
};
use crate::web::params::{
    AvailableLogsParams, ChannelIdType, ChannelLogsByDatePath, ChannelLogsByMonthPath,
    ChannelParam, LogsParams, LogsPathChannel, SearchParams, UserIdType, UserLogPathParams,
    UserLogsDatePath, UserLogsPath, UserNameHistoryParam, UserParam,
};
use crate::web::steps::{
    channel_path_step, everywhere_path_step, guarded, resolve_user_params, respects,
    start_channel_path, start_everywhere_path, user_path_step, ChannelGoal, EverywhereGoal,
    Purpose, ReadQuery, Step, UserGoal,
};
use vstd::prelude::*;

pub use crate::web::caching::no_cache_header;
pub use crate::web::firehose::firehose;
pub use crate::web::optout::optout;

verus! {

/// The logs of a channel in a range. Without one, the request is sent on to the newest logs:
/// `id_word` is the word by which addresses tell the name of a channel from its id, and `query`
/// the query of the request.
pub fn get_channel_logs<P, T, R>(
    app: &App,
    path: LogsPathChannel,
    id_word: String,
    range: Option<LogRange>,
    logs_params: LogsParams<P, T>,
    query: Option<String>,
) -> (step: Result<Step<P, T, R>, Error>)
    ensures
        outcome(step) == channel_path_step::<P, T, R>(
            app.opted_out(),
            path,
            ChannelGoal::Logs { id_word, channel: path.channel, range, params: logs_params, query },
        ),
{
    let channel = path.channel.clone();
    start_channel_path(
        app,
        path,
        ChannelGoal::Logs { id_word, channel, range, params: logs_params, query },
    )
}

/// How many messages a channel has in a range, and whose.
pub fn get_channel_stats<P, T, R>(app: &App, path: LogsPathChannel, range_params: R) -> (step:
    Result<Step<P, T, R>, Error>)
    ensures
        outcome(step) == channel_path_step::<P, T, R>(
            app.opted_out(),
            path,
            ChannelGoal::Stats { range_params },
        ),
{
    start_channel_path(app, path, ChannelGoal::Stats { range_params })
}

/// How many messages a user has in a channel in a range.
pub fn get_user_stats<P, T, R>(app: &App, params: UserLogPathParams, range_params: R) -> (step:
    Result<Step<P, T, R>, Error>)
    ensures
        outcome(step) == user_path_step::<P, T, R>(
            app.opted_out(),
            params,
            UserGoal::Stats { range_params },
        ),
{
    resolve_user_params(app, params, UserGoal::Stats { range_params })
}

/// The logs of a channel of a day.
pub fn get_channel_logs_by_date<P, T, R>(
    app: &App,
    path: ChannelLogsByDatePath,
    logs_params: LogsParams<P, T>,
) -> (step: Result<Step<P, T, R>, Error>)
    ensures
        outcome(step) == channel_path_step::<P, T, R>(
            app.opted_out(),
            path.channel_info,
            ChannelGoal::ByDate { date: path.date, params: logs_params },
        ),
{
    start_channel_path(
        app,
        path.channel_info,
        ChannelGoal::ByDate { date: path.date, params: logs_params },
    )
}

/// The logs of a channel of a month.
pub fn get_channel_logs_by_month<P, T, R>(
    app: &App,
    path: ChannelLogsByMonthPath,
    logs_params: LogsParams<P, T>,
) -> (step: Result<Step<P, T, R>, Error>)
    ensures
        outcome(step) == channel_path_step::<P, T, R>(
            app.opted_out(),
            path.channel_info,
            ChannelGoal::ByMonth { month: path.date, params: logs_params },
        ),
{
    start_channel_path(
        app,
        path.channel_info,
        ChannelGoal::ByMonth { month: path.date, params: logs_params },
    )
}

/// All the logs of a channel.
pub fn get_channel_logs_all<P, T, R>(
    app: &App,
    path: LogsPathChannel,
    logs_params: LogsParams<P, T>,
) -> (step: Result<Step<P, T, R>, Error>)
    ensures
        outcome(step) == channel_path_step::<P, T, R>(
            app.opted_out(),
            path,
            ChannelGoal::All { params: logs_params },
        ),
{
    start_channel_path(app, path, ChannelGoal::All { params: logs_params })
}

/// The logs of a user in a channel in a range. Without one, the request is sent on to the newest
/// logs: the words are those by which addresses tell names from ids, and `query` is the query of
/// the request.
pub fn get_user_logs<P, T, R>(
    app: &App,
    params: UserLogPathParams,
    channel_word: String,
    user_word: String,
    range: Option<LogRange>,
    logs_params: LogsParams<P, T>,
    query: Option<String>,
) -> (step: Result<Step<P, T, R>, Error>)
    ensures
        outcome(step) == user_path_step::<P, T, R>(
            app.opted_out(),
            params,
            UserGoal::Logs {
                channel_word,
                channel: params.channel,
                user_word,
                user: params.user,
                range,
                params: logs_params,
                query,
            },
        ),
{
    let channel = params.channel.clone();
    let user = params.user.clone();
    resolve_user_params(
        app,
        params,
        UserGoal::Logs {
            channel_word,
            channel,
            user_word,
            user,
            range,
            params: logs_params,
            query,
        },
    )
}

/// The logs of a user in a channel of a month.
pub fn get_user_logs_by_date<P, T, R>(
    app: &App,
    params: UserLogPathParams,
    date: UserLogsDatePath,
    logs_params: LogsParams<P, T>,
) -> (step: Result<Step<P, T, R>, Error>)
    ensures
        outcome(step) == user_path_step::<P, T, R>(
            app.opted_out(),
            params,
            UserGoal::ByMonth { month: date, params: logs_params },
        ),
{
    resolve_user_params(app, params, UserGoal::ByMonth { month: date, params: logs_params })
}

/// All the logs of a user, in all channels.
pub fn get_user_logs_all<P, T, R>(
    app: &App,
    path: UserLogsPath,
    logs_params: LogsParams<P, T>,
) -> (step: Result<Step<P, T, R>, Error>)
    ensures
        outcome(step) == everywhere_path_step::<P, T, R>(
            app.opted_out(),
            path,
            EverywhereGoal::All { params: logs_params },
        ),
{
    start_everywhere_path(app, path, EverywhereGoal::All { params: logs_params })
}

/// The logs of a user of a month, in all channels.
pub fn get_user_logs_by_date_all_channels<P, T, R>(
    app: &App,
    path: UserLogsPath,
    date: UserLogsDatePath,
    logs_params: LogsParams<P, T>,
) -> (step: Result<Step<P, T, R>, Error>)
    ensures
        outcome(step) == everywhere_path_step::<P, T, R>(
            app.opted_out(),
            path,
            EverywhereGoal::ByMonth { month: date, params: logs_params },
        ),
{
    start_everywhere_path(
        app,
        path,
        EverywhereGoal::ByMonth { month: date, params: logs_params },
    )
}

/// The step for a query for the logs that there are.
pub open spec fn available_step<P, T, R>(
    opted_out: Set<Seq<char>>,
    params: AvailableLogsParams,
) -> Result<
    Step<P, T, R>,
    Refusal,
> {
    match (params.channel, params.user) {
        (Some(channel), Some(user)) => user_path_step(
            opted_out,
            UserLogPathParams {
                channel_id_type: channel.as_path().channel_id_type,
                channel: channel.as_path().channel,
                user_id_type: user.as_path().user_id_type,
                user: user.as_path().user,
            },
            UserGoal::Available,
        ),
        (Some(channel), None) => channel_path_step(
            opted_out,
            channel.as_path(),
            ChannelGoal::Available,
        ),
        (None, Some(user)) => everywhere_path_step(
            opted_out,
            user.as_path(),
            EverywhereGoal::Available,
        ),
        (None, None) => Err(
            Refusal::InvalidParam("Must specify at least one of channel or user"@),
        ),
    }
}

/// Which logs there are of a channel, of a user, or of a user in a channel.
pub fn list_available_logs<P, T, R>(app: &App, params: AvailableLogsParams) -> (step: Result<
    Step<P, T, R>,
    Error,
>)
    ensures
        outcome(step) == available_step::<P, T, R>(app.opted_out(), params),
{
    match (params.channel, params.user) {
        (Some(channel), Some(user)) => {
            let channel = channel.into_path();
            let user = user.into_path();
            let params = UserLogPathParams {
                channel_id_type: channel.channel_id_type,
                channel: channel.channel,
                user_id_type: user.user_id_type,
                user: user.user,
            };
            resolve_user_params(app, params, UserGoal::Available)
        },
        (Some(channel), None) => start_channel_path(
            app,
            channel.into_path(),
            ChannelGoal::Available,
        ),
        (None, Some(user)) => start_everywhere_path(
            app,
            user.into_path(),
            EverywhereGoal::Available,
        ),
        (None, None) => Err(
            Error::InvalidParam("Must specify at least one of channel or user".to_owned()),
        ),
    }
}

/// The logs that there are, with what they say about being kept.
pub struct AvailableLogs<A> {
    pub cache: CacheControl,
    pub available_logs: Vec<A>,
}

/// Answers when it is known which logs there are.
pub fn available_logs_response<A, E>(reply: Result<Vec<A>, E>) -> (response: Result<
    AvailableLogs<A>,
    Failure<E>,
>)
    ensures
        match reply {
            Ok(available_logs) => if available_logs@.len() == 0 {
                response == Err::<AvailableLogs<A>, _>(Failure::<E>::Refused(Error::NotFound))
            } else {
                response == Ok::<_, Failure<E>>(
                    AvailableLogs { cache: kept_for(LISTING_MAX_AGE), available_logs },
                )
            },
            Err(error) => response == Err::<AvailableLogs<A>, _>(Failure::Failed(error)),
        },
{
    match reply {
        Ok(available_logs) => if available_logs.len() == 0 {
            Err(Failure::Refused(Error::NotFound))
        } else {
            Ok(AvailableLogs { cache: cache_header(LISTING_MAX_AGE), available_logs })
        },
        Err(error) => Err(Failure::Failed(error)),
    }
}

/// One line of a channel, taken at random.
pub fn random_channel_line<P, T, R>(
    app: &App,
    path: LogsPathChannel,
    logs_params: LogsParams<P, T>,
) -> (step: Result<Step<P, T, R>, Error>)
    ensures
        outcome(step) == channel_path_step::<P, T, R>(
            app.opted_out(),
            path,
            ChannelGoal::RandomLine { params: logs_params },
        ),
{
    start_channel_path(app, path, ChannelGoal::RandomLine { params: logs_params })
}

/// One line of a user in a channel, taken at random.
pub fn random_user_line<P, T, R>(
    app: &App,
    params: UserLogPathParams,
    logs_params: LogsParams<P, T>,
) -> (step: Result<Step<P, T, R>, Error>)
    ensures
        outcome(step) == user_path_step::<P, T, R>(
            app.opted_out(),
            params,
            UserGoal::RandomLine { params: logs_params },
        ),
{
    resolve_user_params(app, params, UserGoal::RandomLine { params: logs_params })
}

/// The logs of a user in a channel that match a search.
pub fn search_user_logs<P, T, R>(
    app: &App,
    params: UserLogPathParams,
    search: SearchParams,
    logs_params: LogsParams<P, T>,
) -> (step: Result<Step<P, T, R>, Error>)
    ensures
        outcome(step) == user_path_step::<P, T, R>(
            app.opted_out(),
            params,
            UserGoal::Search { q: search.q, params: logs_params },
        ),
{
    resolve_user_params(app, params, UserGoal::Search { q: search.q, params: logs_params })
}

/// All the logs that match a search.
pub fn search_global_logs_route<P, T, R>(
    search: SearchParams,
    logs_params: LogsParams<P, T>,
) -> (step: Step<P, T, R>)
    ensures
        step == (Step::<P, T, R>::Read {
            query: ReadQuery::SearchGlobal { q: search.q, params: logs_params.read },
            then: Reading {
                cache: CacheRule::Unstated,
                response_type: logs_params.response_type,
            },
        }),
{
    Step::Read {
        query: ReadQuery::SearchGlobal { q: search.q, params: logs_params.read },
        then: Reading { cache: CacheRule::Unstated, response_type: logs_params.response_type },
    }
}

/// The names that a user has had.
pub fn get_user_name_history<P, T, R>(app: &App, param: UserNameHistoryParam) -> (step: Result<
    Step<P, T, R>,
    Error,
>)
    ensures
        outcome(step) == guarded::<P, T, R>(
            app.opted_out(),
            param.user_id@,
            None,
            Step::ReadNameHistory { user_id: param.user_id },
        ),
{
    match app.check_opted_out(param.user_id.as_str(), None) {
        Ok(_) => Ok(Step::ReadNameHistory { user_id: param.user_id }),
        Err(error) => Err(error),
    }
}

/// Neither a query for the logs that there are nor one for the names of a user asks for anything
/// about anyone who has opted out.
pub proof fn law_listings_respect_opt_outs<P, T, R>(
    opted_out: Set<Seq<char>>,
    params: AvailableLogsParams,
    user_id: String,
)
    ensures
        available_step::<P, T, R>(opted_out, params) matches Ok(step) ==> respects(
            opted_out,
            step,
        ),
        guarded::<P, T, R>(
            opted_out,
            user_id@,
            None,
            Step::ReadNameHistory { user_id },
        ) matches Ok(step) ==> respects(opted_out, step),
{
}

/// A query for the logs that there are comes to a list of them.
pub proof fn law_listings_serve_their_purpose<P, T, R>(
    opted_out: Set<Seq<char>>,
    params: AvailableLogsParams,
)
    ensures
        available_step::<P, T, R>(opted_out, params) matches Ok(step) ==> step.leads_to(
            Purpose::Listing,
        ),
{
}

/// A channel of the list of channels.
pub struct Channel {
    pub name: String,
    pub user_id: String,
}

/// The list of channels, with what it says about being kept.
pub struct ChannelsList {
    pub cache: CacheControl,
    pub channels: Vec<Channel>,
}

/// Searches for the names of the channels.
pub fn get_channels(app: &mut App) -> (step: UsersStep)
    ensures
        exists|ids: Seq<String>|
            lists_members(ids, old(app).channels@) && #[trigger] planned(
                old(app).users@,
                ids,
                Seq::empty(),
                false,
            ).leads_to(step, old(app).users@, final(app).users@),
        old(app).users@.consistent(),
        final(app).users@.consistent(),
        final(app).users@.covers(old(app).users@),
        final(app).channels == old(app).channels,
        final(app).optout_codes == old(app).optout_codes,
        final(app).optout_users == old(app).optout_users,
{
    let ids = app.channels.to_vec();
    let names: Vec<String> = Vec::new();
    let ghost cache = app.users@;
    let step = app.get_users(ids, names, false);
    assert(names@ =~= Seq::empty());
    assert(planned(cache, ids@, Seq::empty(), false).leads_to(step, cache, app.users@));
    step
}

/// Whether a sequence holds the users of a map as channels, each once.
pub open spec fn lists_channels(channels: Seq<Channel>, users: Map<Seq<char>, Seq<char>>) -> bool {
    crate::users::lists_users(
        channels.map_values(|channel: Channel| User { id: channel.user_id, login: channel.name }),
        users,
    )
}

/// Answers when the names of the channels are known.
pub fn channels_response(users: UserMap) -> (list: ChannelsList)
    ensures
        list.cache == kept_for(LISTING_MAX_AGE),
        lists_channels(list.channels@, users@),
{
    let users = users.into_users();
    let mut channels: Vec<Channel> = Vec::new();
    for i in 0..users.len()
        invariant
            channels@.map_values(
                |channel: Channel| User { id: channel.user_id, login: channel.name },
            ) =~= users@.take(i as int),
    {
        let ghost before = channels@;
        channels.push(Channel { name: users[i].login.clone(), user_id: users[i].id.clone() });
        proof {
            let as_user = |channel: Channel| User { id: channel.user_id, login: channel.name };
            assert(as_user(channels@.last()) == users@[i as int]);
            assert(channels@.map_values(as_user) =~= before.map_values(as_user).push(
                users@[i as int],
            ));
        }
    }
    assert(users@.take(users@.len() as int) =~= users@);
    ChannelsList { cache: cache_header(LISTING_MAX_AGE), channels }
}

/// How many messages a user has in a channel, as the database gives it.
pub struct StatsRow {
    pub user_id: String,
    pub cnt: u64,
}

/// How many messages a user has.
pub struct UserLogsStats {
    pub user_login: Option<String>,
    pub user_id: String,
    pub message_count: u64,
}

/// How many messages a channel has, and whose.
pub struct ChannelLogsStats {
    pub message_count: u64,
    pub top_chatters: Vec<UserLogsStats>,
}

/// The statistics of a channel while its users are being looked for.
pub struct NamingChatters {
    pub message_count: u64,
    pub rows: Vec<StatsRow>,
}

/// Goes on when the messages of a channel have been counted.
pub fn channel_stats_read<E>(reply: Result<(u64, Vec<StatsRow>), E>) -> (naming: Result<
    NamingChatters,
    Failure<E>,
>)
    ensures
        naming == match reply {
            Ok(stats) => Ok::<_, Failure<E>>(
                NamingChatters { message_count: stats.0, rows: stats.1 },
            ),
            Err(error) => Err(Failure::Failed(error)),
        },
{
    match reply {
        Ok(stats) => Ok(NamingChatters { message_count: stats.0, rows: stats.1 }),
        Err(error) => Err(Failure::Failed(error)),
    }
}

/// The login that a row of statistics gets: that of its user, if it is known and no earlier row
/// has had it.
pub open spec fn row_login(users: Map<Seq<char>, Seq<char>>, rows: Seq<StatsRow>, i: int) -> Option<
    Seq<char>,
> {
    let id = rows[i].user_id@;
    if users.contains_key(id) && forall|j: int| 0 <= j < i ==> (#[trigger] rows[j]).user_id@ != id {
        Some(users[id])
    } else {
        None
    }
}

/// Whether statistics are those of the given rows and users.
pub open spec fn names_chatters(
    stats: Seq<UserLogsStats>,
    users: Map<Seq<char>, Seq<char>>,
    rows: Seq<StatsRow>,
) -> bool {
    &&& stats.len() == rows.len()
    &&& forall|i: int|
        0 <= i < rows.len() ==> {
            &&& (#[trigger] stats[i]).user_id == rows[i].user_id
            &&& stats[i].message_count == rows[i].cnt
            &&& crate::users::text(stats[i].user_login) == row_login(users, rows, i)
        }
}

/// Statistics have one line for each row, in order, with its user and its count. Where no two rows
/// have the same user, a line has the login that was found for its user, if one was; in any case a
/// line has no other login, and lacks it only where none was found or an earlier row has its user.
pub proof fn law_chatters_get_their_logins(
    stats: Seq<UserLogsStats>,
    users: Map<Seq<char>, Seq<char>>,
    rows: Seq<StatsRow>,
    i: int,
)
    requires
        names_chatters(stats, users, rows),
        0 <= i < rows.len(),
    ensures
        stats.len() == rows.len(),
        stats[i].user_id == rows[i].user_id,
        stats[i].message_count == rows[i].cnt,
        stats[i].user_login matches Some(login) ==> users.contains_pair(
            rows[i].user_id@,
            login@,
        ),
        stats[i].user_login is None ==> !users.contains_key(rows[i].user_id@) || exists|j: int|
            0 <= j < i && (#[trigger] rows[j]).user_id@ == rows[i].user_id@,
        (forall|j: int, k: int|
            0 <= j < k < rows.len() ==> (#[trigger] rows[j]).user_id@ != (
            #[trigger] rows[k]).user_id@) ==> (stats[i].user_login is Some <==> users.contains_key(
            rows[i].user_id@,
        )),
        stats[i].user_login is Some ==> forall|j: int|
            0 <= j < i ==> (#[trigger] rows[j]).user_id@ != rows[i].user_id@,
{
    assert(stats[i].user_id == rows[i].user_id);
}

/// The channels that are listed are the users that were found, each once, with their names.
pub proof fn law_lists_of_channels_are_complete(
    channels: Seq<Channel>,
    users: Map<Seq<char>, Seq<char>>,
)
    ensures
        lists_channels(channels, users) <==> {
            let ids = Seq::new(channels.len(), |i: int| channels[i].user_id@);
            &&& ids.no_duplicates()
            &&& ids.to_set() == users.dom()
            &&& forall|i: int|
                0 <= i < channels.len() ==> users[(#[trigger] channels[i]).user_id@]
                    == channels[i].name@
        },
{
    let as_users = channels.map_values(
        |channel: Channel| User { id: channel.user_id, login: channel.name },
    );
    let ids = Seq::new(channels.len(), |i: int| channels[i].user_id@);
    crate::users::law_lists_of_users_are_complete(as_users, users);
    assert(ids =~= Seq::new(as_users.len(), |i: int| as_users[i].id@));
    assert forall|i: int| 0 <= i < channels.len() implies (#[trigger] as_users[i]).id
        == channels[i].user_id && as_users[i].login == channels[i].name by {}
    if lists_channels(channels, users) {
        assert forall|i: int| 0 <= i < channels.len() implies users[(
        #[trigger] channels[i]).user_id@] == channels[i].name@ by {
            assert(users[as_users[i].id@] == as_users[i].login@);
        }
    }
    if (forall|i: int|
        0 <= i < channels.len() ==> users[(#[trigger] channels[i]).user_id@]
            == channels[i].name@) {
        assert forall|i: int| 0 <= i < as_users.len() implies users[(#[trigger] as_users[i]).id@]
            == as_users[i].login@ by {
            assert(users[channels[i].user_id@] == channels[i].name@);
        }
    }
}

/// A query for the logs that there are is taken as a request of a path is: for a user in a channel,
/// for a channel, or for a user everywhere, each under the id or the name that was given. Without
/// either it is refused.
pub proof fn law_listings_are_taken_as_paths<P, T, R>(
    opted_out: Set<Seq<char>>,
    channel: ChannelParam,
    user: UserParam,
)
    ensures
        ({
            let (channel_id_type, channel_text) = match channel {
                ChannelParam::ChannelId(id) => (ChannelIdType::Id, id),
                ChannelParam::Channel(name) => (ChannelIdType::Name, name),
            };
            let (user_id_type, user_text) = match user {
                UserParam::UserId(id) => (UserIdType::Id, id),
                UserParam::User(name) => (UserIdType::Name, name),
            };
            &&& available_step::<P, T, R>(
                opted_out,
                AvailableLogsParams { channel: Some(channel), user: Some(user) },
            ) == user_path_step::<P, T, R>(
                opted_out,
                UserLogPathParams {
                    channel_id_type,
                    channel: channel_text,
                    user_id_type,
                    user: user_text,
                },
                UserGoal::Available,
            )
            &&& available_step::<P, T, R>(
                opted_out,
                AvailableLogsParams { channel: Some(channel), user: None },
            ) == channel_path_step::<P, T, R>(
                opted_out,
                LogsPathChannel { channel_id_type, channel: channel_text },
                ChannelGoal::Available,
            )
            &&& available_step::<P, T, R>(
                opted_out,
                AvailableLogsParams { channel: None, user: Some(user) },
            ) == everywhere_path_step::<P, T, R>(
                opted_out,
                UserLogsPath { user_id_type, user: user_text },
                EverywhereGoal::Available,
            )
        }),
        available_step::<P, T, R>(
            opted_out,
            AvailableLogsParams { channel: None, user: None },
        ) == Err::<Step<P, T, R>, _>(
            Refusal::InvalidParam("Must specify at least one of channel or user"@),
        ),
{
}

/// The names of a user are read if and only if that user has not opted out.
pub proof fn law_names_of_a_user_are_read<P, T, R>(opted_out: Set<Seq<char>>, user_id: String)
    ensures
        ({
            let reading = Step::<P, T, R>::ReadNameHistory { user_id };
            guarded(opted_out, user_id@, None, reading) == if opted_out.contains(user_id@) {
                Err(Refusal::ChannelOptedOut)
            } else {
                Ok(reading)
            }
        }),
{
}

impl NamingChatters {
    /// Searches for the users of the rows.
    pub fn search(&self, app: &mut App) -> (step: UsersStep)
        ensures
            planned(
                old(app).users@,
                self.rows@.map_values(|row: StatsRow| row.user_id),
                Seq::empty(),
                false,
            ).leads_to(step, old(app).users@, final(app).users@),
            old(app).users@.consistent(),
            final(app).users@.consistent(),
            final(app).users@.covers(old(app).users@),
            final(app).channels == old(app).channels,
            final(app).optout_codes == old(app).optout_codes,
            final(app).optout_users == old(app).optout_users,
    {
        let mut ids: Vec<String> = Vec::new();
        for i in 0..self.rows.len()
            invariant
                ids@ =~= self.rows@.take(i as int).map_values(|row: StatsRow| row.user_id),
        {
            ids.push(self.rows[i].user_id.clone());
        }
        assert(self.rows@.take(self.rows@.len() as int) =~= self.rows@);
        app.get_users(ids, Vec::new(), false)
    }

    /// Answers when the users have been looked for.
    pub fn resume<E>(self, reply: Result<UserMap, E>) -> (stats: Result<
        ChannelLogsStats,
        Failure<E>,
    >)
        ensures
            match reply {
                Ok(users) => {
                    &&& stats matches Ok(stats)
                    &&& stats.message_count == self.message_count
                    &&& names_chatters(stats.top_chatters@, users@, self.rows@)
                },
                Err(error) => stats == Err::<ChannelLogsStats, _>(Failure::Failed(error)),
            },
    {
        match reply {
            Ok(users) => {
                let ghost all = users@;
                let mut users = users;
                let rows = self.rows;
                let mut top_chatters: Vec<UserLogsStats> = Vec::new();
                for i in 0..rows.len()
                    invariant
                        top_chatters@.len() == i,
                        forall|k: int|
                            0 <= k < i ==> {
                                &&& (#[trigger] top_chatters@[k]).user_id == rows@[k].user_id
                                &&& top_chatters@[k].message_count == rows@[k].cnt
                                &&& crate::users::text(top_chatters@[k].user_login) == row_login(
                                    all,
                                    rows@,
                                    k,
                                )
                            },
                        forall|id: Seq<char>| #[trigger]
                            users@.contains_key(id) <==> all.contains_key(id) && forall|j: int|
                                0 <= j < i ==> (#[trigger] rows@[j]).user_id@ != id,
                        forall|id: Seq<char>| #[trigger]
                            users@.contains_key(id) ==> users@[id] == all[id],
                {
                    let user_login = users.remove(&rows[i].user_id);
                    top_chatters.push(
                        UserLogsStats {
                            user_login,
                            user_id: rows[i].user_id.clone(),
                            message_count: rows[i].cnt,
                        },
                    );
                }
                Ok(ChannelLogsStats { message_count: self.message_count, top_chatters })
            },
            Err(error) => Err(Failure::Failed(error)),
        }
    }
}

} // verus!
