//! What a request needs, step by step, until it is answered.

use crate::app::{opt_out_refusal, App};
use crate::calendar::{day_logs, day_range, month_logs, month_range, LogRange};
use crate::error::{outcome, settled, Error, Failure, FailureView, Refusal};
use crate::search::{planned, UsersStep};
use crate::users::UserMap;
use crate::web::caching::{CacheRule, Reading};
use crate::web::params::{
    ChannelIdType, LogsParams, LogsPathChannel, LogsPathDate, UserIdType, UserLogPathParams,
    UserLogsDatePath, UserLogsPath,
};
use crate::web::redirect::Redirection;
use vstd::prelude::*;

verus! {

/// Logs to be read from the database.
pub enum ReadQuery<P> {
    /// Those of a channel in a range.
    Channel { channel_id: String, params: P, range: LogRange },
    /// Those of a user in a channel in a range.
    User { channel_id: String, user_id: String, params: P, range: LogRange },
    /// Those of a user in all channels in a range.
    UserAllChannels { user_id: String, params: P, range: LogRange },
    /// One line of a channel, taken at random.
    RandomChannelLine { channel_id: String },
    /// One line of a user in a channel, taken at random.
    RandomUserLine { channel_id: String, user_id: String },
    /// Those of a user in a channel that match a search.
    SearchUser { channel_id: String, user_id: String, q: String, params: P },
    /// All those that match a search.
    SearchGlobal { q: String, params: P },
}

/// Logs whose dates are to be listed, the newest first.
pub enum AvailableQuery {
    /// Those of a channel.
    Channel { channel_id: String },
    /// Those of a user in a channel.
    User { channel_id: String, user_id: String },
    /// Those of a user in all channels.
    UserAllChannels { user_id: String },
}

/// Logs whose range is to be found.
pub enum RangeQuery<P, T> {
    /// Those of a channel.
    Channel { channel_id: String, params: LogsParams<P, T> },
    /// Those of a user in all channels.
    User { user_id: String, params: LogsParams<P, T> },
}

/// What a request needs next. `P` is what the database is told when it reads logs, `T` the form in
/// which they are sent, and `R` the range that statistics are asked for.
#[allow(inconsistent_fields)]
pub enum Step<P, T, R> {
    /// The id of the user with a login.
    ResolveName { name: String, then: NameGoal<P, T, R> },
    /// The range of logs.
    FindRange(RangeQuery<P, T>),
    /// The newest logs, to which the request is sent on.
    FindLatest { query: AvailableQuery, then: Redirection },
    /// The dates of logs, which are the answer.
    ListAvailable(AvailableQuery),
    /// Logs, which are the answer.
    Read { query: ReadQuery<P>, then: Reading<T> },
    /// How many messages a channel has, and whose.
    ReadChannelStats { channel_id: String, range_params: R },
    /// The login of a user, whose messages are then counted.
    FindLogin(LoginGoal<R>),
    /// How many messages a user has in a channel, which is the answer.
    ReadUserStats {
        channel_id: String,
        user_id: String,
        user_login: Option<String>,
        range_params: R,
    },
    /// The names that a user has had, which are the answer.
    ReadNameHistory { user_id: String },
}

/// What is asked of a channel.
pub enum ChannelGoal<P, T, R> {
    /// Its logs in a range, or else its newest ones, under the address of which this request is
    /// for the parts given.
    Logs {
        id_word: String,
        channel: String,
        range: Option<LogRange>,
        params: LogsParams<P, T>,
        query: Option<String>,
    },
    /// Its logs of a day.
    ByDate { date: LogsPathDate, params: LogsParams<P, T> },
    /// Its logs of a month.
    ByMonth { month: UserLogsDatePath, params: LogsParams<P, T> },
    /// All its logs.
    All { params: LogsParams<P, T> },
    /// One line of its logs.
    RandomLine { params: LogsParams<P, T> },
    /// How many messages it has, and whose.
    Stats { range_params: R },
    /// Which logs it has.
    Available,
}

/// What is asked of a user in a channel.
pub enum UserGoal<P, T, R> {
    /// Their logs in a range, or else their newest ones, under the address of which this request
    /// is for the parts given.
    Logs {
        channel_word: String,
        channel: String,
        user_word: String,
        user: String,
        range: Option<LogRange>,
        params: LogsParams<P, T>,
        query: Option<String>,
    },
    /// Their logs of a month.
    ByMonth { month: UserLogsDatePath, params: LogsParams<P, T> },
    /// One line of their logs.
    RandomLine { params: LogsParams<P, T> },
    /// Those of their logs that match a search.
    Search { q: String, params: LogsParams<P, T> },
    /// How many messages they have.
    Stats { range_params: R },
    /// Which logs they have.
    Available,
}

/// What is asked of a user in all channels.
pub enum EverywhereGoal<P, T> {
    /// All their logs.
    All { params: LogsParams<P, T> },
    /// Their logs of a month.
    ByMonth { month: UserLogsDatePath, params: LogsParams<P, T> },
    /// Which logs they have.
    Available,
}

/// What a request goes on with once the id of a login is known.
pub enum NameGoal<P, T, R> {
    /// The id is that of a channel.
    Channel(ChannelGoal<P, T, R>),
    /// The id is that of the channel, and the user comes next.
    ChannelOfUser { user_id_type: UserIdType, user: String, goal: UserGoal<P, T, R> },
    /// The id is that of the user.
    UserOfChannel { channel_id: String, goal: UserGoal<P, T, R> },
    /// The id is that of a user, in all channels.
    Everywhere(EverywhereGoal<P, T>),
}

/// What a request goes on with once the login of a user is known.
pub struct LoginGoal<R> {
    pub channel_id: String,
    pub user_id: String,
    pub range_params: R,
}

/// A step that is taken only if neither the channel nor the user has opted out.
pub open spec fn guarded<P, T, R>(
    opted_out: Set<Seq<char>>,
    channel_id: Seq<char>,
    user_id: Option<Seq<char>>,
    step: Step<P, T, R>,
) -> Result<Step<P, T, R>, Refusal> {
    match opt_out_refusal(opted_out, channel_id, user_id) {
        Some(refusal) => Err(refusal),
        None => Ok(step),
    }
}

/// The reading of logs whose range decides whether they may be kept.
pub open spec fn range_read<P, T, R>(
    query: ReadQuery<P>,
    response_type: T,
    range: LogRange,
) -> Step<P, T, R> {
    Step::Read {
        query,
        then: Reading { cache: CacheRule::RangeEnd(range.to), response_type },
    }
}

/// The step for the logs of a channel in a range.
pub open spec fn channel_range_step<P, T, R>(
    opted_out: Set<Seq<char>>,
    channel_id: String,
    params: LogsParams<P, T>,
    range: LogRange,
) -> Result<Step<P, T, R>, Refusal> {
    guarded(
        opted_out,
        channel_id@,
        None,
        range_read(
            ReadQuery::Channel { channel_id, params: params.read, range },
            params.response_type,
            range,
        ),
    )
}

/// The step for what is asked of a channel.
pub open spec fn channel_step<P, T, R>(
    opted_out: Set<Seq<char>>,
    channel_id: String,
    goal: ChannelGoal<P, T, R>,
) -> Result<Step<P, T, R>, Refusal> {
    match goal {
        ChannelGoal::Logs { id_word, channel, range, params, query } => match range {
            Some(range) => channel_range_step(opted_out, channel_id, params, range),
            None => Ok(
                Step::FindLatest {
                    query: AvailableQuery::Channel { channel_id },
                    then: Redirection::Channel { id_word, channel, query },
                },
            ),
        },
        ChannelGoal::ByDate { date, params } => match day_logs(
            date.year@,
            date.month@,
            date.day@,
        ) {
            Ok(range) => channel_range_step(opted_out, channel_id, params, range),
            Err(refusal) => Err(refusal),
        },
        ChannelGoal::ByMonth { month, params } => match month_logs(month.year@, month.month@) {
            Ok(range) => channel_range_step(opted_out, channel_id, params, range),
            Err(refusal) => Err(refusal),
        },
        ChannelGoal::All { params } => guarded(
            opted_out,
            channel_id@,
            None,
            Step::FindRange(RangeQuery::Channel { channel_id, params }),
        ),
        ChannelGoal::RandomLine { params } => Ok(
            Step::Read {
                query: ReadQuery::RandomChannelLine { channel_id },
                then: Reading { cache: CacheRule::Never, response_type: params.response_type },
            },
        ),
        ChannelGoal::Stats { range_params } => Ok(
            Step::ReadChannelStats { channel_id, range_params },
        ),
        ChannelGoal::Available => guarded(
            opted_out,
            channel_id@,
            None,
            Step::ListAvailable(AvailableQuery::Channel { channel_id }),
        ),
    }
}

/// The step for the logs of a user in a channel in a range.
pub open spec fn user_range_step<P, T, R>(
    channel_id: String,
    user_id: String,
    params: LogsParams<P, T>,
    range: LogRange,
) -> Step<P, T, R> {
    range_read(
        ReadQuery::User { channel_id, user_id, params: params.read, range },
        params.response_type,
        range,
    )
}

/// The step for the logs of a user in all channels in a range.
pub open spec fn everywhere_range_step<P, T, R>(
    user_id: String,
    params: LogsParams<P, T>,
    range: LogRange,
) -> Step<P, T, R> {
    range_read(
        ReadQuery::UserAllChannels { user_id, params: params.read, range },
        params.response_type,
        range,
    )
}

/// The step for what is asked of a user in a channel, if neither has opted out.
pub open spec fn allowed_user_step<P, T, R>(
    channel_id: String,
    user_id: String,
    goal: UserGoal<P, T, R>,
) -> Result<
    Step<P, T, R>,
    Refusal,
> {
    match goal {
        UserGoal::Logs {
            channel_word,
            channel,
            user_word,
            user,
            range,
            params,
            query,
        } => match range {
            Some(range) => Ok(user_range_step(channel_id, user_id, params, range)),
            None => Ok(
                Step::FindLatest {
                    query: AvailableQuery::User { channel_id, user_id },
                    then: Redirection::User { channel_word, channel, user_word, user, query },
                },
            ),
        },
        UserGoal::ByMonth { month, params } => match month_logs(month.year@, month.month@) {
            Ok(range) => Ok(user_range_step(channel_id, user_id, params, range)),
            Err(refusal) => Err(refusal),
        },
        UserGoal::RandomLine { params } => Ok(
            Step::Read {
                query: ReadQuery::RandomUserLine { channel_id, user_id },
                then: Reading { cache: CacheRule::Never, response_type: params.response_type },
            },
        ),
        UserGoal::Search { q, params } => Ok(
            Step::Read {
                query: ReadQuery::SearchUser { channel_id, user_id, q, params: params.read },
                then: Reading { cache: CacheRule::Unstated, response_type: params.response_type },
            },
        ),
        UserGoal::Stats { range_params } => Ok(
            Step::FindLogin(LoginGoal { channel_id, user_id, range_params }),
        ),
        UserGoal::Available => Ok(
            Step::ListAvailable(AvailableQuery::User { channel_id, user_id }),
        ),
    }
}

/// The step for what is asked of a user in a channel.
pub open spec fn user_step<P, T, R>(
    opted_out: Set<Seq<char>>,
    channel_id: String,
    user_id: String,
    goal: UserGoal<P, T, R>,
) -> Result<Step<P, T, R>, Refusal> {
    match opt_out_refusal(opted_out, channel_id@, Some(user_id@)) {
        Some(refusal) => Err(refusal),
        None => allowed_user_step(channel_id, user_id, goal),
    }
}

/// The step for what is asked of a user in all channels, if they have not opted out.
pub open spec fn allowed_everywhere_step<P, T, R>(
    user_id: String,
    goal: EverywhereGoal<P, T>,
) -> Result<
    Step<P, T, R>,
    Refusal,
> {
    match goal {
        EverywhereGoal::All { params } => Ok(
            Step::FindRange(RangeQuery::User { user_id, params }),
        ),
        EverywhereGoal::ByMonth { month, params } => match month_logs(month.year@, month.month@) {
            Ok(range) => Ok(everywhere_range_step(user_id, params, range)),
            Err(refusal) => Err(refusal),
        },
        EverywhereGoal::Available => Ok(
            Step::ListAvailable(AvailableQuery::UserAllChannels { user_id }),
        ),
    }
}

/// The step for what is asked of a user in all channels. One who has opted out is refused as a
/// channel is.
pub open spec fn everywhere_step<P, T, R>(
    opted_out: Set<Seq<char>>,
    user_id: String,
    goal: EverywhereGoal<P, T>,
) -> Result<Step<P, T, R>, Refusal> {
    match opt_out_refusal(opted_out, user_id@, Some(user_id@)) {
        Some(refusal) => Err(refusal),
        None => allowed_everywhere_step(user_id, goal),
    }
}

/// The step for what is asked of a channel in a path.
pub open spec fn channel_path_step<P, T, R>(
    opted_out: Set<Seq<char>>,
    path: LogsPathChannel,
    goal: ChannelGoal<P, T, R>,
) -> Result<Step<P, T, R>, Refusal> {
    match path.channel_id_type {
        ChannelIdType::Name => Ok(
            Step::ResolveName { name: path.channel, then: NameGoal::Channel(goal) },
        ),
        ChannelIdType::Id => channel_step(opted_out, path.channel, goal),
    }
}

/// The step for what is asked of a user in a path, in a channel whose id is known.
pub open spec fn user_of_channel_step<P, T, R>(
    opted_out: Set<Seq<char>>,
    channel_id: String,
    path: UserLogsPath,
    goal: UserGoal<P, T, R>,
) -> Result<Step<P, T, R>, Refusal> {
    match path.user_id_type {
        UserIdType::Name => Ok(
            Step::ResolveName {
                name: path.user,
                then: NameGoal::UserOfChannel { channel_id, goal },
            },
        ),
        UserIdType::Id => user_step(opted_out, channel_id, path.user, goal),
    }
}

/// The step for what is asked of a user in a channel, both in a path.
pub open spec fn user_path_step<P, T, R>(
    opted_out: Set<Seq<char>>,
    params: UserLogPathParams,
    goal: UserGoal<P, T, R>,
) -> Result<Step<P, T, R>, Refusal> {
    match params.channel_id_type {
        ChannelIdType::Name => Ok(
            Step::ResolveName {
                name: params.channel,
                then: NameGoal::ChannelOfUser {
                    user_id_type: params.user_id_type,
                    user: params.user,
                    goal,
                },
            },
        ),
        ChannelIdType::Id => user_of_channel_step(
            opted_out,
            params.channel,
            UserLogsPath { user_id_type: params.user_id_type, user: params.user },
            goal,
        ),
    }
}

/// The step for what is asked of a user in a path, in all channels.
pub open spec fn everywhere_path_step<P, T, R>(
    opted_out: Set<Seq<char>>,
    path: UserLogsPath,
    goal: EverywhereGoal<P, T>,
) -> Result<Step<P, T, R>, Refusal> {
    match path.user_id_type {
        UserIdType::Name => Ok(
            Step::ResolveName { name: path.user, then: NameGoal::Everywhere(goal) },
        ),
        UserIdType::Id => everywhere_step(opted_out, path.user, goal),
    }
}

impl<P, T, R> NameGoal<P, T, R> {
    /// The step once the id is known.
    pub open spec fn after(self, opted_out: Set<Seq<char>>, id: String) -> Result<
        Step<P, T, R>,
        Refusal,
    > {
        match self {
            NameGoal::Channel(goal) => channel_step(opted_out, id, goal),
            NameGoal::ChannelOfUser { user_id_type, user, goal } => user_of_channel_step(
                opted_out,
                id,
                UserLogsPath { user_id_type, user },
                goal,
            ),
            NameGoal::UserOfChannel { channel_id, goal } => user_step(
                opted_out,
                channel_id,
                id,
                goal,
            ),
            NameGoal::Everywhere(goal) => everywhere_step(opted_out, id, goal),
        }
    }
}

impl<P, T> RangeQuery<P, T> {
    /// The step once the range of the logs is known, if there are any.
    pub open spec fn after<R>(self, opted_out: Set<Seq<char>>, range: Option<LogRange>) -> Result<
        Step<P, T, R>,
        Refusal,
    > {
        match range {
            None => Err(Refusal::NotFound),
            Some(range) => match self {
                RangeQuery::Channel { channel_id, params } => channel_range_step(
                    opted_out,
                    channel_id,
                    params,
                    range,
                ),
                RangeQuery::User { user_id, params } => Ok(
                    everywhere_range_step(user_id, params, range),
                ),
            },
        }
    }
}

impl<R> LoginGoal<R> {
    /// The step once the login of the user is known, if they have one.
    pub open spec fn after<P, T>(self, user_login: Option<String>) -> Step<P, T, R> {
        Step::ReadUserStats {
            channel_id: self.channel_id,
            user_id: self.user_id,
            user_login,
            range_params: self.range_params,
        }
    }
}

/// What the service decided, as it may end a request that calls on something outside.
pub open spec fn decided<P, T, R, E>(
    decision: Result<Step<P, T, R>, Refusal>,
) -> Result<Step<P, T, R>, FailureView<E>> {
    match decision {
        Ok(step) => Ok(step),
        Err(refusal) => Err(FailureView::Refused(refusal)),
    }
}

fn refused<P, T, R, E>(
    decision: Result<Step<P, T, R>, Error>,
) -> (step: Result<Step<P, T, R>, Failure<E>>)
    ensures
        settled(step) == decided::<P, T, R, E>(outcome(decision)),
{
    match decision {
        Ok(step) => Ok(step),
        Err(error) => Err(Failure::Refused(error)),
    }
}

fn start_range_read<P, T, R>(query: ReadQuery<P>, response_type: T, range: LogRange) -> (step: Step<
    P,
    T,
    R,
>)
    ensures
        step == range_read::<P, T, R>(query, response_type, range),
{
    Step::Read {
        query,
        then: Reading { cache: CacheRule::RangeEnd(range.to), response_type },
    }
}

fn start_user_range<P, T, R>(
    channel_id: String,
    user_id: String,
    params: LogsParams<P, T>,
    range: LogRange,
) -> (step: Step<P, T, R>)
    ensures
        step == user_range_step::<P, T, R>(channel_id, user_id, params, range),
{
    start_range_read(
        ReadQuery::User { channel_id, user_id, params: params.read, range },
        params.response_type,
        range,
    )
}

fn start_everywhere_range<P, T, R>(
    user_id: String,
    params: LogsParams<P, T>,
    range: LogRange,
) -> (step: Step<P, T, R>)
    ensures
        step == everywhere_range_step::<P, T, R>(user_id, params, range),
{
    start_range_read(
        ReadQuery::UserAllChannels { user_id, params: params.read, range },
        params.response_type,
        range,
    )
}

fn start_channel_range<P, T, R>(
    app: &App,
    channel_id: String,
    params: LogsParams<P, T>,
    range: LogRange,
) -> (step: Result<Step<P, T, R>, Error>)
    ensures
        outcome(step) == channel_range_step::<P, T, R>(
            app.opted_out(),
            channel_id,
            params,
            range,
        ),
{
    match app.check_opted_out(channel_id.as_str(), None) {
        Ok(_) => Ok(
            start_range_read(
                ReadQuery::Channel { channel_id, params: params.read, range },
                params.response_type,
                range,
            ),
        ),
        Err(error) => Err(error),
    }
}

fn start_channel<P, T, R>(
    app: &App,
    channel_id: String,
    goal: ChannelGoal<P, T, R>,
) -> (step: Result<Step<P, T, R>, Error>)
    ensures
        outcome(step) == channel_step::<P, T, R>(app.opted_out(), channel_id, goal),
{
    match goal {
        ChannelGoal::Logs { id_word, channel, range, params, query } => match range {
            Some(range) => start_channel_range(app, channel_id, params, range),
            None => Ok(
                Step::FindLatest {
                    query: AvailableQuery::Channel { channel_id },
                    then: Redirection::Channel { id_word, channel, query },
                },
            ),
        },
        ChannelGoal::ByDate { date, params } => match day_range(
            date.year.as_str(),
            date.month.as_str(),
            date.day.as_str(),
        ) {
            Ok(range) => start_channel_range(app, channel_id, params, range),
            Err(error) => Err(error),
        },
        ChannelGoal::ByMonth { month, params } => match month_range(
            month.year.as_str(),
            month.month.as_str(),
        ) {
            Ok(range) => start_channel_range(app, channel_id, params, range),
            Err(error) => Err(error),
        },
        ChannelGoal::All { params } => match app.check_opted_out(channel_id.as_str(), None) {
            Ok(_) => Ok(Step::FindRange(RangeQuery::Channel { channel_id, params })),
            Err(error) => Err(error),
        },
        ChannelGoal::RandomLine { params } => Ok(
            Step::Read {
                query: ReadQuery::RandomChannelLine { channel_id },
                then: Reading { cache: CacheRule::Never, response_type: params.response_type },
            },
        ),
        ChannelGoal::Stats { range_params } => Ok(
            Step::ReadChannelStats { channel_id, range_params },
        ),
        ChannelGoal::Available => match app.check_opted_out(channel_id.as_str(), None) {
            Ok(_) => Ok(Step::ListAvailable(AvailableQuery::Channel { channel_id })),
            Err(error) => Err(error),
        },
    }
}

fn start_user<P, T, R>(
    app: &App,
    channel_id: String,
    user_id: String,
    goal: UserGoal<P, T, R>,
) -> (step: Result<
    Step<P, T, R>,
    Error,
>)
    ensures
        outcome(step) == user_step::<P, T, R>(app.opted_out(), channel_id, user_id, goal),
{
    match app.check_opted_out(channel_id.as_str(), Some(user_id.as_str())) {
        Ok(_) => {},
        Err(error) => return Err(error),
    }
    match goal {
        UserGoal::Logs {
            channel_word,
            channel,
            user_word,
            user,
            range,
            params,
            query,
        } => match range {
            Some(range) => Ok(start_user_range(channel_id, user_id, params, range)),
            None => Ok(
                Step::FindLatest {
                    query: AvailableQuery::User { channel_id, user_id },
                    then: Redirection::User { channel_word, channel, user_word, user, query },
                },
            ),
        },
        UserGoal::ByMonth { month, params } => match month_range(
            month.year.as_str(),
            month.month.as_str(),
        ) {
            Ok(range) => Ok(start_user_range(channel_id, user_id, params, range)),
            Err(error) => Err(error),
        },
        UserGoal::RandomLine { params } => Ok(
            Step::Read {
                query: ReadQuery::RandomUserLine { channel_id, user_id },
                then: Reading { cache: CacheRule::Never, response_type: params.response_type },
            },
        ),
        UserGoal::Search { q, params } => Ok(
            Step::Read {
                query: ReadQuery::SearchUser { channel_id, user_id, q, params: params.read },
                then: Reading { cache: CacheRule::Unstated, response_type: params.response_type },
            },
        ),
        UserGoal::Stats { range_params } => Ok(
            Step::FindLogin(LoginGoal { channel_id, user_id, range_params }),
        ),
        UserGoal::Available => Ok(
            Step::ListAvailable(AvailableQuery::User { channel_id, user_id }),
        ),
    }
}

fn start_everywhere<P, T, R>(
    app: &App,
    user_id: String,
    goal: EverywhereGoal<P, T>,
) -> (step: Result<
    Step<P, T, R>,
    Error,
>)
    ensures
        outcome(step) == everywhere_step::<P, T, R>(app.opted_out(), user_id, goal),
{
    match app.check_opted_out(user_id.as_str(), Some(user_id.as_str())) {
        Ok(_) => {},
        Err(error) => return Err(error),
    }
    match goal {
        EverywhereGoal::All { params } => Ok(
            Step::FindRange(RangeQuery::User { user_id, params }),
        ),
        EverywhereGoal::ByMonth { month, params } => match month_range(
            month.year.as_str(),
            month.month.as_str(),
        ) {
            Ok(range) => Ok(start_everywhere_range(user_id, params, range)),
            Err(error) => Err(error),
        },
        EverywhereGoal::Available => Ok(
            Step::ListAvailable(AvailableQuery::UserAllChannels { user_id }),
        ),
    }
}

/// Starts a request for what is asked of a channel in a path.
pub fn start_channel_path<P, T, R>(
    app: &App,
    path: LogsPathChannel,
    goal: ChannelGoal<P, T, R>,
) -> (step: Result<
    Step<P, T, R>,
    Error,
>)
    ensures
        outcome(step) == channel_path_step::<P, T, R>(app.opted_out(), path, goal),
{
    match path.channel_id_type {
        ChannelIdType::Name => Ok(
            Step::ResolveName { name: path.channel, then: NameGoal::Channel(goal) },
        ),
        ChannelIdType::Id => start_channel(app, path.channel, goal),
    }
}

fn start_user_of_channel<P, T, R>(
    app: &App,
    channel_id: String,
    path: UserLogsPath,
    goal: UserGoal<P, T, R>,
) -> (step: Result<Step<P, T, R>, Error>)
    ensures
        outcome(step) == user_of_channel_step::<P, T, R>(app.opted_out(), channel_id, path, goal),
{
    match path.user_id_type {
        UserIdType::Name => Ok(
            Step::ResolveName {
                name: path.user,
                then: NameGoal::UserOfChannel { channel_id, goal },
            },
        ),
        UserIdType::Id => start_user(app, channel_id, path.user, goal),
    }
}

/// Starts a request for what is asked of a user in a channel, both in a path: the id of the
/// channel is found first, then that of the user.
pub fn resolve_user_params<P, T, R>(
    app: &App,
    params: UserLogPathParams,
    goal: UserGoal<P, T, R>,
) -> (step: Result<
    Step<P, T, R>,
    Error,
>)
    ensures
        outcome(step) == user_path_step::<P, T, R>(app.opted_out(), params, goal),
{
    match params.channel_id_type {
        ChannelIdType::Name => Ok(
            Step::ResolveName {
                name: params.channel,
                then: NameGoal::ChannelOfUser {
                    user_id_type: params.user_id_type,
                    user: params.user,
                    goal,
                },
            },
        ),
        ChannelIdType::Id => start_user_of_channel(
            app,
            params.channel,
            UserLogsPath { user_id_type: params.user_id_type, user: params.user },
            goal,
        ),
    }
}

/// Starts a request for what is asked of a user in a path, in all channels.
pub fn start_everywhere_path<P, T, R>(
    app: &App,
    path: UserLogsPath,
    goal: EverywhereGoal<P, T>,
) -> (step: Result<
    Step<P, T, R>,
    Error,
>)
    ensures
        outcome(step) == everywhere_path_step::<P, T, R>(app.opted_out(), path, goal),
{
    match path.user_id_type {
        UserIdType::Name => Ok(
            Step::ResolveName { name: path.user, then: NameGoal::Everywhere(goal) },
        ),
        UserIdType::Id => start_everywhere(app, path.user, goal),
    }
}

impl<P, T, R> NameGoal<P, T, R> {
    /// Goes on when the id has been looked for.
    pub fn resume<E>(self, app: &App, reply: Result<String, Failure<E>>) -> (step: Result<
        Step<P, T, R>,
        Failure<E>,
    >)
        ensures
            match reply {
                Ok(id) => settled(step) == decided::<P, T, R, E>(self.after(app.opted_out(), id)),
                Err(failure) => step == Err::<Step<P, T, R>, Failure<E>>(failure),
            },
    {
        match reply {
            Ok(id) => match self {
                NameGoal::Channel(goal) => refused(start_channel(app, id, goal)),
                NameGoal::ChannelOfUser { user_id_type, user, goal } => refused(
                    start_user_of_channel(app, id, UserLogsPath { user_id_type, user }, goal),
                ),
                NameGoal::UserOfChannel { channel_id, goal } => refused(
                    start_user(app, channel_id, id, goal),
                ),
                NameGoal::Everywhere(goal) => refused(start_everywhere(app, id, goal)),
            },
            Err(failure) => Err(failure),
        }
    }
}

impl<P, T> RangeQuery<P, T> {
    /// Goes on when the range has been looked for.
    pub fn resume<R, E>(self, app: &App, reply: Result<Option<LogRange>, E>) -> (step: Result<
        Step<P, T, R>,
        Failure<E>,
    >)
        ensures
            settled(step) == match reply {
                Ok(range) => decided::<P, T, R, E>(self.after(app.opted_out(), range)),
                Err(error) => Err(FailureView::Failed(error)),
            },
    {
        match reply {
            Ok(range) => match range {
                None => Err(Failure::Refused(Error::NotFound)),
                Some(range) => match self {
                    RangeQuery::Channel { channel_id, params } => refused(
                        start_channel_range(app, channel_id, params, range),
                    ),
                    RangeQuery::User { user_id, params } => Ok(
                        start_everywhere_range(user_id, params, range),
                    ),
                },
            },
            Err(error) => Err(Failure::Failed(error)),
        }
    }
}

impl<R> LoginGoal<R> {
    /// Searches for the user.
    pub fn search(&self, app: &mut App) -> (step: UsersStep)
        ensures
            planned(old(app).users@, seq![self.user_id], Seq::empty(), false).leads_to(
                step,
                old(app).users@,
                final(app).users@,
            ),
            old(app).users@.consistent(),
            final(app).users@.consistent(),
            final(app).users@.covers(old(app).users@),
            final(app).channels == old(app).channels,
            final(app).optout_codes == old(app).optout_codes,
            final(app).optout_users == old(app).optout_users,
    {
        let mut ids: Vec<String> = Vec::new();
        ids.push(self.user_id.clone());
        assert(ids@ =~= seq![self.user_id]);
        app.get_users(ids, Vec::new(), false)
    }

    /// Goes on when the user has been looked for, with a login that came back, if any did.
    pub fn resume<P, T, E>(self, reply: Result<UserMap, E>) -> (step: Result<
        Step<P, T, R>,
        Failure<E>,
    >)
        ensures
            match reply {
                Ok(users) => {
                    &&& step matches Ok(Step::ReadUserStats { user_login, .. })
                    &&& step == Ok::<_, Failure<E>>(self.after::<P, T>(user_login))
                    &&& match user_login {
                        Some(login) => users@.contains_value(login@),
                        None => users@ == Map::<Seq<char>, Seq<char>>::empty(),
                    }
                },
                Err(error) => step == Err::<Step<P, T, R>, Failure<E>>(Failure::Failed(error)),
            },
    {
        match reply {
            Ok(users) => {
                let ghost map = users@;
                let mut users = users.into_users();
                let user_login = if users.len() == 0 {
                    assert(map =~= Map::<Seq<char>, Seq<char>>::empty());
                    None
                } else {
                    let user = users.swap_remove(0);
                    assert(map.contains_pair(user.id@, user.login@));
                    Some(user.login)
                };
                Ok(
                    Step::ReadUserStats {
                        channel_id: self.channel_id,
                        user_id: self.user_id,
                        user_login,
                        range_params: self.range_params,
                    },
                )
            },
            Err(error) => Err(Failure::Failed(error)),
        }
    }
}

/// Whether a step asks for nothing about anyone who has opted out, except where opting out does
/// not count: a random line of a channel, the statistics of a channel, the way to the newest logs
/// of a channel, and a search through everything.
pub open spec fn respects<P, T, R>(opted_out: Set<Seq<char>>, step: Step<P, T, R>) -> bool {
    match step {
        Step::ResolveName { .. } => true,
        Step::FindRange(RangeQuery::Channel { channel_id, .. }) => !opted_out.contains(channel_id@),
        Step::FindRange(RangeQuery::User { user_id, .. }) => !opted_out.contains(user_id@),
        Step::FindLatest { query, .. } => match query {
            AvailableQuery::Channel { .. } => true,
            AvailableQuery::User { channel_id, user_id } => !opted_out.contains(channel_id@)
                && !opted_out.contains(user_id@),
            AvailableQuery::UserAllChannels { user_id } => !opted_out.contains(user_id@),
        },
        Step::ListAvailable(query) => match query {
            AvailableQuery::Channel { channel_id } => !opted_out.contains(channel_id@),
            AvailableQuery::User { channel_id, user_id } => !opted_out.contains(channel_id@)
                && !opted_out.contains(user_id@),
            AvailableQuery::UserAllChannels { user_id } => !opted_out.contains(user_id@),
        },
        Step::Read { query, .. } => match query {
            ReadQuery::Channel { channel_id, .. } => !opted_out.contains(channel_id@),
            ReadQuery::User { channel_id, user_id, .. } => !opted_out.contains(channel_id@)
                && !opted_out.contains(user_id@),
            ReadQuery::UserAllChannels { user_id, .. } => !opted_out.contains(user_id@),
            ReadQuery::RandomChannelLine { .. } => true,
            ReadQuery::RandomUserLine { channel_id, user_id } => !opted_out.contains(channel_id@)
                && !opted_out.contains(user_id@),
            ReadQuery::SearchUser { channel_id, user_id, .. } => !opted_out.contains(channel_id@)
                && !opted_out.contains(user_id@),
            ReadQuery::SearchGlobal { .. } => true,
        },
        Step::ReadChannelStats { .. } => true,
        Step::FindLogin(goal) => !opted_out.contains(goal.channel_id@) && !opted_out.contains(
            goal.user_id@,
        ),
        Step::ReadUserStats { channel_id, user_id, .. } => !opted_out.contains(channel_id@)
            && !opted_out.contains(user_id@),
        Step::ReadNameHistory { user_id } => !opted_out.contains(user_id@),
    }
}

/// No request that names a channel asks for the logs of one that has opted out.
pub proof fn law_channel_requests_respect_opt_outs<P, T, R>(
    opted_out: Set<Seq<char>>,
    path: LogsPathChannel,
    goal: ChannelGoal<P, T, R>,
)
    ensures
        channel_path_step::<P, T, R>(opted_out, path, goal) matches Ok(step) ==> respects(
            opted_out,
            step,
        ),
{
}

/// No request that names a user in a channel asks for the logs of one of them who has opted out.
pub proof fn law_user_requests_respect_opt_outs<P, T, R>(
    opted_out: Set<Seq<char>>,
    params: UserLogPathParams,
    goal: UserGoal<P, T, R>,
)
    ensures
        user_path_step::<P, T, R>(opted_out, params, goal) matches Ok(step) ==> respects(
            opted_out,
            step,
        ),
{
}

/// No request that names a user asks for the logs of one who has opted out.
pub proof fn law_everywhere_requests_respect_opt_outs<P, T, R>(
    opted_out: Set<Seq<char>>,
    path: UserLogsPath,
    goal: EverywhereGoal<P, T>,
)
    ensures
        everywhere_path_step::<P, T, R>(opted_out, path, goal) matches Ok(step) ==> respects(
            opted_out,
            step,
        ),
{
}

/// Nor does a request that goes on, with the id of a login, or with a range or the login of a user
/// that it was allowed to look for.
pub proof fn law_requests_that_go_on_respect_opt_outs<P, T, R>(
    opted_out: Set<Seq<char>>,
    goal: NameGoal<P, T, R>,
    id: String,
    query: RangeQuery<P, T>,
    range: Option<LogRange>,
    login_goal: LoginGoal<R>,
    user_login: Option<String>,
)
    ensures
        goal.after(opted_out, id) matches Ok(step) ==> respects(opted_out, step),
        respects(opted_out, Step::<P, T, R>::FindRange(query)) ==> (query.after::<R>(
            opted_out,
            range,
        ) matches Ok(step) ==> respects(opted_out, step)),
        respects(opted_out, Step::<P, T, R>::FindLogin(login_goal)) ==> respects(
            opted_out,
            login_goal.after::<P, T>(user_login),
        ),
{
}

/// What is asked of a user in a channel that has opted out is refused for the channel, and what
/// is asked of a user who has opted out, for the user; in all channels it is refused as for a
/// channel.
pub proof fn law_opted_out_users_are_refused<P, T, R>(
    opted_out: Set<Seq<char>>,
    channel_id: String,
    user_id: String,
    goal: UserGoal<P, T, R>,
    everywhere: EverywhereGoal<P, T>,
)
    ensures
        opted_out.contains(channel_id@) ==> user_step::<P, T, R>(
            opted_out,
            channel_id,
            user_id,
            goal,
        ) == Err::<
            Step<P, T, R>,
            _,
        >(Refusal::ChannelOptedOut),
        !opted_out.contains(channel_id@) && opted_out.contains(user_id@) ==> user_step::<P, T, R>(
            opted_out,
            channel_id,
            user_id,
            goal,
        ) == Err::<Step<P, T, R>, _>(Refusal::UserOptedOut),
        opted_out.contains(user_id@) ==> everywhere_step::<P, T, R>(
            opted_out,
            user_id,
            everywhere,
        ) == Err::<
            Step<P, T, R>,
            _,
        >(Refusal::ChannelOptedOut),
{
}

/// A request about a user in a channel, neither of whom has opted out, is refused for no opt-out.
/// Unless it names a month that has no logs, it comes to what it asks for, about that channel and
/// that user, with the parameters that it was made with.
pub proof fn law_users_are_served<P, T, R>(
    opted_out: Set<Seq<char>>,
    channel_id: String,
    user_id: String,
    goal: UserGoal<P, T, R>,
)
    requires
        !opted_out.contains(channel_id@),
        !opted_out.contains(user_id@),
    ensures
        ({
            let step = user_path_step::<P, T, R>(
                opted_out,
                UserLogPathParams {
                    channel_id_type: ChannelIdType::Id,
                    channel: channel_id,
                    user_id_type: UserIdType::Id,
                    user: user_id,
                },
                goal,
            );
            &&& step matches Err(refusal) ==> goal is ByMonth && !(refusal is ChannelOptedOut)
                && !(refusal is UserOptedOut)
            &&& match goal {
                UserGoal::Logs { channel_word, channel, user_word, user, range, params, query } => {
                    &&& range matches Some(range) ==> step == Ok::<_, Refusal>(
                        Step::<P, T, R>::Read {
                            query: ReadQuery::User {
                                channel_id,
                                user_id,
                                params: params.read,
                                range,
                            },
                            then: Reading {
                                cache: CacheRule::RangeEnd(range.to),
                                response_type: params.response_type,
                            },
                        },
                    )
                    &&& range is None ==> step == Ok::<_, Refusal>(
                        Step::<P, T, R>::FindLatest {
                            query: AvailableQuery::User { channel_id, user_id },
                            then: Redirection::User {
                                channel_word,
                                channel,
                                user_word,
                                user,
                                query,
                            },
                        },
                    )
                },
                UserGoal::ByMonth { month, params } => match month_logs(
                    month.year@,
                    month.month@,
                ) {
                    Ok(range) => step == Ok::<_, Refusal>(
                        Step::<P, T, R>::Read {
                            query: ReadQuery::User {
                                channel_id,
                                user_id,
                                params: params.read,
                                range,
                            },
                            then: Reading {
                                cache: CacheRule::RangeEnd(range.to),
                                response_type: params.response_type,
                            },
                        },
                    ),
                    Err(refusal) => step == Err::<Step<P, T, R>, _>(refusal),
                },
                UserGoal::RandomLine { params } => step == Ok::<_, Refusal>(
                    Step::<P, T, R>::Read {
                        query: ReadQuery::RandomUserLine { channel_id, user_id },
                        then: Reading {
                            cache: CacheRule::Never,
                            response_type: params.response_type,
                        },
                    },
                ),
                UserGoal::Search { q, params } => step == Ok::<_, Refusal>(
                    Step::<P, T, R>::Read {
                        query: ReadQuery::SearchUser {
                            channel_id,
                            user_id,
                            q,
                            params: params.read,
                        },
                        then: Reading {
                            cache: CacheRule::Unstated,
                            response_type: params.response_type,
                        },
                    },
                ),
                UserGoal::Stats { range_params } => step == Ok::<_, Refusal>(
                    Step::<P, T, R>::FindLogin(LoginGoal { channel_id, user_id, range_params }),
                ),
                UserGoal::Available => step == Ok::<_, Refusal>(
                    Step::<P, T, R>::ListAvailable(AvailableQuery::User { channel_id, user_id }),
                ),
            }
        }),
{
    lemma_months_refuse_nobody(goal);
}

proof fn lemma_months_refuse_nobody<P, T, R>(goal: UserGoal<P, T, R>)
    ensures
        goal matches UserGoal::ByMonth { month, .. } ==> (month_logs(
            month.year@,
            month.month@,
        ) matches Err(refusal) ==> !(refusal is ChannelOptedOut) && !(refusal is UserOptedOut)),
{
}

/// A request about a user in a channel is refused for the channel if that has opted out, and else
/// for the user if they have, whatever it asks for; one about a user in all channels is refused as
/// for a channel.
pub proof fn law_requests_about_opted_out_users_are_refused<P, T, R>(
    opted_out: Set<Seq<char>>,
    channel_id: String,
    user_id: String,
    goal: UserGoal<P, T, R>,
    everywhere: EverywhereGoal<P, T>,
)
    ensures
        ({
            let step = user_path_step::<P, T, R>(
                opted_out,
                UserLogPathParams {
                    channel_id_type: ChannelIdType::Id,
                    channel: channel_id,
                    user_id_type: UserIdType::Id,
                    user: user_id,
                },
                goal,
            );
            &&& opted_out.contains(channel_id@) ==> step == Err::<Step<P, T, R>, _>(
                Refusal::ChannelOptedOut,
            )
            &&& !opted_out.contains(channel_id@) && opted_out.contains(user_id@) ==> step == Err::<
                Step<P, T, R>,
                _,
            >(Refusal::UserOptedOut)
        }),
        opted_out.contains(user_id@) ==> everywhere_path_step::<P, T, R>(
            opted_out,
            UserLogsPath { user_id_type: UserIdType::Id, user: user_id },
            everywhere,
        ) == Err::<Step<P, T, R>, _>(Refusal::ChannelOptedOut),
{
}

/// A request about a channel is refused for an opt-out if and only if the channel has opted out and
/// what is asked for are logs of a range or which logs there are: the way to the newest logs, a
/// random line and statistics are not. Unless it is refused, or names a date that has no logs, it
/// comes to what it asks for, about that channel, with the parameters that it was made with.
pub proof fn law_channels_are_served<P, T, R>(
    opted_out: Set<Seq<char>>,
    channel_id: String,
    goal: ChannelGoal<P, T, R>,
)
    ensures
        ({
            let step = channel_path_step::<P, T, R>(
                opted_out,
                LogsPathChannel { channel_id_type: ChannelIdType::Id, channel: channel_id },
                goal,
            );
            let refused = step == Err::<Step<P, T, R>, _>(Refusal::ChannelOptedOut);
            let out = opted_out.contains(channel_id@);
            &&& step != Err::<Step<P, T, R>, _>(Refusal::UserOptedOut)
            &&& match goal {
                ChannelGoal::Logs { id_word, channel, range, params, query } => {
                    &&& range matches Some(range) ==> (refused <==> out) && (!out
                        ==> step == Ok::<_, Refusal>(
                            Step::<P, T, R>::Read {
                                query: ReadQuery::Channel {
                                    channel_id,
                                    params: params.read,
                                    range,
                                },
                                then: Reading {
                                    cache: CacheRule::RangeEnd(range.to),
                                    response_type: params.response_type,
                                },
                            },
                        ))
                    &&& range is None ==> step == Ok::<_, Refusal>(
                        Step::<P, T, R>::FindLatest {
                            query: AvailableQuery::Channel { channel_id },
                            then: Redirection::Channel { id_word, channel, query },
                        },
                    )
                },
                ChannelGoal::ByDate { date, params } => match day_logs(
                    date.year@,
                    date.month@,
                    date.day@,
                ) {
                    Ok(range) => (refused <==> out) && (!out ==> step == Ok::<_, Refusal>(
                        Step::<P, T, R>::Read {
                            query: ReadQuery::Channel { channel_id, params: params.read, range },
                            then: Reading {
                                cache: CacheRule::RangeEnd(range.to),
                                response_type: params.response_type,
                            },
                        },
                    )),
                    Err(refusal) => step == Err::<Step<P, T, R>, _>(refusal),
                },
                ChannelGoal::ByMonth { month, params } => match month_logs(
                    month.year@,
                    month.month@,
                ) {
                    Ok(range) => (refused <==> out) && (!out ==> step == Ok::<_, Refusal>(
                        Step::<P, T, R>::Read {
                            query: ReadQuery::Channel { channel_id, params: params.read, range },
                            then: Reading {
                                cache: CacheRule::RangeEnd(range.to),
                                response_type: params.response_type,
                            },
                        },
                    )),
                    Err(refusal) => step == Err::<Step<P, T, R>, _>(refusal),
                },
                ChannelGoal::All { params } => (refused <==> out) && (!out ==> step == Ok::<
                    _,
                    Refusal,
                >(Step::<P, T, R>::FindRange(RangeQuery::Channel { channel_id, params }))),
                ChannelGoal::RandomLine { params } => step == Ok::<_, Refusal>(
                    Step::<P, T, R>::Read {
                        query: ReadQuery::RandomChannelLine { channel_id },
                        then: Reading {
                            cache: CacheRule::Never,
                            response_type: params.response_type,
                        },
                    },
                ),
                ChannelGoal::Stats { range_params } => step == Ok::<_, Refusal>(
                    Step::<P, T, R>::ReadChannelStats { channel_id, range_params },
                ),
                ChannelGoal::Available => (refused <==> out) && (!out ==> step == Ok::<
                    _,
                    Refusal,
                >(Step::<P, T, R>::ListAvailable(AvailableQuery::Channel { channel_id }))),
            }
        }),
{
}

/// A request about a user in all channels who has not opted out is refused for no opt-out. Unless
/// it names a month that has no logs, it comes to what it asks for, about that user, with the
/// parameters that it was made with.
pub proof fn law_users_are_served_everywhere<P, T, R>(
    opted_out: Set<Seq<char>>,
    user_id: String,
    goal: EverywhereGoal<P, T>,
)
    requires
        !opted_out.contains(user_id@),
    ensures
        ({
            let step = everywhere_path_step::<P, T, R>(
                opted_out,
                UserLogsPath { user_id_type: UserIdType::Id, user: user_id },
                goal,
            );
            match goal {
                EverywhereGoal::All { params } => step == Ok::<_, Refusal>(
                    Step::<P, T, R>::FindRange(RangeQuery::User { user_id, params }),
                ),
                EverywhereGoal::ByMonth { month, params } => match month_logs(
                    month.year@,
                    month.month@,
                ) {
                    Ok(range) => step == Ok::<_, Refusal>(
                        Step::<P, T, R>::Read {
                            query: ReadQuery::UserAllChannels {
                                user_id,
                                params: params.read,
                                range,
                            },
                            then: Reading {
                                cache: CacheRule::RangeEnd(range.to),
                                response_type: params.response_type,
                            },
                        },
                    ),
                    Err(refusal) => step == Err::<Step<P, T, R>, _>(refusal),
                },
                EverywhereGoal::Available => step == Ok::<_, Refusal>(
                    Step::<P, T, R>::ListAvailable(AvailableQuery::UserAllChannels { user_id }),
                ),
            }
        }),
{
}

/// Without a range nothing is found. With one, the logs of that range are read, of the channel or
/// the user for whom it was looked for, with the parameters of the request, unless the channel has
/// opted out.
pub proof fn law_found_ranges_are_read<P, T, R>(
    opted_out: Set<Seq<char>>,
    id: String,
    params: LogsParams<P, T>,
    range: LogRange,
)
    ensures
        ({
            let of_channel = RangeQuery::Channel { channel_id: id, params };
            let of_user = RangeQuery::User { user_id: id, params };
            &&& of_channel.after::<R>(opted_out, None) == Err::<Step<P, T, R>, _>(
                Refusal::NotFound,
            )
            &&& of_user.after::<R>(opted_out, None) == Err::<Step<P, T, R>, _>(Refusal::NotFound)
            &&& opted_out.contains(id@) ==> of_channel.after::<R>(opted_out, Some(range)) == Err::<
                Step<P, T, R>,
                _,
            >(Refusal::ChannelOptedOut)
            &&& !opted_out.contains(id@) ==> of_channel.after::<R>(
                opted_out,
                Some(range),
            ) == Ok::<_, Refusal>(
                Step::<P, T, R>::Read {
                    query: ReadQuery::Channel { channel_id: id, params: params.read, range },
                    then: Reading {
                        cache: CacheRule::RangeEnd(range.to),
                        response_type: params.response_type,
                    },
                },
            )
            &&& of_user.after::<R>(opted_out, Some(range)) == Ok::<_, Refusal>(
                Step::<P, T, R>::Read {
                    query: ReadQuery::UserAllChannels { user_id: id, params: params.read, range },
                    then: Reading {
                        cache: CacheRule::RangeEnd(range.to),
                        response_type: params.response_type,
                    },
                },
            )
        }),
{
}

/// With the login of a user, their messages are counted: of that user, in that channel, in that
/// range.
pub proof fn law_found_logins_are_counted<P, T, R>(goal: LoginGoal<R>, user_login: Option<String>)
    ensures
        goal.after::<P, T>(user_login) == (Step::<P, T, R>::ReadUserStats {
            channel_id: goal.channel_id,
            user_id: goal.user_id,
            user_login,
            range_params: goal.range_params,
        }),
{
}

/// What is decided ends a request that calls on something outside as it is.
pub proof fn law_decisions_are_kept<P, T, R, E>(step: Step<P, T, R>, refusal: Refusal)
    ensures
        decided::<P, T, R, E>(Ok(step)) == Ok::<_, FailureView<E>>(step),
        decided::<P, T, R, E>(Err(refusal)) == Err::<Step<P, T, R>, _>(
            FailureView::<E>::Refused(refusal),
        ),
{
}

/// A request that gives names looks for the id of the channel first and then for that of the user,
/// under the names that were given, and refuses nobody before; with an id it goes on as the request
/// that gives the id in place of that name.
pub proof fn law_names_are_looked_for_in_turn<P, T, R>(
    opted_out: Set<Seq<char>>,
    name: String,
    id: String,
    channel_goal: ChannelGoal<P, T, R>,
    channel_id: String,
    user: UserLogsPath,
    user_goal: UserGoal<P, T, R>,
    everywhere_goal: EverywhereGoal<P, T>,
)
    ensures
        ({
            let named = channel_path_step::<P, T, R>(
                opted_out,
                LogsPathChannel { channel_id_type: ChannelIdType::Name, channel: name },
                channel_goal,
            );
            &&& named matches Ok(Step::ResolveName { name: asked, then })
            &&& asked == name
            &&& then.after(opted_out, id) == channel_path_step::<P, T, R>(
                opted_out,
                LogsPathChannel { channel_id_type: ChannelIdType::Id, channel: id },
                channel_goal,
            )
        }),
        ({
            let named = user_path_step::<P, T, R>(
                opted_out,
                UserLogPathParams {
                    channel_id_type: ChannelIdType::Name,
                    channel: name,
                    user_id_type: user.user_id_type,
                    user: user.user,
                },
                user_goal,
            );
            &&& named matches Ok(Step::ResolveName { name: asked, then })
            &&& asked == name
            &&& then.after(opted_out, id) == user_path_step::<P, T, R>(
                opted_out,
                UserLogPathParams {
                    channel_id_type: ChannelIdType::Id,
                    channel: id,
                    user_id_type: user.user_id_type,
                    user: user.user,
                },
                user_goal,
            )
        }),
        ({
            let named = user_path_step::<P, T, R>(
                opted_out,
                UserLogPathParams {
                    channel_id_type: ChannelIdType::Id,
                    channel: channel_id,
                    user_id_type: UserIdType::Name,
                    user: name,
                },
                user_goal,
            );
            &&& named matches Ok(Step::ResolveName { name: asked, then })
            &&& asked == name
            &&& then.after(opted_out, id) == user_path_step::<P, T, R>(
                opted_out,
                UserLogPathParams {
                    channel_id_type: ChannelIdType::Id,
                    channel: channel_id,
                    user_id_type: UserIdType::Id,
                    user: id,
                },
                user_goal,
            )
        }),
        ({
            let named = everywhere_path_step::<P, T, R>(
                opted_out,
                UserLogsPath { user_id_type: UserIdType::Name, user: name },
                everywhere_goal,
            );
            &&& named matches Ok(Step::ResolveName { name: asked, then })
            &&& asked == name
            &&& then.after(opted_out, id) == everywhere_path_step::<P, T, R>(
                opted_out,
                UserLogsPath { user_id_type: UserIdType::Id, user: id },
                everywhere_goal,
            )
        }),
{
}

/// A name stands for its id: once it is resolved, a request goes on as the one with the id does.
pub proof fn law_names_stand_for_ids<P, T, R>(
    opted_out: Set<Seq<char>>,
    id: String,
    channel_goal: ChannelGoal<P, T, R>,
    channel_id: String,
    user: UserLogsPath,
    user_goal: UserGoal<P, T, R>,
    everywhere_goal: EverywhereGoal<P, T>,
)
    ensures
        NameGoal::Channel(channel_goal).after(opted_out, id) == channel_path_step::<P, T, R>(
            opted_out,
            LogsPathChannel { channel_id_type: ChannelIdType::Id, channel: id },
            channel_goal,
        ),
        (NameGoal::ChannelOfUser {
            user_id_type: user.user_id_type,
            user: user.user,
            goal: user_goal,
        }).after(opted_out, id) == user_path_step::<P, T, R>(
            opted_out,
            UserLogPathParams {
                channel_id_type: ChannelIdType::Id,
                channel: id,
                user_id_type: user.user_id_type,
                user: user.user,
            },
            user_goal,
        ),
        (NameGoal::UserOfChannel { channel_id, goal: user_goal }).after(opted_out, id)
            == user_path_step::<P, T, R>(
            opted_out,
            UserLogPathParams {
                channel_id_type: ChannelIdType::Id,
                channel: channel_id,
                user_id_type: UserIdType::Id,
                user: id,
            },
            user_goal,
        ),
        NameGoal::<P, T, R>::Everywhere(everywhere_goal).after(
            opted_out,
            id,
        ) == everywhere_path_step::<P, T, R>(
            opted_out,
            UserLogsPath { user_id_type: UserIdType::Id, user: id },
            everywhere_goal,
        ),
{
}

/// What a request is for.
pub enum Purpose {
    /// Logs, or the way to the newest ones.
    Logs,
    /// The dates of logs.
    Listing,
    /// How many messages a channel has, and whose.
    ChannelStats,
    /// How many messages a user has in a channel.
    UserStats,
    /// The names that a user has had.
    NameHistory,
}

impl<P, T, R> ChannelGoal<P, T, R> {
    /// What a request with this goal is for.
    pub open spec fn purpose(self) -> Purpose {
        match self {
            ChannelGoal::Stats { .. } => Purpose::ChannelStats,
            ChannelGoal::Available => Purpose::Listing,
            _ => Purpose::Logs,
        }
    }
}

impl<P, T, R> UserGoal<P, T, R> {
    /// What a request with this goal is for.
    pub open spec fn purpose(self) -> Purpose {
        match self {
            UserGoal::Stats { .. } => Purpose::UserStats,
            UserGoal::Available => Purpose::Listing,
            _ => Purpose::Logs,
        }
    }
}

impl<P, T> EverywhereGoal<P, T> {
    /// What a request with this goal is for.
    pub open spec fn purpose(self) -> Purpose {
        match self {
            EverywhereGoal::Available => Purpose::Listing,
            _ => Purpose::Logs,
        }
    }
}

impl<P, T, R> NameGoal<P, T, R> {
    /// What a request with this goal is for.
    pub open spec fn purpose(self) -> Purpose {
        match self {
            NameGoal::Channel(goal) => goal.purpose(),
            NameGoal::ChannelOfUser { goal, .. } => goal.purpose(),
            NameGoal::UserOfChannel { goal, .. } => goal.purpose(),
            NameGoal::Everywhere(goal) => goal.purpose(),
        }
    }
}

impl<P, T, R> Step<P, T, R> {
    /// What a request that has come to this step is for.
    pub open spec fn purpose(self) -> Purpose {
        match self {
            Step::ResolveName { then, .. } => then.purpose(),
            Step::FindRange(_) => Purpose::Logs,
            Step::FindLatest { .. } => Purpose::Logs,
            Step::ListAvailable(_) => Purpose::Listing,
            Step::Read { .. } => Purpose::Logs,
            Step::ReadChannelStats { .. } => Purpose::ChannelStats,
            Step::FindLogin(_) => Purpose::UserStats,
            Step::ReadUserStats { .. } => Purpose::UserStats,
            Step::ReadNameHistory { .. } => Purpose::NameHistory,
        }
    }

    /// Whether the request has still to find out which logs it is about.
    pub open spec fn is_unsettled(self) -> bool {
        self is ResolveName || self is FindRange
    }

    /// Whether this step is the one that a request for the given purpose comes to, once it knows
    /// which logs it is about.
    pub open spec fn serves(self, purpose: Purpose) -> bool {
        match purpose {
            Purpose::Logs => self is Read || self is FindLatest,
            Purpose::Listing => self is ListAvailable,
            Purpose::ChannelStats => self is ReadChannelStats,
            Purpose::UserStats => self is FindLogin,
            Purpose::NameHistory => self is ReadNameHistory,
        }
    }

    /// Whether a request for the given purpose may be at this step before it looks for a login.
    pub open spec fn leads_to(self, purpose: Purpose) -> bool {
        self.purpose() == purpose && (self.is_unsettled() || self.serves(purpose))
    }
}

/// A request stays what it is for: it looks for names and a range first, and then comes to the
/// step that serves its purpose.
pub proof fn law_requests_serve_their_purpose<P, T, R>(
    opted_out: Set<Seq<char>>,
    channel: LogsPathChannel,
    channel_goal: ChannelGoal<P, T, R>,
    user: UserLogPathParams,
    user_goal: UserGoal<P, T, R>,
    everywhere: UserLogsPath,
    everywhere_goal: EverywhereGoal<P, T>,
)
    ensures
        channel_path_step::<P, T, R>(opted_out, channel, channel_goal) matches Ok(step)
            ==> step.leads_to(channel_goal.purpose()),
        user_path_step::<P, T, R>(opted_out, user, user_goal) matches Ok(step) ==> step.leads_to(
            user_goal.purpose(),
        ),
        everywhere_path_step::<P, T, R>(opted_out, everywhere, everywhere_goal) matches Ok(step)
            ==> step.leads_to(everywhere_goal.purpose()),
{
}

/// So does a request that goes on: with the id of a login it still leads to its purpose, with a
/// range it comes to logs, and with the login of a user to the count of their messages.
pub proof fn law_requests_that_go_on_serve_their_purpose<P, T, R>(
    opted_out: Set<Seq<char>>,
    goal: NameGoal<P, T, R>,
    id: String,
    query: RangeQuery<P, T>,
    range: Option<LogRange>,
    login_goal: LoginGoal<R>,
    user_login: Option<String>,
)
    ensures
        goal.after(opted_out, id) matches Ok(step) ==> step.leads_to(goal.purpose()),
        query.after::<R>(opted_out, range) matches Ok(step) ==> step is Read,
        login_goal.after::<P, T>(user_login) is ReadUserStats,
{
}

/// How many answers a request still waits for at most, that to this step among them. A search for
/// users counts as one.
pub open spec fn answers_left<P, T, R>(step: Step<P, T, R>) -> nat {
    match step {
        Step::ResolveName { then: NameGoal::ChannelOfUser { .. }, .. } => 4,
        Step::ResolveName { .. } => 3,
        Step::FindRange(_) => 2,
        Step::ReadChannelStats { .. } => 2,
        Step::FindLogin(_) => 2,
        _ => 1,
    }
}

/// Every request comes to an end: with each answer there is at least one less to wait for.
pub proof fn law_requests_come_to_an_end<P, T, R>(
    opted_out: Set<Seq<char>>,
    name: String,
    goal: NameGoal<P, T, R>,
    id: String,
    query: RangeQuery<P, T>,
    range: Option<LogRange>,
    login_goal: LoginGoal<R>,
    user_login: Option<String>,
)
    ensures
        goal.after(opted_out, id) matches Ok(step) ==> answers_left(step) < answers_left(
            Step::ResolveName { name, then: goal },
        ),
        query.after::<R>(opted_out, range) matches Ok(step) ==> answers_left(step) < answers_left(
            Step::<P, T, R>::FindRange(query),
        ),
        answers_left(login_goal.after::<P, T>(user_login)) < answers_left(
            Step::<P, T, R>::FindLogin(login_goal),
        ),
{
}

} // verus!
