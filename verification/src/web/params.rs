//! The parameters of requests.

use vstd::prelude::*;

verus! {

/// How a path names a channel.
#[derive(Clone, Copy, Debug)]
pub enum ChannelIdType {
    Name,
    Id,
}

/// How a path names a user.
#[derive(Clone, Copy, Debug)]
pub enum UserIdType {
    Name,
    Id,
}

/// A channel in a path.
pub struct LogsPathChannel {
    pub channel_id_type: ChannelIdType,
    pub channel: String,
}

/// A user in a path.
pub struct UserLogsPath {
    pub user_id_type: UserIdType,
    pub user: String,
}

/// A user in a channel in a path.
pub struct UserLogPathParams {
    pub channel_id_type: ChannelIdType,
    pub channel: String,
    pub user_id_type: UserIdType,
    pub user: String,
}

/// A day in a path.
pub struct LogsPathDate {
    pub year: String,
    pub month: String,
    pub day: String,
}

/// A month in a path.
pub struct UserLogsDatePath {
    pub year: String,
    pub month: String,
}

/// A channel and a day in a path.
pub struct ChannelLogsByDatePath {
    pub channel_info: LogsPathChannel,
    pub date: LogsPathDate,
}

/// A channel and a month in a path.
pub struct ChannelLogsByMonthPath {
    pub channel_info: LogsPathChannel,
    pub date: UserLogsDatePath,
}

/// A channel in a query.
pub enum ChannelParam {
    ChannelId(String),
    Channel(String),
}

/// A user in a query.
pub enum UserParam {
    UserId(String),
    User(String),
}

/// The query for the logs that there are.
pub struct AvailableLogsParams {
    pub user: Option<UserParam>,
    pub channel: Option<ChannelParam>,
}

/// How a request wants its logs: what the database is told when it reads them, and the form in
/// which they are sent.
pub struct LogsParams<P, T> {
    pub read: P,
    pub response_type: T,
}

/// The query of a search.
pub struct SearchParams {
    pub q: String,
}

/// The user whose names are asked for.
pub struct UserNameHistoryParam {
    pub user_id: String,
}

impl ChannelParam {
    /// The channel as a path would name it.
    pub open spec fn as_path(self) -> LogsPathChannel {
        match self {
            ChannelParam::ChannelId(id) => LogsPathChannel {
                channel_id_type: ChannelIdType::Id,
                channel: id,
            },
            ChannelParam::Channel(name) => LogsPathChannel {
                channel_id_type: ChannelIdType::Name,
                channel: name,
            },
        }
    }

    /// The channel as a path would name it.
    pub fn into_path(self) -> (path: LogsPathChannel)
        ensures
            path == self.as_path(),
    {
        match self {
            ChannelParam::ChannelId(id) => LogsPathChannel {
                channel_id_type: ChannelIdType::Id,
                channel: id,
            },
            ChannelParam::Channel(name) => LogsPathChannel {
                channel_id_type: ChannelIdType::Name,
                channel: name,
            },
        }
    }
}

impl UserParam {
    /// The user as a path would name them.
    pub open spec fn as_path(self) -> UserLogsPath {
        match self {
            UserParam::UserId(id) => UserLogsPath { user_id_type: UserIdType::Id, user: id },
            UserParam::User(name) => UserLogsPath { user_id_type: UserIdType::Name, user: name },
        }
    }

    /// The user as a path would name them.
    pub fn into_path(self) -> (path: UserLogsPath)
        ensures
            path == self.as_path(),
    {
        match self {
            UserParam::UserId(id) => UserLogsPath { user_id_type: UserIdType::Id, user: id },
            UserParam::User(name) => UserLogsPath { user_id_type: UserIdType::Name, user: name },
        }
    }
}

/// An id in a query is taken as an id and a name as a name, and as that of the channel or the user
/// that was given.
pub proof fn law_params_name_whom_they_name(text: String)
    ensures
        ChannelParam::ChannelId(text).as_path() == (LogsPathChannel {
            channel_id_type: ChannelIdType::Id,
            channel: text,
        }),
        ChannelParam::Channel(text).as_path() == (LogsPathChannel {
            channel_id_type: ChannelIdType::Name,
            channel: text,
        }),
        UserParam::UserId(text).as_path() == (UserLogsPath {
            user_id_type: UserIdType::Id,
            user: text,
        }),
        UserParam::User(text).as_path() == (UserLogsPath {
            user_id_type: UserIdType::Name,
            user: text,
        }),
{
}

} // verus!
