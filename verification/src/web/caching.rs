//! For how long an answer may be kept.

use crate::calendar::{utc_now, Moment};
use crate::error::Failure;
use vstd::prelude::*;

verus! {

/// For how many seconds the logs of a range that is over may be kept.
pub const LOGS_MAX_AGE: u64 = 36000;

/// For how many seconds a listing may be kept.
pub const LISTING_MAX_AGE: u64 = 600;

/// What an answer says about being kept.
#[derive(Clone, Copy, Debug, PartialEq, Eq)]
pub struct CacheControl {
    pub public: bool,
    pub no_cache: bool,
    pub max_age: Option<u64>,
}

/// An answer that anyone may keep for some seconds.
pub open spec fn kept_for(secs: u64) -> CacheControl {
    CacheControl { public: true, no_cache: false, max_age: Some(secs) }
}

/// An answer that nobody may keep.
pub open spec fn not_kept() -> CacheControl {
    CacheControl { public: false, no_cache: true, max_age: None }
}

/// Lets anyone keep an answer for some seconds.
pub fn cache_header(secs: u64) -> (header: CacheControl)
    ensures
        header == kept_for(secs),
{
    CacheControl { public: true, no_cache: false, max_age: Some(secs) }
}

/// Lets nobody keep an answer.
pub fn no_cache_header() -> (header: CacheControl)
    ensures
        header == not_kept(),
{
    CacheControl { public: false, no_cache: true, max_age: None }
}

/// What decides whether logs may be kept.
#[derive(Clone, Copy, Debug)]
pub enum CacheRule {
    /// The range of the logs: they may be kept once it is over.
    RangeEnd(Moment),
    /// They may not be kept.
    Never,
    /// Nothing is said.
    Unstated,
}

impl CacheRule {
    /// What logs that are sent at a given moment say about being kept.
    pub open spec fn at(self, now: Moment) -> Option<CacheControl> {
        match self {
            CacheRule::RangeEnd(end) => if now.precedes(end) {
                Some(not_kept())
            } else {
                Some(kept_for(LOGS_MAX_AGE))
            },
            CacheRule::Never => Some(not_kept()),
            CacheRule::Unstated => None,
        }
    }

    /// What logs that are sent at a given moment say about being kept.
    pub fn header_at(&self, now: Moment) -> (header: Option<CacheControl>)
        ensures
            header == self.at(now),
    {
        match self {
            CacheRule::RangeEnd(end) => if now.is_before(end) {
                Some(no_cache_header())
            } else {
                Some(cache_header(LOGS_MAX_AGE))
            },
            CacheRule::Never => Some(no_cache_header()),
            CacheRule::Unstated => None,
        }
    }
}

/// Logs in the form that was asked for, with what they say about being kept.
pub struct LogsResponse<T, S> {
    pub cache: Option<CacheControl>,
    pub response_type: T,
    pub stream: S,
}

/// A request while its logs are being read.
pub struct Reading<T> {
    pub cache: CacheRule,
    /// The form in which the logs are sent.
    pub response_type: T,
}

impl<T> Reading<T> {
    /// The answer, if the logs have been read by the given moment.
    pub open spec fn answer<S, E>(self, now: Moment, reply: Result<S, E>) -> Result<
        LogsResponse<T, S>,
        Failure<E>,
    > {
        match reply {
            Ok(stream) => Ok(
                LogsResponse {
                    cache: self.cache.at(now),
                    response_type: self.response_type,
                    stream,
                },
            ),
            Err(error) => Err(Failure::Failed(error)),
        }
    }

    /// Answers when the logs have been read by the given moment.
    pub fn respond<S, E>(self, now: Moment, reply: Result<S, E>) -> (answer: Result<
        LogsResponse<T, S>,
        Failure<E>,
    >)
        ensures
            answer == self.answer(now, reply),
    {
        match reply {
            Ok(stream) => Ok(
                LogsResponse {
                    cache: self.cache.header_at(now),
                    response_type: self.response_type,
                    stream,
                },
            ),
            Err(error) => Err(Failure::Failed(error)),
        }
    }

    /// Answers when the logs have been read, by the clock of the machine.
    pub fn resume<S, E>(self, reply: Result<S, E>) -> (answer: Result<
        LogsResponse<T, S>,
        Failure<E>,
    >)
        ensures
            exists|now: Moment| answer == #[trigger] self.answer(now, reply),
    {
        let now = utc_now();
        let answer = self.respond(now, reply);
        assert(answer == self.answer(now, reply));
        answer
    }
}

/// Logs of a range that is not over may not be kept, and those of one that is over may, from
/// then on.
pub proof fn law_only_finished_ranges_are_kept(end: Moment, now: Moment, later: Moment)
    ensures
        now.precedes(end) ==> CacheRule::RangeEnd(end).at(now) == Some(not_kept()),
        !now.precedes(end) ==> CacheRule::RangeEnd(end).at(now) == Some(kept_for(LOGS_MAX_AGE)),
        !now.precedes(end) && !later.precedes(now) ==> CacheRule::RangeEnd(end).at(later)
            == CacheRule::RangeEnd(end).at(now),
{
}

/// An answer that may be kept says so to everyone, for the given seconds; one that may not be
/// kept says that and nothing else.
pub proof fn law_headers_say_what_is_meant(secs: u64)
    ensures
        kept_for(secs).public && !kept_for(secs).no_cache && kept_for(secs).max_age == Some(secs),
        !not_kept().public && not_kept().no_cache && not_kept().max_age is None,
        LOGS_MAX_AGE == 36000,
        LISTING_MAX_AGE == 600,
{
}

/// Logs are sent as they were read and in the form that was asked for. What they say about being
/// kept depends on the moment only where their range decides it.
pub proof fn law_answers_hold_the_logs<T, S, E>(
    response_type: T,
    end: Moment,
    rule: CacheRule,
    now: Moment,
    stream: S,
    error: E,
)
    ensures
        (Reading { cache: CacheRule::Never, response_type }).answer::<S, E>(now, Ok(stream))
            == Ok::<_, Failure<E>>(
            LogsResponse { cache: Some(not_kept()), response_type, stream },
        ),
        (Reading { cache: CacheRule::Unstated, response_type }).answer::<S, E>(now, Ok(stream))
            == Ok::<_, Failure<E>>(LogsResponse { cache: None, response_type, stream }),
        (Reading { cache: CacheRule::RangeEnd(end), response_type }).answer::<S, E>(
            now,
            Ok(stream),
        ) == Ok::<_, Failure<E>>(
            LogsResponse {
                cache: Some(
                    if now.precedes(end) {
                        not_kept()
                    } else {
                        kept_for(36000)
                    },
                ),
                response_type,
                stream,
            },
        ),
        (Reading { cache: rule, response_type }).answer::<S, E>(now, Err(error)) == Err::<
            LogsResponse<T, S>,
            _,
        >(Failure::Failed(error)),
{
}

} // verus!
