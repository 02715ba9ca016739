//! Calendar dates, moments in time and the ranges of time that log paths name.

use crate::error::{outcome, Error, Refusal};
use chrono::{DateTime, Days, Months, NaiveDate, NaiveTime, Utc};
use std::num::ParseIntError;
use vstd::prelude::*;

verus! {

/// The first year of the calendar.
pub const MIN_YEAR: i32 = -262143;

/// The last year of the calendar.
pub const MAX_YEAR: i32 = 262142;

/// The number of seconds in a day.
pub const DAY_SECONDS: i64 = 86400;

/// A moment in UTC: whole seconds since the start of 1970, and the nanoseconds past them.
#[derive(Clone, Copy, Debug, PartialEq, Eq)]
pub struct Moment {
    pub seconds: i64,
    pub nanos: u32,
}

impl Moment {
    /// Whether this moment comes before `other`.
    pub open spec fn precedes(self, other: Moment) -> bool {
        self.seconds < other.seconds || (self.seconds == other.seconds && self.nanos < other.nanos)
    }

    /// Whether this moment comes before `other`.
    pub fn is_before(&self, other: &Moment) -> (before: bool)
        ensures
            before == self.precedes(*other),
    {
        self.seconds < other.seconds || (self.seconds == other.seconds && self.nanos < other.nanos)
    }
}

/// The logs from one moment up to another.
#[derive(Clone, Copy, Debug, PartialEq, Eq)]
pub struct LogRange {
    pub from: Moment,
    pub to: Moment,
}

/// Whether a year of the Gregorian calendar has a 29th of February.
pub open spec fn is_leap_year(year: int) -> bool {
    year % 4 == 0 && (year % 100 != 0 || year % 400 == 0)
}

/// The number of days of a month.
pub open spec fn days_in_month(year: int, month: int) -> int {
    if month == 2 {
        if is_leap_year(year) { 29 } else { 28 }
    } else if month == 4 || month == 6 || month == 9 || month == 11 {
        30
    } else {
        31
    }
}

/// The number of days of a year that come before the first of a month.
pub open spec fn days_before_month(year: int, month: int) -> int
    decreases month,
{
    if month <= 1 {
        0
    } else {
        days_before_month(year, month - 1) + days_in_month(year, month - 1)
    }
}

/// The number of days from the first day of the year 1 to the first day of a year.
pub open spec fn days_before_year(year: int) -> int {
    365 * (year - 1) + (year - 1) / 4 - (year - 1) / 100 + (year - 1) / 400
}

/// Whether a year, a month and a day name a date of the calendar.
pub open spec fn is_date(year: int, month: int, day: int) -> bool {
    &&& MIN_YEAR <= year <= MAX_YEAR
    &&& 1 <= month <= 12
    &&& 1 <= day <= days_in_month(year, month)
}

/// The seconds from the start of 1970 to the start of a date, in UTC.
pub open spec fn midnight(year: int, month: int, day: int) -> int {
    DAY_SECONDS * (days_before_year(year) + days_before_month(year, month) + day - 1
        - days_before_year(1970))
}

/// Whether a number of seconds lies within the calendar.
pub open spec fn in_calendar(seconds: int) -> bool {
    midnight(MIN_YEAR as int, 1, 1) <= seconds < midnight(MAX_YEAR as int, 12, 31) + DAY_SECONDS
}

/// The year and the month that come `months` months after a given one.
pub open spec fn month_after(year: int, month: int, months: int) -> (int, int) {
    let count = 12 * year + month - 1 + months;
    (count / 12, count % 12 + 1)
}

/// The smaller of two numbers.
pub open spec fn smaller(a: int, b: int) -> int {
    if a <= b { a } else { b }
}

/// What adding months to a moment gives: the same time of the same day of the month that many
/// months later, or of the last day of that month where it is too short, if the calendar still
/// holds that month.
pub open spec fn is_months_later(seconds: int, months: int, later: Option<i64>) -> bool {
    forall|year: int, month: int, day: int|
        is_date(year, month, day) && 0 <= seconds - #[trigger] midnight(year, month, day)
            < DAY_SECONDS ==> {
            let (y, m) = month_after(year, month, months);
            let d = smaller(day, days_in_month(y, m));
            &&& later is Some <==> MIN_YEAR <= y <= MAX_YEAR
            &&& later matches Some(at) ==> at == midnight(y, m, d) + (seconds - midnight(
                year,
                month,
                day,
            ))
        }
}

/// `NaiveDate::from_ymd_opt`, and of the date it gives the start in UTC (`and_time` with the
/// default `NaiveTime`, `and_utc`) as a `timestamp`: there is one for each date of the calendar,
/// which is the proleptic Gregorian one from `MIN_YEAR` to `MAX_YEAR`, and none otherwise.
#[verifier::external_body]
fn utc_midnight(year: i32, month: u32, day: u32) -> (seconds: Option<i64>)
    ensures
        seconds is Some <==> is_date(year as int, month as int, day as int),
        seconds matches Some(at) ==> at == midnight(year as int, month as int, day as int),
{
    NaiveDate::from_ymd_opt(year, month, day)
        .map(|date| date.and_time(NaiveTime::default()).and_utc().timestamp())
}

/// `DateTime::<Utc>::checked_add_days`, on a moment that is made by `from_timestamp` and given
/// back by `timestamp`: the moment that many days later, if the calendar still holds it.
#[verifier::external_body]
fn checked_add_days(seconds: i64, days: u64) -> (later: Option<i64>)
    requires
        in_calendar(seconds as int),
    ensures
        later is Some <==> in_calendar(seconds + DAY_SECONDS * days),
        later matches Some(at) ==> at == seconds + DAY_SECONDS * days,
{
    DateTime::<Utc>::from_timestamp(seconds, 0)
        .and_then(|at| at.checked_add_days(Days::new(days)))
        .map(|at| at.timestamp())
}

/// `DateTime::<Utc>::checked_add_months`, on a moment that is made by `from_timestamp` and given
/// back by `timestamp`: what `is_months_later` says, whatever the date and the time of day of
/// that moment are.
#[verifier::external_body]
fn checked_add_months(seconds: i64, months: u32) -> (later: Option<i64>)
    requires
        in_calendar(seconds as int),
    ensures
        is_months_later(seconds as int, months as int, later),
{
    DateTime::<Utc>::from_timestamp(seconds, 0)
        .and_then(|at| at.checked_add_months(Months::new(months)))
        .map(|at| at.timestamp())
}

/// `Utc::now`: the moment of the call by the machine's clock, about which nothing is claimed.
/// Where that clock is set before the start of 1970, the call does not return.
#[verifier::external_body]
pub(crate) fn utc_now() -> (now: Moment) {
    let now = Utc::now();
    Moment { seconds: now.timestamp(), nanos: now.timestamp_subsec_nanos() }
}

/// `std::num::ParseIntError`, which is only carried through.
#[verifier::external_type_specification]
#[verifier::external_body]
pub struct ExParseIntError(ParseIntError);

/// Whether a text is a non-empty run of the digits 0 to 9.
pub open spec fn is_decimal(text: Seq<char>) -> bool {
    text.len() > 0 && forall|i: int| 0 <= i < text.len() ==> '0' <= #[trigger] text[i] <= '9'
}

/// The number that a run of digits writes.
pub open spec fn decimal_value(text: Seq<char>) -> int
    decreases text.len(),
{
    if text.len() == 0 {
        0
    } else {
        10 * decimal_value(text.drop_last()) + (text.last() as int - '0' as int)
    }
}

/// The number that a text writes: digits behind an optional `+`, or behind a `-` where
/// `signed` allows it.
pub open spec fn written_integer(text: Seq<char>, signed: bool) -> Option<int> {
    let rest = text.skip(1);
    if text.len() > 0 && text[0] == '+' && is_decimal(rest) {
        Some(decimal_value(rest))
    } else if text.len() > 0 && text[0] == '-' && signed && is_decimal(rest) {
        Some(-decimal_value(rest))
    } else if is_decimal(text) {
        Some(decimal_value(text))
    } else {
        None
    }
}

/// The year that a text writes, if it writes an `i32`.
pub open spec fn written_i32(text: Seq<char>) -> Option<int> {
    match written_integer(text, true) {
        Some(n) => if i32::MIN <= n <= i32::MAX { Some(n) } else { None },
        None => None,
    }
}

/// The number that a text writes, if it writes a `u32`.
pub open spec fn written_u32(text: Seq<char>) -> Option<int> {
    match written_integer(text, false) {
        Some(n) => if n <= u32::MAX { Some(n) } else { None },
        None => None,
    }
}

/// The error that `str::parse::<i32>` gives for a text that writes no `i32`.
pub uninterp spec fn i32_error(text: Seq<char>) -> ParseIntError;

/// The error that `str::parse::<u32>` gives for a text that writes no `u32`.
pub uninterp spec fn u32_error(text: Seq<char>) -> ParseIntError;

/// `str::parse::<i32>`: reads an optional sign and decimal digits, and fails on any other text
/// and on a number that an `i32` cannot hold. Its error depends on the text alone; which one it
/// is for a given text is left open.
#[verifier::external_body]
fn parse_i32(text: &str) -> (number: Result<i32, ParseIntError>)
    ensures
        number is Ok <==> written_i32(text@) is Some,
        number matches Ok(n) ==> written_i32(text@) == Some(n as int),
        number matches Err(error) ==> error == i32_error(text@),
{
    text.parse()
}

/// `str::parse::<u32>`: reads an optional `+` and decimal digits, and fails on any other text
/// and on a number that a `u32` cannot hold. Its error depends on the text alone; which one it
/// is for a given text is left open.
#[verifier::external_body]
fn parse_u32(text: &str) -> (number: Result<u32, ParseIntError>)
    ensures
        number is Ok <==> written_u32(text@) is Some,
        number matches Ok(n) ==> written_u32(text@) == Some(n as int),
        number matches Err(error) ==> error == u32_error(text@),
{
    text.parse()
}

/// The range of the logs of one day, by the texts that name the day. The first of them that is
/// not a number is the one that is refused.
pub open spec fn day_logs(year: Seq<char>, month: Seq<char>, day: Seq<char>) -> Result<
    LogRange,
    Refusal,
> {
    match (written_i32(year), written_u32(month), written_u32(day)) {
        (Some(y), Some(m), Some(d)) => if !is_date(y, m, d) {
            Err(Refusal::InvalidParam("Invalid date"@))
        } else if !in_calendar(midnight(y, m, d) + DAY_SECONDS) {
            Err(Refusal::InvalidParam("Date out of range"@))
        } else {
            Ok(whole_seconds(midnight(y, m, d), midnight(y, m, d) + DAY_SECONDS))
        },
        (None, _, _) => Err(Refusal::ParseInt(i32_error(year))),
        (_, None, _) => Err(Refusal::ParseInt(u32_error(month))),
        (_, _, None) => Err(Refusal::ParseInt(u32_error(day))),
    }
}

/// The range of the logs of one month, by the texts that name the month. The first of them that
/// is not a number is the one that is refused.
pub open spec fn month_logs(year: Seq<char>, month: Seq<char>) -> Result<LogRange, Refusal> {
    match (written_i32(year), written_u32(month)) {
        (Some(y), Some(m)) => {
            let (next_year, next_month) = month_after(y, m, 1);
            if !is_date(y, m, 1) {
                Err(Refusal::InvalidParam("Invalid date"@))
            } else if next_year > MAX_YEAR {
                Err(Refusal::InvalidParam("Date out of range"@))
            } else {
                Ok(whole_seconds(midnight(y, m, 1), midnight(next_year, next_month, 1)))
            }
        },
        (None, _) => Err(Refusal::ParseInt(i32_error(year))),
        (_, None) => Err(Refusal::ParseInt(u32_error(month))),
    }
}

/// The range between two whole seconds.
pub open spec fn whole_seconds(from: int, to: int) -> LogRange {
    LogRange {
        from: Moment { seconds: from as i64, nanos: 0 },
        to: Moment { seconds: to as i64, nanos: 0 },
    }
}

/// The range of the logs of one day.
pub fn day_range(year: &str, month: &str, day: &str) -> (range: Result<LogRange, Error>)
    ensures
        outcome(range) == day_logs(year@, month@, day@),
{
    let year: i32 = match parse_i32(year) {
        Ok(year) => year,
        Err(error) => return Err(Error::ParseInt(error)),
    };
    let month: u32 = match parse_u32(month) {
        Ok(month) => month,
        Err(error) => return Err(Error::ParseInt(error)),
    };
    let day: u32 = match parse_u32(day) {
        Ok(day) => day,
        Err(error) => return Err(Error::ParseInt(error)),
    };
    let from: i64 = match utc_midnight(year, month, day) {
        Some(from) => from,
        None => return Err(Error::InvalidParam("Invalid date".to_owned())),
    };
    proof {
        lemma_dates_in_calendar(year as int, month as int, day as int);
    }
    match checked_add_days(from, 1) {
        Some(to) => Ok(
            LogRange {
                from: Moment { seconds: from, nanos: 0 },
                to: Moment { seconds: to, nanos: 0 },
            },
        ),
        None => Err(Error::InvalidParam("Date out of range".to_owned())),
    }
}

/// The range of the logs of one month.
pub fn month_range(year: &str, month: &str) -> (range: Result<LogRange, Error>)
    ensures
        outcome(range) == month_logs(year@, month@),
{
    let year: i32 = match parse_i32(year) {
        Ok(year) => year,
        Err(error) => return Err(Error::ParseInt(error)),
    };
    let month: u32 = match parse_u32(month) {
        Ok(month) => month,
        Err(error) => return Err(Error::ParseInt(error)),
    };
    let from: i64 = match utc_midnight(year, month, 1) {
        Some(from) => from,
        None => return Err(Error::InvalidParam("Invalid date".to_owned())),
    };
    proof {
        lemma_dates_in_calendar(year as int, month as int, 1);
    }
    match checked_add_months(from, 1) {
        Some(to) => Ok(
            LogRange {
                from: Moment { seconds: from, nanos: 0 },
                to: Moment { seconds: to, nanos: 0 },
            },
        ),
        None => Err(Error::InvalidParam("Date out of range".to_owned())),
    }
}

proof fn lemma_months_of_a_year(year: int)
    ensures
        days_before_month(year, 2) == 31,
        days_before_month(year, 13) == if is_leap_year(year) { 366int } else { 365int },
        forall|month: int| 1 <= month <= 12 ==> 0 <= #[trigger] days_before_month(year, month)
            && days_before_month(year, month) + days_in_month(year, month) <= days_before_month(
            year,
            13,
        ),
{
    reveal_with_fuel(days_before_month, 14);
    assert forall|month: int| 1 <= month <= 12 implies 0 <= #[trigger] days_before_month(
        year,
        month,
    ) && days_before_month(year, month) + days_in_month(year, month) <= days_before_month(
        year,
        13,
    ) by {
        assert(month == 1 || month == 2 || month == 3 || month == 4 || month == 5 || month == 6
            || month == 7 || month == 8 || month == 9 || month == 10 || month == 11 || month
            == 12);
    }
}

proof fn lemma_quarters(year: int)
    ensures
        year / 4 == (year - 1) / 4 + if year % 4 == 0 { 1int } else { 0int },
{
}

proof fn lemma_centuries(year: int)
    ensures
        year / 100 == (year - 1) / 100 + if year % 100 == 0 { 1int } else { 0int },
        year % 100 == 0 ==> year % 4 == 0,
{
}

proof fn lemma_quadricentennials(year: int)
    ensures
        year / 400 == (year - 1) / 400 + if year % 400 == 0 { 1int } else { 0int },
        year % 400 == 0 ==> year % 100 == 0,
{
}

proof fn lemma_length_of_a_year(year: int)
    ensures
        days_before_year(year + 1) == days_before_year(year) + days_before_month(year, 13),
{
    lemma_months_of_a_year(year);
    lemma_quarters(year);
    lemma_centuries(year);
    lemma_quadricentennials(year);
}

proof fn lemma_years_in_order(earlier: int, later: int)
    requires
        earlier <= later,
    ensures
        days_before_year(earlier) <= days_before_year(later),
    decreases later - earlier,
{
    if earlier < later {
        lemma_years_in_order(earlier, later - 1);
        lemma_length_of_a_year(later - 1);
        lemma_months_of_a_year(later - 1);
    }
}

/// Every date of the calendar starts within the calendar, and before the next year does.
proof fn lemma_dates_in_calendar(year: int, month: int, day: int)
    requires
        is_date(year, month, day),
    ensures
        in_calendar(midnight(year, month, day)),
        i64::MIN <= midnight(year, month, day) <= i64::MAX - DAY_SECONDS,
{
    lemma_months_of_a_year(year);
    lemma_months_of_a_year(MAX_YEAR as int);
    lemma_length_of_a_year(year);
    lemma_length_of_a_year(MAX_YEAR as int);
    lemma_years_in_order(MIN_YEAR as int, year);
    lemma_years_in_order(year + 1, MAX_YEAR + 1);
    reveal_with_fuel(days_before_month, 13);
}

/// A month's logs run from its first midnight for as many days as the month has, up to the first
/// midnight of the month after it.
pub proof fn law_month_logs_cover_the_month(year: Seq<char>, month: Seq<char>)
    requires
        month_logs(year, month) is Ok,
    ensures
        ({
            let (y, m) = (written_i32(year)->0, written_u32(month)->0);
            let range = month_logs(year, month)->Ok_0;
            &&& range.from.seconds == midnight(y, m, 1)
            &&& range.to.seconds == range.from.seconds + DAY_SECONDS * days_in_month(y, m)
            &&& range.from.nanos == 0 && range.to.nanos == 0
        }),
{
    let (y, m) = (written_i32(year)->0, written_u32(month)->0);
    let (next_year, next_month) = month_after(y, m, 1);
    lemma_dates_in_calendar(y, m, 1);
    lemma_dates_in_calendar(next_year, next_month, 1);
    lemma_months_of_a_year(y);
    lemma_length_of_a_year(y);
}

/// The logs of a day lie within the logs of its month.
pub proof fn law_day_within_its_month(year: Seq<char>, month: Seq<char>, day: Seq<char>)
    requires
        day_logs(year, month, day) is Ok,
        month_logs(year, month) is Ok,
    ensures
        ({
            let of_day = day_logs(year, month, day)->Ok_0;
            let of_month = month_logs(year, month)->Ok_0;
            &&& of_month.from.seconds <= of_day.from.seconds
            &&& of_day.to.seconds <= of_month.to.seconds
        }),
{
    let (y, m, d) = (written_i32(year)->0, written_u32(month)->0, written_u32(day)->0);
    law_month_logs_cover_the_month(year, month);
    lemma_dates_in_calendar(y, m, d);
}

/// The logs of a day last a day, and where the date after it is one of the calendar, its logs
/// start where these end.
pub proof fn law_day_logs_follow_on(
    year: Seq<char>,
    month: Seq<char>,
    day: Seq<char>,
    next_day: (Seq<char>, Seq<char>, Seq<char>),
)
    requires
        day_logs(year, month, day) is Ok,
        day_logs(next_day.0, next_day.1, next_day.2) is Ok,
        ({
            let (y, m, d) = (written_i32(year)->0, written_u32(month)->0, written_u32(day)->0);
            let next = (
                written_i32(next_day.0)->0,
                written_u32(next_day.1)->0,
                written_u32(next_day.2)->0,
            );
            next == date_after(y, m, d)
        }),
    ensures
        day_logs(year, month, day)->Ok_0.to == day_logs(
            next_day.0,
            next_day.1,
            next_day.2,
        )->Ok_0.from,
        day_logs(year, month, day)->Ok_0.to.seconds == day_logs(
            year,
            month,
            day,
        )->Ok_0.from.seconds + DAY_SECONDS,
{
    let (y, m, d) = (written_i32(year)->0, written_u32(month)->0, written_u32(day)->0);
    lemma_dates_in_calendar(y, m, d);
    lemma_months_of_a_year(y);
    lemma_length_of_a_year(y);
    reveal_with_fuel(days_before_month, 13);
}

/// The date that comes after a date.
pub open spec fn date_after(year: int, month: int, day: int) -> (int, int, int) {
    if day < days_in_month(year, month) {
        (year, month, day + 1)
    } else if month < 12 {
        (year, month + 1, 1)
    } else {
        (year + 1, 1, 1)
    }
}

/// Of two moments one comes before the other, unless they are the same: the one with fewer seconds,
/// or with fewer nanoseconds past the same second.
pub proof fn law_moments_are_ordered(a: Moment, b: Moment, c: Moment)
    ensures
        !a.precedes(a),
        a.precedes(b) && b.precedes(c) ==> a.precedes(c),
        a == b || a.precedes(b) || b.precedes(a),
        a.precedes(b) ==> !b.precedes(a),
        a.seconds < b.seconds ==> a.precedes(b),
        a.seconds == b.seconds && a.nanos < b.nanos ==> a.precedes(b),
{
}

/// Three numbers name the logs of a day if and only if they are a date of the calendar other than
/// its last one; those logs start with that date and last a day. What is no date is refused as
/// such, and the last date as out of range. A text that is no number is refused for itself, and
/// the first such text for the others.
pub proof fn law_dates_have_day_logs(year: Seq<char>, month: Seq<char>, day: Seq<char>)
    ensures
        written_i32(year) is None ==> day_logs(year, month, day) == Err::<LogRange, _>(
            Refusal::ParseInt(i32_error(year)),
        ),
        written_i32(year) is Some && written_u32(month) is None ==> day_logs(year, month, day)
            == Err::<LogRange, _>(Refusal::ParseInt(u32_error(month))),
        written_i32(year) is Some && written_u32(month) is Some && written_u32(day) is None
            ==> day_logs(year, month, day) == Err::<LogRange, _>(
            Refusal::ParseInt(u32_error(day)),
        ),
        written_i32(year) is Some && written_u32(month) is Some && written_u32(day) is Some ==> {
            let (y, m, d) = (written_i32(year)->0, written_u32(month)->0, written_u32(day)->0);
            let logs = day_logs(year, month, day);
            let is_last = y == MAX_YEAR && m == 12 && d == 31;
            &&& logs is Ok <==> is_date(y, m, d) && !is_last
            &&& !is_date(y, m, d) ==> logs == Err::<LogRange, _>(
                Refusal::InvalidParam("Invalid date"@),
            )
            &&& is_last ==> logs == Err::<LogRange, _>(
                Refusal::InvalidParam("Date out of range"@),
            )
            &&& logs matches Ok(range) ==> {
                &&& range.from.seconds == midnight(y, m, d)
                &&& range.to.seconds == midnight(y, m, d) + 86400
                &&& range.from.nanos == 0 && range.to.nanos == 0
            }
        },
{
    if written_i32(year) is Some && written_u32(month) is Some && written_u32(day) is Some {
        let (y, m, d) = (written_i32(year)->0, written_u32(month)->0, written_u32(day)->0);
        if is_date(y, m, d) {
            lemma_dates_in_calendar(y, m, d);
            lemma_months_of_a_year(y);
            lemma_length_of_a_year(y);
            reveal_with_fuel(days_before_month, 13);
            if y < MAX_YEAR {
                lemma_dates_in_calendar(y + 1, 1, 1);
            }
        }
    }
}

/// Two numbers name the logs of a month if and only if they are a month of the calendar other than
/// its last one. What is no month is refused as such, and the last month as out of range. A text
/// that is no number is refused for itself, and the first such text for the other.
pub proof fn law_months_have_logs(year: Seq<char>, month: Seq<char>)
    ensures
        written_i32(year) is None ==> month_logs(year, month) == Err::<LogRange, _>(
            Refusal::ParseInt(i32_error(year)),
        ),
        written_i32(year) is Some && written_u32(month) is None ==> month_logs(year, month)
            == Err::<LogRange, _>(Refusal::ParseInt(u32_error(month))),
        written_i32(year) is Some && written_u32(month) is Some ==> {
            let (y, m) = (written_i32(year)->0, written_u32(month)->0);
            let logs = month_logs(year, month);
            let is_month = MIN_YEAR <= y <= MAX_YEAR && 1 <= m <= 12;
            let is_last = y == MAX_YEAR && m == 12;
            &&& logs is Ok <==> is_month && !is_last
            &&& !is_month ==> logs == Err::<LogRange, _>(Refusal::InvalidParam("Invalid date"@))
            &&& is_last ==> logs == Err::<LogRange, _>(
                Refusal::InvalidParam("Date out of range"@),
            )
        },
{
}

} // verus!
