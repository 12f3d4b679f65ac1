//! Calendar dates and service-day times as local date-time texts.
use crate::kdi::error::AlignError;
use crate::kdi::gtfs::GtfsDate;
use crate::kdi::text::{decimal, digit_char};
use vstd::prelude::*;

verus! {

/// Whether a year of the proleptic Gregorian calendar is a leap year.
pub open spec fn is_leap_year(year: int) -> bool {
    year % 4 == 0 && (year % 100 != 0 || year % 400 == 0)
}

/// The number of days of a month.
pub open spec fn days_in_month(year: int, month: int) -> int {
    if month == 2 {
        if is_leap_year(year) {
            29
        } else {
            28
        }
    } else if month == 4 || month == 6 || month == 9 || month == 11 {
        30
    } else {
        31
    }
}

/// Whether a day exists in the calendar, within the years that a date can
/// hold.
pub open spec fn date_exists(year: int, month: int, day: int) -> bool {
    &&& -262143 <= year <= 262142
    &&& 1 <= month <= 12
    &&& 1 <= day <= days_in_month(year, month)
}

/// A number below a hundred in two digits.
pub open spec fn two_digits(n: int) -> Seq<char> {
    seq![digit_char(n / 10), digit_char(n % 10)]
}

/// A number in four digits, or in as many as it has where it has more.
pub open spec fn four_digits(n: nat) -> Seq<char> {
    if n <= 9999 {
        two_digits(n as int / 100) + two_digits(n as int % 100)
    } else {
        decimal(n)
    }
}

/// A year as a date-time text writes it: four digits from 0 to 9999, and
/// with its sign outside of them.
pub open spec fn year_text(year: int) -> Seq<char> {
    if year < 0 {
        seq!['-'] + four_digits((-year) as nat)
    } else if year <= 9999 {
        four_digits(year as nat)
    } else {
        seq!['+'] + decimal(year as nat)
    }
}

/// The local date-time text of a day and a number of seconds after its
/// midnight: year, month and day with `-` between them, `T`, then hours,
/// minutes and seconds with `:` between them.
pub open spec fn timestamp_text(year: int, month: int, day: int, seconds: int) -> Seq<char> {
    year_text(year) + seq!['-'] + two_digits(month) + seq!['-'] + two_digits(day) + seq!['T']
        + two_digits(seconds / 3600) + seq![':'] + two_digits(seconds / 60 % 60) + seq![':']
        + two_digits(seconds % 60)
}

/// Formats a day and a time of day with `chrono`: `NaiveDate::from_ymd_opt`,
/// `NaiveTime::from_num_seconds_from_midnight_opt`, then `format` with the
/// pattern `%Y-%m-%dT%H:%M:%S`. Trusted: there is a result exactly when the
/// day exists and the seconds are less than a day's, and it is then the text
/// that `timestamp_text` describes.
#[verifier::external_body]
fn format_timestamp(year: i32, month: u32, day: u32, seconds: u32) -> (r: Option<String>)
    ensures
        r.is_some() == (date_exists(year as int, month as int, day as int) && seconds < 86400),
        r matches Some(s) ==> s@ == timestamp_text(
            year as int,
            month as int,
            day as int,
            seconds as int,
        ),
{
    let date = chrono::NaiveDate::from_ymd_opt(year, month, day)?;
    let time = chrono::NaiveTime::from_num_seconds_from_midnight_opt(seconds, 0)?;
    Some(date.and_time(time).format("%Y-%m-%dT%H:%M:%S").to_string())
}

/// The day of a service time, counted from the first service day as day 1.
pub open spec fn service_day(seconds: int) -> int {
    1 + seconds / 86400
}

/// The local date-time text of a service time: so many seconds after the
/// midnight that starts the first day of year 0. A time of 24 hours or more
/// falls on a later day of that January.
pub open spec fn service_time_text(seconds: int) -> Seq<char> {
    timestamp_text(0, 1, service_day(seconds), seconds % 86400)
}

/// Writes a service time as a local date-time. Times that run past the end
/// of the first month are refused.
pub fn format_service_time(seconds: u32) -> (r: Result<String, AlignError>)
    ensures
        service_day(seconds as int) <= 31 ==> r is Ok && r->Ok_0@ == service_time_text(
            seconds as int,
        ),
        service_day(seconds as int) > 31 ==> r == Err::<String, AlignError>(
            AlignError::InvalidDate,
        ),
{
    let day: u32 = 1 + seconds / 86400;
    if day > 31 {
        return Err(AlignError::InvalidDate);
    }
    match format_timestamp(0, 1, day, seconds % 86400) {
        Some(s) => Ok(s),
        None => Err(AlignError::InvalidDate),
    }
}

/// The local date-time text of the midnight that starts a day.
pub open spec fn date_text(date: GtfsDate) -> Seq<char> {
    timestamp_text(date.year as int, date.month as int, date.day as int, 0)
}

/// Whether a date names a day that exists.
pub open spec fn valid_date(date: GtfsDate) -> bool {
    date_exists(date.year as int, date.month as int, date.day as int)
}

/// Writes a date as the local date-time of its midnight. A day that does
/// not exist is refused.
pub fn format_date(date: &GtfsDate) -> (r: Result<String, AlignError>)
    ensures
        valid_date(*date) ==> r is Ok && r->Ok_0@ == date_text(*date),
        !valid_date(*date) ==> r == Err::<String, AlignError>(AlignError::InvalidDate),
{
    match format_timestamp(date.year, date.month, date.day, 0) {
        Some(s) => Ok(s),
        None => Err(AlignError::InvalidDate),
    }
}

} // verus!
