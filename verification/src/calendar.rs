//! Calendar dates and times of day as plain numbers, and the dates and times
//! that SWIFT writes as digit strings.
//!
//! Whether a date or a time exists is asked of `chrono`; everything else is
//! read here.
use vstd::prelude::*;
use vstd::string::*;
use chrono::{Datelike, NaiveDate, NaiveTime, Utc};
use crate::error::{failure, outcome_plain, DecodeError, ErrorKind, Failure, Field};
use crate::text::{number, read_number};

verus! {

/// A day of the proleptic Gregorian calendar.
#[derive(Debug, PartialEq, Eq, Clone, Copy, Structural)]
pub struct Date {
    pub year: i32,
    pub month: u32,
    pub day: u32,
}

/// A time of day, to the millisecond. A leap second is written as second 59
/// with a millisecond of 1000 or more.
#[derive(Debug, PartialEq, Eq, Clone, Copy, Structural)]
pub struct Time {
    pub hour: u32,
    pub minute: u32,
    pub second: u32,
    pub millisecond: u32,
}

/// A date with a time of day.
#[derive(Debug, PartialEq, Eq, Clone, Copy, Structural)]
pub struct DateTime {
    pub date: Date,
    pub time: Time,
}

/// Whether a year has a 29th of February.
pub open spec fn is_leap_year(year: int) -> bool {
    year % 4 == 0 && (year % 100 != 0 || year % 400 == 0)
}

/// The number of days of a month; 0 where there is no such month.
pub open spec fn days_in_month(year: int, month: int) -> int {
    if month == 2 {
        if is_leap_year(year) {
            29
        } else {
            28
        }
    } else if month == 4 || month == 6 || month == 9 || month == 11 {
        30
    } else if 1 <= month <= 12 {
        31
    } else {
        0
    }
}

/// The first and the last year that `chrono` can hold.
pub open spec fn year_in_range(year: int) -> bool {
    -262143 <= year <= 262142
}

/// Whether the day exists and lies in a year that `chrono` can hold.
pub open spec fn is_calendar_date(year: int, month: int, day: int) -> bool {
    year_in_range(year) && 1 <= day <= days_in_month(year, month)
}

/// Whether the time of day exists.
pub open spec fn is_clock_time(hour: int, minute: int, second: int, millisecond: int) -> bool {
    &&& 0 <= hour < 24
    &&& 0 <= minute < 60
    &&& 0 <= second < 60
    &&& 0 <= millisecond
    &&& (millisecond < 1000 || (second == 59 && millisecond < 2000))
}

impl Date {
    /// Whether this is a day of the calendar.
    pub open spec fn is_valid(self) -> bool {
        is_calendar_date(self.year as int, self.month as int, self.day as int)
    }

    pub fn year(&self) -> (r: i32)
        ensures
            r == self.year,
    {
        self.year
    }

    pub fn month(&self) -> (r: u32)
        ensures
            r == self.month,
    {
        self.month
    }

    pub fn day(&self) -> (r: u32)
        ensures
            r == self.day,
    {
        self.day
    }
}

impl Time {
    /// Whether this is a time of day.
    pub open spec fn is_valid(self) -> bool {
        is_clock_time(
            self.hour as int,
            self.minute as int,
            self.second as int,
            self.millisecond as int,
        )
    }

    pub fn hour(&self) -> (r: u32)
        ensures
            r == self.hour,
    {
        self.hour
    }

    pub fn minute(&self) -> (r: u32)
        ensures
            r == self.minute,
    {
        self.minute
    }

    pub fn second(&self) -> (r: u32)
        ensures
            r == self.second,
    {
        self.second
    }
}

impl DateTime {
    /// Whether both the date and the time exist.
    pub open spec fn is_valid(self) -> bool {
        self.date.is_valid() && self.time.is_valid()
    }
}

/// Asks `chrono::NaiveDate::from_ymd_opt` whether it makes a date of the
/// three numbers. The contract claims what its documentation says: it does
/// exactly when the day exists in the proleptic Gregorian calendar and the
/// year is one that `NaiveDate` can hold.
#[verifier::external_body]
fn calendar_date_exists(year: i32, month: u32, day: u32) -> (r: bool)
    ensures
        r == is_calendar_date(year as int, month as int, day as int),
{
    NaiveDate::from_ymd_opt(year, month, day).is_some()
}

/// Asks `chrono::NaiveTime::from_hms_opt` whether it makes a time of the
/// three numbers. The contract claims what its documentation says: it does
/// exactly when hour, minute and second are in range.
#[verifier::external_body]
fn clock_time_exists(hour: u32, minute: u32, second: u32) -> (r: bool)
    ensures
        r == is_clock_time(hour as int, minute as int, second as int, 0),
{
    NaiveTime::from_hms_opt(hour, minute, second).is_some()
}

/// Asks `chrono::NaiveTime::from_hms_milli_opt` whether it makes a time of
/// the four numbers. The contract claims what its source shows: hour, minute
/// and second must be in range and the millisecond below 1000, or below 2000
/// in second 59, which stands for a leap second.
#[verifier::external_body]
fn clock_time_milli_exists(hour: u32, minute: u32, second: u32, millisecond: u32) -> (r: bool)
    ensures
        r == is_clock_time(hour as int, minute as int, second as int, millisecond as int),
{
    NaiveTime::from_hms_milli_opt(hour, minute, second, millisecond).is_some()
}

/// The year of `chrono::Utc::now()`. Nothing is claimed of it: it depends on
/// the clock.
#[verifier::external_body]
fn current_year() -> i32 {
    Utc::now().year()
}

/// The date of a year, a month and a day that were read as numbers, where
/// all three were read and the day exists.
pub open spec fn date_of(year: Option<int>, month: Option<nat>, day: Option<nat>) -> Option<Date> {
    match (year, month, day) {
        (Some(y), Some(m), Some(d)) => if is_calendar_date(y, m as int, d as int) {
            Some(Date { year: y as i32, month: m as u32, day: d as u32 })
        } else {
            None
        },
        _ => None,
    }
}

/// The year that the first `width` digits of a date write, counted from
/// `base`.
pub open spec fn year_of(bytes: Seq<u8>, width: int, base: int) -> Option<int> {
    match number(bytes.subrange(0, width), 9999) {
        Some(y) => Some(base + y),
        None => None,
    }
}

/// The date that a SWIFT date string writes: `MMDD` in the year `year`,
/// `YYMMDD` in the century that begins in 2000, or `YYYYMMDD`.
pub open spec fn swift_date(bytes: Seq<u8>, year: int) -> Option<Date> {
    if bytes.len() == 4 {
        date_of(
            Some(year),
            number(bytes.subrange(0, 2), 99),
            number(bytes.subrange(2, 4), 99),
        )
    } else if bytes.len() == 6 {
        date_of(
            year_of(bytes, 2, 2000),
            number(bytes.subrange(2, 4), 99),
            number(bytes.subrange(4, 6), 99),
        )
    } else if bytes.len() == 8 {
        date_of(
            year_of(bytes, 4, 0),
            number(bytes.subrange(4, 6), 99),
            number(bytes.subrange(6, 8), 99),
        )
    } else {
        None
    }
}

/// What decoding a date string yields: the date, or `InvalidDate` with the
/// string.
pub open spec fn decode_date(bytes: Seq<u8>, year: int) -> Result<Date, Failure> {
    match swift_date(bytes, year) {
        Some(d) => Ok(d),
        None => Err(failure(ErrorKind::InvalidDate, Field::Date, bytes)),
    }
}

/// Builds the date of three numbers that were read, if it exists.
fn make_date(year: i32, month: Option<u64>, day: Option<u64>) -> (r: Option<Date>)
    requires
        month matches Some(m) ==> m <= 99,
        day matches Some(d) ==> d <= 99,
    ensures
        r == date_of(
            Some(year as int),
            match month {
                Some(m) => Some(m as nat),
                None => None,
            },
            match day {
                Some(d) => Some(d as nat),
                None => None,
            },
        ),
        r matches Some(d) ==> d.is_valid(),
{
    match (month, day) {
        (Some(m), Some(d)) => {
            if calendar_date_exists(year, m as u32, d as u32) {
                Some(Date { year, month: m as u32, day: d as u32 })
            } else {
                None
            }
        },
        _ => None,
    }
}

/// Decodes a SWIFT date string, taking `year` as the year of a date that is
/// written without one.
pub fn swift_date_in_year<'a>(date: &'a str, year: i32) -> (r: Result<Date, DecodeError<'a>>)
    ensures
        outcome_plain(r) == decode_date(date.spec_bytes(), year as int),
        r matches Ok(d) ==> d.is_valid(),
{
    let b = date.as_bytes();
    let found = if b.len() == 4 {
        make_date(year, read_number(b, 0, 2, 99), read_number(b, 2, 4, 99))
    } else if b.len() == 6 {
        match read_number(b, 0, 2, 9999) {
            Some(y) => make_date(2000 + y as i32, read_number(b, 2, 4, 99), read_number(b, 4, 6, 99)),
            None => None,
        }
    } else if b.len() == 8 {
        match read_number(b, 0, 4, 9999) {
            Some(y) => make_date(y as i32, read_number(b, 4, 6, 99), read_number(b, 6, 8, 99)),
            None => None,
        }
    } else {
        None
    };
    match found {
        Some(d) => Ok(d),
        None => Err(DecodeError::new(ErrorKind::InvalidDate, Field::Date, date)),
    }
}

/// Decodes a SWIFT date string. A date written as `MMDD` is taken to lie in
/// the current year of the clock; the other forms do not depend on it.
pub fn naive_date_from_swift_date<'a>(date: &'a str) -> (r: Result<Date, DecodeError<'a>>)
    ensures
        date.spec_bytes().len() != 4 ==> outcome_plain(r) == decode_date(date.spec_bytes(), 0),
        date.spec_bytes().len() == 4 ==> exists|year: i32|
            outcome_plain(r) == decode_date(date.spec_bytes(), year as int),
        r matches Ok(d) ==> d.is_valid(),
{
    if date.as_bytes().len() == 4 {
        let year = current_year();
        let r = swift_date_in_year(date, year);
        assert(outcome_plain(r) == decode_date(date.spec_bytes(), year as int));
        r
    } else {
        swift_date_in_year(date, 0)
    }
}

/// The time that the digits `HHMM` and the seconds after them write.
pub open spec fn swift_time(bytes: Seq<u8>) -> Option<Time> {
    match (
        number(bytes.subrange(0, 2), 99),
        number(bytes.subrange(2, 4), 99),
        number(bytes.subrange(4, bytes.len() as int), u32::MAX as nat),
    ) {
        (Some(h), Some(m), Some(s)) => if is_clock_time(h as int, m as int, s as int, 0) {
            Some(Time { hour: h as u32, minute: m as u32, second: s as u32, millisecond: 0 })
        } else {
            None
        },
        _ => None,
    }
}

/// What decoding a time string yields: `TruncatedField` where it is shorter
/// than `HHMM`, else the time, or `InvalidDate` with the string.
pub open spec fn decode_time(bytes: Seq<u8>) -> Result<Time, Failure> {
    if bytes.len() < 4 {
        Err(failure(ErrorKind::TruncatedField, Field::Time, bytes))
    } else {
        match swift_time(bytes) {
            Some(t) => Ok(t),
            None => Err(failure(ErrorKind::InvalidDate, Field::Time, bytes)),
        }
    }
}

/// Decodes a time of day written as `HHMM` followed by the seconds.
pub fn naive_time_from_swift_time<'a>(time: &'a str) -> (r: Result<Time, DecodeError<'a>>)
    ensures
        outcome_plain(r) == decode_time(time.spec_bytes()),
        r matches Ok(t) ==> t.is_valid(),
{
    let b = time.as_bytes();
    if b.len() < 4 {
        return Err(DecodeError::new(ErrorKind::TruncatedField, Field::Time, time));
    }
    let parts = (
        read_number(b, 0, 2, 99),
        read_number(b, 2, 4, 99),
        read_number(b, 4, b.len(), u32::MAX as u64),
    );
    match parts {
        (Some(h), Some(m), Some(s)) => {
            if clock_time_exists(h as u32, m as u32, s as u32) {
                return Ok(
                    Time { hour: h as u32, minute: m as u32, second: s as u32, millisecond: 0 },
                );
            }
        },
        _ => {},
    }
    Err(DecodeError::new(ErrorKind::InvalidDate, Field::Time, time))
}

/// The time that the digits `HHMMSS` from offset 6 on and the milliseconds
/// after them write.
pub open spec fn swift_time_milli(bytes: Seq<u8>) -> Option<Time> {
    match (
        number(bytes.subrange(6, 8), 99),
        number(bytes.subrange(8, 10), 99),
        number(bytes.subrange(10, 12), 99),
        number(bytes.subrange(12, bytes.len() as int), u32::MAX as nat),
    ) {
        (Some(h), Some(m), Some(s), Some(ms)) => if is_clock_time(
            h as int,
            m as int,
            s as int,
            ms as int,
        ) {
            Some(Time { hour: h as u32, minute: m as u32, second: s as u32, millisecond: ms as u32 })
        } else {
            None
        },
        _ => None,
    }
}

/// What decoding a date-and-time string yields: `TruncatedField` where it is
/// shorter than `YYMMDDHHMMSS`, else the failure of its date, else its date
/// and time, or `InvalidDate` with the string where the time is malformed.
pub open spec fn decode_date_time(bytes: Seq<u8>) -> Result<DateTime, Failure> {
    if bytes.len() < 12 {
        Err(failure(ErrorKind::TruncatedField, Field::Time, bytes))
    } else {
        match (swift_date(bytes.subrange(0, 6), 0), swift_time_milli(bytes)) {
            (Some(date), Some(time)) => Ok(DateTime { date, time }),
            (None, _) => Err(failure(ErrorKind::InvalidDate, Field::Date, bytes)),
            (_, None) => Err(failure(ErrorKind::InvalidDate, Field::Time, bytes)),
        }
    }
}

/// Decodes a date and time written as `YYMMDDHHMMSS` followed by the
/// milliseconds.
pub fn naive_date_time_from_swift_date_time<'a>(date_time: &'a str) -> (r: Result<
    DateTime,
    DecodeError<'a>,
>)
    ensures
        outcome_plain(r) == decode_date_time(date_time.spec_bytes()),
        r matches Ok(t) ==> t.is_valid(),
{
    let b = date_time.as_bytes();
    if b.len() < 12 {
        return Err(DecodeError::new(ErrorKind::TruncatedField, Field::Time, date_time));
    }
    assert(b@.subrange(0, 6).subrange(0, 2) =~= b@.subrange(0, 2));
    assert(b@.subrange(0, 6).subrange(2, 4) =~= b@.subrange(2, 4));
    assert(b@.subrange(0, 6).subrange(4, 6) =~= b@.subrange(4, 6));
    let date = match read_number(b, 0, 2, 9999) {
        Some(y) => make_date(2000 + y as i32, read_number(b, 2, 4, 99), read_number(b, 4, 6, 99)),
        None => None,
    };
    let date = match date {
        Some(d) => d,
        None => {
            return Err(DecodeError::new(ErrorKind::InvalidDate, Field::Date, date_time));
        },
    };
    let parts = (
        read_number(b, 6, 8, 99),
        read_number(b, 8, 10, 99),
        read_number(b, 10, 12, 99),
        read_number(b, 12, b.len(), u32::MAX as u64),
    );
    match parts {
        (Some(h), Some(m), Some(s), Some(ms)) => {
            if clock_time_milli_exists(h as u32, m as u32, s as u32, ms as u32) {
                let time = Time {
                    hour: h as u32,
                    minute: m as u32,
                    second: s as u32,
                    millisecond: ms as u32,
                };
                return Ok(DateTime { date, time });
            }
        },
        _ => {},
    }
    Err(DecodeError::new(ErrorKind::InvalidDate, Field::Time, date_time))
}

} // verus!
