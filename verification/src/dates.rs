//! Calendar dates and timestamps.
//!
//! Both are held as plain fields, so that the ledger can order and compare
//! them. Text is read and written by `chrono`, with the handful of formats
//! that persisted rows and the forms use.

use chrono::{Datelike, Timelike};
use vstd::prelude::*;

verus! {

/// The first year `chrono` can hold.
pub const MIN_YEAR: i32 = -262143;

/// The last year `chrono` can hold.
pub const MAX_YEAR: i32 = 262142;

pub open spec fn is_leap_year(year: int) -> bool {
    year % 4 == 0 && (year % 100 != 0 || year % 400 == 0)
}

/// The number of days of a month of the proleptic Gregorian calendar; 0 for
/// a month that does not exist.
pub open spec fn days_in_month(year: int, month: int) -> int {
    if month == 2 {
        if is_leap_year(year) {
            29
        } else {
            28
        }
    } else if month == 4 || month == 6 || month == 9 || month == 11 {
        30
    } else if 1 <= month <= 12 {
        31
    } else {
        0
    }
}

/// What `chrono` reads as a date from a text under a format: year, month and
/// day, or `None` where it rejects the text.
pub uninterp spec fn parsed_date(text: Seq<char>, format: Seq<char>) -> Option<(int, int, int)>;

/// What `chrono` reads as a date and time from a text under a format: year,
/// month, day, hour, minute and second, or `None` where it rejects the text.
pub uninterp spec fn parsed_date_time(text: Seq<char>, format: Seq<char>) -> Option<
    (int, int, int, int, int, int),
>;

/// The text that `chrono` writes for a date under a format.
pub uninterp spec fn date_text(year: int, month: int, day: int, format: Seq<char>) -> Seq<char>;

/// The text that `chrono` writes for a date and time under a format.
pub uninterp spec fn date_time_text(
    year: int,
    month: int,
    day: int,
    hour: int,
    minute: int,
    second: int,
    format: Seq<char>,
) -> Seq<char>;

#[verifier::external_type_specification]
#[verifier::external_body]
pub struct ExChronoParseError(chrono::format::ParseError);

/// Why a text was not accepted as a date.
#[derive(Debug, Clone, Copy, PartialEq, Eq, Structural)]
pub enum DateError {
    /// The text fits none of the accepted formats.
    Unrecognized,
}

/// The format of a bare date, `YYYY-MM-DD`.
pub open spec fn plain_date_format() -> Seq<char> {
    "%Y-%m-%d"@
}

/// The format of a bare date written with slashes.
pub open spec fn slashed_date_format() -> Seq<char> {
    "%Y/%m/%d"@
}

/// The format in which timestamps are written.
pub open spec fn iso_format() -> Seq<char> {
    "%Y-%m-%dT%H:%M:%S"@
}

/// The written format followed by a literal `Z`.
pub open spec fn iso_zulu_format() -> Seq<char> {
    "%Y-%m-%dT%H:%M:%SZ"@
}

/// Date and time parted by a blank.
pub open spec fn spaced_format() -> Seq<char> {
    "%Y-%m-%d %H:%M:%S"@
}

/// A calendar date.
#[derive(Debug, Clone, Copy, PartialEq, Eq, Structural)]
pub struct Date {
    pub year: i32,
    pub month: u32,
    pub day: u32,
}

/// A calendar date with a time of day, to the second.
#[derive(Debug, Clone, Copy, PartialEq, Eq, Structural)]
pub struct DateTime {
    pub date: Date,
    pub hour: u32,
    pub minute: u32,
    pub second: u32,
}

impl Date {
    /// The date exists.
    pub open spec fn wf(self) -> bool {
        &&& MIN_YEAR <= self.year <= MAX_YEAR
        &&& 1 <= self.month <= 12
        &&& 1 <= self.day <= days_in_month(self.year as int, self.month as int)
    }

    /// A number that grows with the date: year, month and day as the digits
    /// of a mixed-radix numeral.
    pub open spec fn ordinal(self) -> int {
        (self.year * 13 + self.month) * 32 + self.day
    }

    pub open spec fn of(parts: (int, int, int)) -> Date {
        Date { year: parts.0 as i32, month: parts.1 as u32, day: parts.2 as u32 }
    }

    /// The date read from `YYYY-MM-DD`.
    pub open spec fn parse_spec(text: Seq<char>) -> Option<Date> {
        match parsed_date(text, plain_date_format()) {
            Some(parts) => Some(Date::of(parts)),
            None => None,
        }
    }

    /// The date as `YYYY-MM-DD`.
    pub open spec fn text(self) -> Seq<char> {
        date_text(self.year as int, self.month as int, self.day as int, plain_date_format())
    }

    /// A date from year, month and day, if there is such a day.
    pub fn new(year: i32, month: u32, day: u32) -> (r: Option<Date>)
        ensures
            r == if (Date { year, month, day }).wf() {
                Some(Date { year, month, day })
            } else {
                None
            },
    {
        if year < MIN_YEAR || year > MAX_YEAR || month < 1 || month > 12 || day < 1 {
            return None;
        }
        let leap: bool = year % 4 == 0 && (year % 100 != 0 || year % 400 == 0);
        let last: u32 = if month == 2 {
            if leap {
                29
            } else {
                28
            }
        } else if month == 4 || month == 6 || month == 9 || month == 11 {
            30
        } else {
            31
        };
        if day <= last {
            Some(Date { year, month, day })
        } else {
            None
        }
    }

    /// Whether there is such a day.
    pub fn is_valid(&self) -> (r: bool)
        ensures
            r == self.wf(),
    {
        Date::new(self.year, self.month, self.day).is_some()
    }

    /// Reads a date written as `YYYY-MM-DD`, the form that the entry forms
    /// ask for.
    pub fn parse(text: &str) -> (r: Result<Date, DateError>)
        ensures
            r is Ok <==> Date::parse_spec(text@) is Some,
            r matches Ok(d) ==> Date::parse_spec(text@) == Some(d) && d.wf(),
            r matches Err(e) ==> e == DateError::Unrecognized,
    {
        match chrono_parse_date(text, "%Y-%m-%d") {
            Ok(d) => Ok(d),
            Err(_) => Err(DateError::Unrecognized),
        }
    }

    /// Writes the date as `YYYY-MM-DD`.
    pub fn format(&self) -> (r: String)
        requires
            self.wf(),
        ensures
            r@ == self.text(),
    {
        chrono_format_date(self, "%Y-%m-%d")
    }

    /// The first second of the day.
    pub fn at_midnight(&self) -> (r: DateTime)
        ensures
            r == (DateTime { date: *self, hour: 0, minute: 0, second: 0 }),
            self.wf() ==> r.wf(),
    {
        DateTime { date: *self, hour: 0, minute: 0, second: 0 }
    }

    /// Whether the date comes before another.
    pub fn before(&self, other: &Date) -> (r: bool)
        requires
            self.wf(),
            other.wf(),
        ensures
            r == (self.ordinal() < other.ordinal()),
    {
        let a: i64 = (self.year as i64 * 13 + self.month as i64) * 32 + self.day as i64;
        let b: i64 = (other.year as i64 * 13 + other.month as i64) * 32 + other.day as i64;
        a < b
    }
}

impl DateTime {
    /// Date and time of day exist.
    pub open spec fn wf(self) -> bool {
        &&& self.date.wf()
        &&& self.hour < 24
        &&& self.minute < 60
        &&& self.second < 60
    }

    /// A number that grows with time: the fields as the digits of a
    /// mixed-radix numeral. Of two valid timestamps the later one has the
    /// larger stamp.
    pub open spec fn stamp(self) -> int {
        ((self.date.ordinal() * 24 + self.hour) * 60 + self.minute) * 60 + self.second
    }

    pub open spec fn of(parts: (int, int, int, int, int, int)) -> DateTime {
        DateTime {
            date: Date::of((parts.0, parts.1, parts.2)),
            hour: parts.3 as u32,
            minute: parts.4 as u32,
            second: parts.5 as u32,
        }
    }

    /// The timestamp read under one format.
    pub open spec fn parse_with(text: Seq<char>, format: Seq<char>) -> Option<DateTime> {
        match parsed_date_time(text, format) {
            Some(parts) => Some(DateTime::of(parts)),
            None => None,
        }
    }

    /// The first of the readings that there is, in the order in which a
    /// stored timestamp is tried against the accepted formats.
    pub open spec fn first_of(
        plain: Option<Date>,
        iso: Option<DateTime>,
        zulu: Option<DateTime>,
        spaced: Option<DateTime>,
    ) -> Option<DateTime> {
        if let Some(d) = plain {
            Some(DateTime { date: d, hour: 0, minute: 0, second: 0 })
        } else if iso is Some {
            iso
        } else if zulu is Some {
            zulu
        } else {
            spaced
        }
    }

    /// The timestamp that a stored text stands for.
    pub open spec fn parse_spec(text: Seq<char>) -> Option<DateTime> {
        DateTime::first_of(
            Date::parse_spec(text),
            DateTime::parse_with(text, iso_format()),
            DateTime::parse_with(text, iso_zulu_format()),
            DateTime::parse_with(text, spaced_format()),
        )
    }

    /// The timestamp as it is written to storage.
    pub open spec fn text(self) -> Seq<char> {
        date_time_text(
            self.date.year as int,
            self.date.month as int,
            self.date.day as int,
            self.hour as int,
            self.minute as int,
            self.second as int,
            iso_format(),
        )
    }

    /// A timestamp from its fields, if there is such a moment.
    pub fn new(date: Date, hour: u32, minute: u32, second: u32) -> (r: Option<DateTime>)
        requires
            date.wf(),
        ensures
            r == if hour < 24 && minute < 60 && second < 60 {
                Some(DateTime { date, hour, minute, second })
            } else {
                None
            },
            r matches Some(t) ==> t.wf(),
    {
        if hour < 24 && minute < 60 && second < 60 {
            Some(DateTime { date, hour, minute, second })
        } else {
            None
        }
    }

    /// Whether there is such a moment.
    pub fn is_valid(&self) -> (r: bool)
        ensures
            r == self.wf(),
    {
        self.date.is_valid() && self.hour < 24 && self.minute < 60 && self.second < 60
    }

    /// Picks among the readings of one text: a bare date stands for its
    /// midnight; otherwise the first format that matched decides.
    pub fn choose_reading(
        plain: Option<Date>,
        iso: Option<DateTime>,
        zulu: Option<DateTime>,
        spaced: Option<DateTime>,
    ) -> (r: Result<DateTime, DateError>)
        ensures
            r is Ok <==> DateTime::first_of(plain, iso, zulu, spaced) is Some,
            r matches Ok(t) ==> DateTime::first_of(plain, iso, zulu, spaced) == Some(t),
            r matches Err(e) ==> e == DateError::Unrecognized,
    {
        if let Some(d) = plain {
            Ok(d.at_midnight())
        } else if let Some(t) = iso {
            Ok(t)
        } else if let Some(t) = zulu {
            Ok(t)
        } else if let Some(t) = spaced {
            Ok(t)
        } else {
            Err(DateError::Unrecognized)
        }
    }

    /// Reads a stored timestamp. Four forms are accepted: `YYYY-MM-DD`,
    /// `YYYY-MM-DDTHH:MM:SS`, the same followed by `Z`, and
    /// `YYYY-MM-DD HH:MM:SS`. Any other text is an error: a row whose date
    /// cannot be read is not given a made-up one.
    pub fn parse(text: &str) -> (r: Result<DateTime, DateError>)
        ensures
            r is Ok <==> DateTime::parse_spec(text@) is Some,
            r matches Ok(t) ==> DateTime::parse_spec(text@) == Some(t) && t.wf(),
            r matches Err(e) ==> e == DateError::Unrecognized,
    {
        let plain = ok_date(chrono_parse_date(text, "%Y-%m-%d"));
        let iso = ok_date_time(chrono_parse_date_time(text, "%Y-%m-%dT%H:%M:%S"));
        let zulu = ok_date_time(chrono_parse_date_time(text, "%Y-%m-%dT%H:%M:%SZ"));
        let spaced = ok_date_time(chrono_parse_date_time(text, "%Y-%m-%d %H:%M:%S"));
        DateTime::choose_reading(plain, iso, zulu, spaced)
    }

    /// Writes the timestamp in the one format used for storage,
    /// `YYYY-MM-DDTHH:MM:SS`.
    pub fn format(&self) -> (r: String)
        requires
            self.wf(),
        ensures
            r@ == self.text(),
    {
        chrono_format_date_time(self, "%Y-%m-%dT%H:%M:%S")
    }

    /// The stamp as a machine integer.
    pub fn stamp_value(&self) -> (r: i64)
        requires
            self.wf(),
        ensures
            r == self.stamp(),
    {
        let d: i64 = (self.date.year as i64 * 13 + self.date.month as i64) * 32
            + self.date.day as i64;
        ((d * 24 + self.hour as i64) * 60 + self.minute as i64) * 60 + self.second as i64
    }

    /// Whether the timestamp comes before another.
    pub fn before(&self, other: &DateTime) -> (r: bool)
        requires
            self.wf(),
            other.wf(),
        ensures
            r == (self.stamp() < other.stamp()),
    {
        self.stamp_value() < other.stamp_value()
    }
}

/// Of two valid timestamps, the one with the smaller stamp is the earlier:
/// the stamps compare as the fields do, taken from the year down.
pub proof fn lemma_stamp_orders_fields(a: DateTime, b: DateTime)
    requires
        a.wf(),
        b.wf(),
    ensures
        a.stamp() < b.stamp() <==> {
            ||| a.date.year < b.date.year
            ||| a.date.year == b.date.year && a.date.month < b.date.month
            ||| a.date.year == b.date.year && a.date.month == b.date.month && a.date.day
                < b.date.day
            ||| a.date == b.date && a.hour < b.hour
            ||| a.date == b.date && a.hour == b.hour && a.minute < b.minute
            ||| a.date == b.date && a.hour == b.hour && a.minute == b.minute && a.second
                < b.second
        },
        a.stamp() == b.stamp() <==> a == b,
{
}

fn ok_date(r: Result<Date, chrono::format::ParseError>) -> (o: Option<Date>)
    ensures
        o == match r {
            Ok(d) => Some(d),
            Err(_) => None,
        },
{
    match r {
        Ok(d) => Some(d),
        Err(_) => None,
    }
}

fn ok_date_time(r: Result<DateTime, chrono::format::ParseError>) -> (o: Option<DateTime>)
    ensures
        o == match r {
            Ok(d) => Some(d),
            Err(_) => None,
        },
{
    match r {
        Ok(d) => Some(d),
        Err(_) => None,
    }
}

/// Calls `chrono::NaiveDate::parse_from_str` and takes the date apart with
/// `Datelike::year`, `month` and `day`. Claimed: the outcome is a function of
/// text and format alone, and a date that was read exists in the proleptic
/// Gregorian calendar, within the years that `chrono` documents.
#[verifier::external_body]
pub(crate) fn chrono_parse_date(text: &str, format: &str) -> (r: Result<
    Date,
    chrono::format::ParseError,
>)
    ensures
        r is Ok <==> parsed_date(text@, format@) is Some,
        r matches Ok(d) ==> d.wf() && parsed_date(text@, format@) == Some(
            (d.year as int, d.month as int, d.day as int),
        ),
{
    match chrono::NaiveDate::parse_from_str(text, format) {
        Ok(d) => Ok(Date { year: d.year(), month: d.month(), day: d.day() }),
        Err(e) => Err(e),
    }
}

/// Calls `chrono::NaiveDateTime::parse_from_str` and takes the result apart
/// with the accessors of `Datelike` and `Timelike`. Claimed: the outcome is
/// a function of text and format alone; a date that was read exists, and
/// hour, minute and second are within the ranges that `Timelike` documents
/// (0 to 23, 0 to 59, 0 to 59).
#[verifier::external_body]
pub(crate) fn chrono_parse_date_time(text: &str, format: &str) -> (r: Result<
    DateTime,
    chrono::format::ParseError,
>)
    ensures
        r is Ok <==> parsed_date_time(text@, format@) is Some,
        r matches Ok(t) ==> t.wf() && parsed_date_time(text@, format@) == Some(
            (
                t.date.year as int,
                t.date.month as int,
                t.date.day as int,
                t.hour as int,
                t.minute as int,
                t.second as int,
            ),
        ),
{
    match chrono::NaiveDateTime::parse_from_str(text, format) {
        Ok(t) => Ok(
            DateTime {
                date: Date { year: t.year(), month: t.month(), day: t.day() },
                hour: t.hour(),
                minute: t.minute(),
                second: t.second(),
            },
        ),
        Err(e) => Err(e),
    }
}

/// Builds a `chrono::NaiveDate` with `from_ymd_opt`, which gives a date for
/// every day that `Date::wf` admits, and writes it with `NaiveDate::format`.
/// Writing panics on a format that is malformed or asks for a time of day,
/// so only the two date formats of this module are admitted. Claimed: the
/// text is a function of the date and the format alone.
#[verifier::external_body]
pub(crate) fn chrono_format_date(d: &Date, format: &str) -> (r: String)
    requires
        d.wf(),
        format@ == plain_date_format() || format@ == slashed_date_format(),
    ensures
        r@ == date_text(d.year as int, d.month as int, d.day as int, format@),
{
    chrono::NaiveDate::from_ymd_opt(d.year, d.month, d.day).unwrap().format(format).to_string()
}

/// Builds a `chrono::NaiveDateTime` with `NaiveDate::from_ymd_opt` and
/// `and_hms_opt`, which give a value for everything that `DateTime::wf`
/// admits, and writes it with `NaiveDateTime::format`. Writing panics on a
/// malformed format, so only the formats of this module are admitted.
/// Claimed: the text is a function of the timestamp and the format alone.
#[verifier::external_body]
pub(crate) fn chrono_format_date_time(t: &DateTime, format: &str) -> (r: String)
    requires
        t.wf(),
        format@ == iso_format() || format@ == iso_zulu_format() || format@ == spaced_format()
            || format@ == plain_date_format() || format@ == slashed_date_format(),
    ensures
        r@ == date_time_text(
            t.date.year as int,
            t.date.month as int,
            t.date.day as int,
            t.hour as int,
            t.minute as int,
            t.second as int,
            format@,
        ),
{
    let date = chrono::NaiveDate::from_ymd_opt(t.date.year, t.date.month, t.date.day).unwrap();
    date.and_hms_opt(t.hour, t.minute, t.second).unwrap().format(format).to_string()
}

} // verus!
