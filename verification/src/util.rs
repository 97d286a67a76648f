//! Small helpers for showing and reading values.

use crate::dates::{
    chrono_parse_date, parsed_date, slashed_date_format, Date, DateError, DateTime,
};
use crate::error::LedgerError;
use crate::money::Money;
use crate::text::{trim, trimmed};
use vstd::prelude::*;

verus! {

/// An amount as it is shown: rounded to two places.
pub fn fmt_money(d: &Money) -> (r: String)
    requires
        d.wf(),
    ensures
        r@ == d.round_spec(2).text(),
{
    d.round(2).format()
}

/// Reads an amount, white space around it left aside; `None` for a text
/// that is no amount.
pub fn parse_money(s: &str) -> (r: Option<Money>)
    ensures
        r == Money::parse_spec(trimmed(s@)),
        r matches Some(m) ==> m.wf(),
{
    match Money::parse(trim(s)) {
        Ok(m) => Some(m),
        Err(_) => None,
    }
}

/// Reads an amount as it was stored, white space around it left aside. A
/// text that is no amount makes the row unreadable; it is never taken for
/// zero.
pub fn read_amount(stored: &str) -> (r: Result<Money, LedgerError>)
    ensures
        r == match Money::parse_spec(trimmed(stored@)) {
            Some(m) => Ok::<Money, LedgerError>(m),
            None => Err(LedgerError::Unreadable),
        },
        r matches Ok(m) ==> m.wf(),
{
    match Money::parse(trim(stored)) {
        Ok(m) => Ok(m),
        Err(_) => Err(LedgerError::Unreadable),
    }
}

/// Reads a timestamp as it was stored, in any of the four accepted forms,
/// white space around it left aside. A text in none of them makes the row
/// unreadable; it is never taken for the present.
pub fn read_timestamp(stored: &str) -> (r: Result<DateTime, LedgerError>)
    ensures
        r == match DateTime::parse_spec(trimmed(stored@)) {
            Some(t) => Ok::<DateTime, LedgerError>(t),
            None => Err(LedgerError::Unreadable),
        },
        r matches Ok(t) ==> t.wf(),
{
    match DateTime::parse(trim(stored)) {
        Ok(t) => Ok(t),
        Err(_) => Err(LedgerError::Unreadable),
    }
}

/// What a text reads as under one format.
pub open spec fn date_under(text: Seq<char>, format: Seq<char>) -> Option<Date> {
    match parsed_date(text, format) {
        Some(parts) => Some(Date::of(parts)),
        None => None,
    }
}

/// The day of the first reading that there is: that of a timestamp in one of
/// the four stored forms, or else that of a date written with slashes.
pub open spec fn first_date(stamp: Option<DateTime>, slashed: Option<Date>) -> Option<Date> {
    match stamp {
        Some(t) => Some(t.date),
        None => slashed,
    }
}

/// The day that a text names, if it names one.
pub open spec fn date_of_any(text: Seq<char>) -> Option<Date> {
    first_date(DateTime::parse_spec(text), date_under(text, slashed_date_format()))
}

/// Picks among the readings of one text. Where there is none, that is an
/// error: no day is made up.
pub fn choose_date(stamp: Option<DateTime>, slashed: Option<Date>) -> (r: Result<Date, DateError>)
    ensures
        r == match first_date(stamp, slashed) {
            Some(d) => Ok::<Date, DateError>(d),
            None => Err(DateError::Unrecognized),
        },
{
    match stamp {
        Some(t) => Ok(t.date),
        None => match slashed {
            Some(d) => Ok(d),
            None => Err(DateError::Unrecognized),
        },
    }
}

/// Reads the day from a text in any of the forms in which dates are kept:
/// `YYYY-MM-DD`, `YYYY-MM-DDTHH:MM:SS`, the same followed by `Z`,
/// `YYYY-MM-DD HH:MM:SS`, and `YYYY/MM/DD`. A text in none of them is an
/// error; it never stands for the present day.
pub fn parse_date_any(s: &str) -> (r: Result<Date, DateError>)
    ensures
        r == match date_of_any(s@) {
            Some(d) => Ok::<Date, DateError>(d),
            None => Err(DateError::Unrecognized),
        },
        r matches Ok(d) ==> d.wf(),
{
    let stamp = match DateTime::parse(s) {
        Ok(t) => Some(t),
        Err(_) => None,
    };
    let slashed = match chrono_parse_date(s, "%Y/%m/%d") {
        Ok(d) => Some(d),
        Err(_) => None,
    };
    choose_date(stamp, slashed)
}

/// A date as `YYYY-MM-DD`.
pub fn iso(d: &Date) -> (r: String)
    requires
        d.wf(),
    ensures
        r@ == d.text(),
{
    d.format()
}

} // verus!
