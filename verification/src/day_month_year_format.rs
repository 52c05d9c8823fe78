//! Dates written day first, as `31/12/2022`.

use chrono::Datelike;
use vstd::prelude::*;

verus! {

/// The year, month and day that `chrono::NaiveDate::parse_from_str` reads out
/// of `text` under `format`; `None` where it reports an error.
pub uninterp spec fn parsed_date(text: Seq<char>, format: Seq<char>) -> Option<(i32, u32, u32)>;

/// Calls `chrono::NaiveDate::parse_from_str` and takes `year()`, `month()` and
/// `day()` from the date it returns. Assumed: equal arguments give equal
/// results.
#[verifier::external_body]
fn parse_date(text: &str, format: &str) -> (date: Option<(i32, u32, u32)>)
    ensures
        date == parsed_date(text@, format@),
{
    match chrono::NaiveDate::parse_from_str(text, format) {
        Ok(date) => Some((date.year(), date.month(), date.day())),
        Err(_) => None,
    }
}

/// A day of the calendar.
#[derive(Clone, Copy, Debug, PartialEq, Eq, Structural)]
pub struct StatementDate {
    pub year: i32,
    pub month: u32,
    pub day: u32,
}

/// No date is written in this text.
#[derive(Clone, Copy, Debug, PartialEq, Eq, Structural)]
pub struct InvalidDate;

/// The date that `text` holds as day, month and year with `/` between them.
pub fn deserialize(text: &str) -> (date: Result<StatementDate, InvalidDate>)
    ensures
        date == match parsed_date(text@, "%d/%m/%Y"@) {
            Some(parts) => Ok::<StatementDate, InvalidDate>(
                StatementDate { year: parts.0, month: parts.1, day: parts.2 },
            ),
            None => Err::<StatementDate, InvalidDate>(InvalidDate),
        },
{
    match parse_date(text, "%d/%m/%Y") {
        Some(parts) => Ok(StatementDate { year: parts.0, month: parts.1, day: parts.2 }),
        None => Err(InvalidDate),
    }
}

} // verus!
