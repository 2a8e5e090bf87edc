//! Calendar days, and the reading and showing of dates in a strftime format.
//!
//! A day is held as its number in the proleptic Gregorian calendar. Texts
//! are turned into days and back by `chrono`; what it returns is known here
//! by name only.

use crate::task::{TaskError, TaskErrorView};
use chrono::{Datelike, NaiveDate};
use vstd::prelude::*;

verus! {

/// A day of the proleptic Gregorian calendar: 1 January of the year 1 is
/// day 1, the day before it day 0.
#[derive(Clone, Copy, Debug, PartialEq, Eq)]
pub struct Day {
    pub number: i32,
}

/// What `chrono::NaiveDate::parse_from_str` makes of a text in a format: the
/// number of the day (`Datelike::num_days_from_ce`), or, where the text is
/// no date in that format, the error in words.
pub uninterp spec fn parsed_day(text: Seq<char>, format: Seq<char>) -> Result<i32, Seq<char>>;

/// What `chrono::NaiveDate::format` writes for the day of a number in a
/// format. Nothing where no date has the number, or where the format holds
/// what a date cannot be shown with.
pub uninterp spec fn formatted_day(number: i32, format: Seq<char>) -> Option<Seq<char>>;

/// `NaiveDate::parse_from_str`. The date is handed out as its day number
/// (`Datelike::num_days_from_ce`), the error as the text that its `Display`
/// gives. Both depend on the text and the format alone.
#[verifier::external_body]
fn parse_day(text: &str, format: &str) -> (r: Result<i32, String>)
    ensures
        match r {
            Ok(number) => parsed_day(text@, format@) == Ok::<i32, Seq<char>>(number),
            Err(reason) => parsed_day(text@, format@) == Err::<i32, Seq<char>>(reason@),
        },
{
    match NaiveDate::parse_from_str(text, format) {
        Ok(date) => Ok(date.num_days_from_ce()),
        Err(e) => Err(e.to_string()),
    }
}

/// `NaiveDate::format` for the date with the given day number
/// (`NaiveDate::from_num_days_from_ce_opt`), written into a string by
/// `DelayedFormat::write_to`. Nothing comes back where no date has the
/// number or where the writing fails; what is written depends on the number
/// and the format alone.
#[verifier::external_body]
fn format_day(number: i32, format: &str) -> (r: Option<String>)
    ensures
        match r {
            Some(text) => formatted_day(number, format@) == Some(text@),
            None => formatted_day(number, format@) is None,
        },
{
    let date = NaiveDate::from_num_days_from_ce_opt(number)?;
    let mut out = String::new();
    match date.format(format).write_to(&mut out) {
        Ok(()) => Some(out),
        Err(_) => None,
    }
}

/// The format in which the store keeps due dates, whatever the configured
/// one: day/month/year in full.
pub open spec fn storage_format() -> Seq<char> {
    "%d/%m/%Y"@
}

/// The day that a text denotes in a format.
pub open spec fn day_of(text: Seq<char>, format: Seq<char>) -> Result<Day, TaskErrorView> {
    match parsed_day(text, format) {
        Ok(number) => Ok(Day { number }),
        Err(reason) => Err(TaskErrorView::UnreadableDate { reason }),
    }
}

/// A day as a format shows it.
pub open spec fn text_of_day(day: Day, format: Seq<char>) -> Result<Seq<char>, TaskErrorView> {
    match formatted_day(day.number, format) {
        Some(text) => Ok(text),
        None => Err(TaskErrorView::UnprintableDate { format }),
    }
}

/// A date read in one format and shown in another.
pub open spec fn recast(text: Seq<char>, from: Seq<char>, to: Seq<char>) -> Result<
    Seq<char>,
    TaskErrorView,
> {
    match day_of(text, from) {
        Ok(day) => text_of_day(day, to),
        Err(e) => Err(e),
    }
}

/// How an attempt to get a day came out, as plain values.
pub open spec fn day_view(r: Result<Day, TaskError>) -> Result<Day, TaskErrorView> {
    match r {
        Ok(day) => Ok(day),
        Err(e) => Err(e@),
    }
}

/// How an attempt to get a text came out, as plain values.
pub open spec fn text_view(r: Result<String, TaskError>) -> Result<Seq<char>, TaskErrorView> {
    match r {
        Ok(text) => Ok(text@),
        Err(e) => Err(e@),
    }
}

/// Reads a date in the given format.
pub fn read_day(text: &str, format: &str) -> (r: Result<Day, TaskError>)
    ensures
        day_view(r) == day_of(text@, format@),
{
    match parse_day(text, format) {
        Ok(number) => Ok(Day { number }),
        Err(reason) => Err(TaskError::UnreadableDate { reason }),
    }
}

/// Shows a day in the given format.
pub fn show_day(day: Day, format: &str) -> (r: Result<String, TaskError>)
    ensures
        text_view(r) == text_of_day(day, format@),
{
    match format_day(day.number, format) {
        Some(text) => Ok(text),
        None => Err(TaskError::UnprintableDate { format: format.to_owned() }),
    }
}

/// Turns a date entered in `current_format` into the storage format.
pub fn standardize_date_format(date: &str, current_format: &str) -> (r: Result<String, TaskError>)
    ensures
        text_view(r) == recast(date@, current_format@, storage_format()),
{
    match read_day(date, current_format) {
        Ok(day) => show_day(day, "%d/%m/%Y"),
        Err(e) => Err(e),
    }
}

/// Turns a date of the store into `wanted_format`.
pub fn display_date(date: &str, wanted_format: &str) -> (r: Result<String, TaskError>)
    ensures
        text_view(r) == recast(date@, storage_format(), wanted_format@),
{
    match read_day(date, "%d/%m/%Y") {
        Ok(day) => show_day(day, wanted_format),
        Err(e) => Err(e),
    }
}

/// A date that is entered the way the configured format writes it comes
/// back as it was entered when it is put into the storage format and shown
/// again, provided that each of the two formats reads what it writes of
/// that day as that day.
pub proof fn lemma_entered_date_comes_back(text: Seq<char>, format: Seq<char>, day: Day)
    requires
        formatted_day(day.number, format) == Some(text),
        parsed_day(text, format) == Ok::<i32, Seq<char>>(day.number),
        formatted_day(day.number, storage_format()) matches Some(stored) && parsed_day(
            stored,
            storage_format(),
        ) == Ok::<i32, Seq<char>>(day.number),
    ensures
        recast(text, format, storage_format()) matches Ok(stored) && recast(
            stored,
            storage_format(),
            format,
        ) == Ok::<Seq<char>, TaskErrorView>(text),
{
}

} // verus!
