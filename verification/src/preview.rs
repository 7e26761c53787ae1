//! The values of a dataset as text, for showing an example row.
//!
//! Floating-point values are not rendered here; the caller renders them.

use crate::text::{digits_of, push_decimal};
use chrono::NaiveDate;
use vstd::prelude::*;
use vstd::string::StringExecFns;

verus! {

/// One value of a dataset.
#[derive(Debug, PartialEq, Eq)]
pub enum Cell {
    Int(i32),
    Text(String),
    /// A day, counted in the proleptic Gregorian calendar from 1 January of
    /// the year 1, which is day 1.
    Date(i32),
    Boolean(bool),
}

/// The date with the day number `days`, written as year, month and day with
/// hyphens between them; `None` where the calendar of the `chrono` crate does
/// not reach that day.
pub uninterp spec fn date_text_of(days: i32) -> Option<Seq<char>>;

/// The view of a text that there may be.
pub open spec fn text_view(text: Option<String>) -> Option<Seq<char>> {
    match text {
        Some(t) => Some(t@),
        None => None,
    }
}

/// `chrono::NaiveDate::from_num_days_from_ce_opt`, with the date that it
/// finds rendered by the format `%Y-%m-%d`. The result depends on the day
/// number alone; what it is for a given number is not stated here.
#[verifier::external_body]
pub(crate) fn date_text(days: i32) -> (text: Option<String>)
    ensures
        text_view(text) == date_text_of(days),
{
    match NaiveDate::from_num_days_from_ce_opt(days) {
        Some(date) => Some(date.format("%Y-%m-%d").to_string()),
        None => None,
    }
}

/// `n` written in base ten, with a minus sign where it is negative.
pub open spec fn int_text_of(n: int) -> Seq<char> {
    if n < 0 {
        seq!['-'] + digits_of((-n) as nat)
    } else {
        digits_of(n as nat)
    }
}

/// Computes [`int_text_of`].
pub fn int_text(n: i32) -> (text: String)
    ensures
        text@ == int_text_of(n as int),
{
    let mut text = String::new();
    if n < 0 {
        text.push('-');
        push_decimal(&mut text, (-(n as i64)) as u64);
        assert(text@ =~= int_text_of(n as int));
    } else {
        push_decimal(&mut text, n as u64);
        assert(text@ =~= int_text_of(n as int));
    }
    text
}

/// The text of a date cell, given what the calendar found for its day: the
/// date, or nothing where the day is out of the calendar's reach.
pub open spec fn date_cell_text_of(found: Option<Seq<char>>) -> Seq<char> {
    match found {
        Some(text) => text,
        None => Seq::empty(),
    }
}

/// Computes [`date_cell_text_of`].
pub fn date_cell_text(found: Option<String>) -> (text: String)
    ensures
        text@ == date_cell_text_of(text_view(found)),
{
    match found {
        Some(text) => text,
        None => String::new(),
    }
}

/// The text of a cell: integers in base ten, text as it is, dates as year,
/// month and day, booleans as `true` and `false`.
pub open spec fn cell_text_of(cell: Cell) -> Seq<char> {
    match cell {
        Cell::Int(n) => int_text_of(n as int),
        Cell::Text(text) => text@,
        Cell::Date(days) => date_cell_text_of(date_text_of(days)),
        Cell::Boolean(b) => if b {
            "true"@
        } else {
            "false"@
        },
    }
}

/// Renders a cell: see [`cell_text_of`].
pub fn render_cell(cell: &Cell) -> (text: String)
    ensures
        text@ == cell_text_of(*cell),
{
    match cell {
        Cell::Int(n) => int_text(*n),
        Cell::Text(text) => text.clone(),
        Cell::Date(days) => date_cell_text(date_text(*days)),
        Cell::Boolean(b) => if *b {
            String::from_str("true")
        } else {
            String::from_str("false")
        },
    }
}

} // verus!
