//! Dates as they are written in a query and as they are stored.

use crate::numbers::{natural_digits, padded, push_natural, push_padded};
use chrono::Datelike;
use vstd::prelude::*;

verus! {

/// A day of the calendar.
#[derive(Debug, Clone, Copy, PartialEq, Eq, Structural)]
pub struct Date {
    /// The year; the year before the year 1 is the year 0.
    pub year: i32,
    /// The month, from 1.
    pub month: u32,
    /// The day of the month, from 1.
    pub day: u32,
}

/// The date that `text` spells, if it spells one.
pub uninterp spec fn spelled_date(text: Seq<char>) -> Option<Date>;

/// `chrono::NaiveDate::from_str`, with `Datelike::year`, `month` and `day` on
/// the date it gives. Trusted: whether the text spells a date, and which one,
/// depends on the text alone; the month is one of the twelve and the day at
/// most the thirty-first.
#[verifier::external_body]
pub(crate) fn parse_date(text: &str) -> (r: Option<Date>)
    ensures
        r == spelled_date(text@),
        r matches Some(date) ==> 1 <= date.month <= 12 && 1 <= date.day <= 31,
{
    match text.parse::<chrono::NaiveDate>() {
        Ok(date) => Some(Date { year: date.year(), month: date.month(), day: date.day() }),
        Err(_) => None,
    }
}

/// A year as it is stored: four digits from the year 0 to the year 9999, and
/// before and after them a sign and at least four digits.
pub open spec fn year_text(year: int) -> Seq<char> {
    let magnitude = if year < 0 {
        (-year) as nat
    } else {
        year as nat
    };
    let digits = if magnitude < 10000 {
        padded(magnitude, 4)
    } else {
        natural_digits(magnitude)
    };
    if 0 <= year <= 9999 {
        digits
    } else if year < 0 {
        seq!['-'] + digits
    } else {
        seq!['+'] + digits
    }
}

/// A date as it is stored: the year, the month in two digits and the day in
/// two digits, with a hyphen between them.
pub open spec fn date_text(date: Date) -> Seq<char> {
    year_text(date.year as int) + seq!['-'] + padded(date.month as nat, 2) + seq!['-'] + padded(
        date.day as nat,
        2,
    )
}

/// The date that `text` spells, as it is stored; `None` if `text` spells no
/// date.
pub open spec fn normalized_date(text: Seq<char>) -> Option<Seq<char>> {
    match spelled_date(text) {
        Some(date) => Some(date_text(date)),
        None => None,
    }
}

/// Writes a date as it is stored.
pub fn write_date(date: Date) -> (text: String)
    ensures
        text@ == date_text(date),
{
    let mut text = String::new();
    let year: i64 = date.year as i64;
    let magnitude: u64 = if year < 0 {
        (-year) as u64
    } else {
        year as u64
    };
    if year < 0 {
        text.push('-');
    } else if year > 9999 {
        text.push('+');
    }
    let ghost signed = text@;
    if magnitude < 10000 {
        push_padded(&mut text, magnitude, 4);
    } else {
        push_natural(&mut text, magnitude);
    }
    assert(text@ =~= year_text(date.year as int)) by {
        assert(Seq::<char>::empty() + padded(magnitude as nat, 4) =~= padded(magnitude as nat, 4));
        assert(Seq::<char>::empty() + natural_digits(magnitude as nat) =~= natural_digits(
            magnitude as nat,
        ));
    }
    text.push('-');
    push_padded(&mut text, date.month as u64, 2);
    text.push('-');
    push_padded(&mut text, date.day as u64, 2);
    assert(text@ =~= date_text(date));
    text
}

/// Reads a date and writes it as it is stored.
pub fn normalize_date(text: &str) -> (r: Option<String>)
    ensures
        match r {
            Some(date) => normalized_date(text@) == Some(date@),
            None => normalized_date(text@) is None,
        },
{
    match parse_date(text) {
        Some(date) => Some(write_date(date)),
        None => None,
    }
}

} // verus!
