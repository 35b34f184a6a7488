//! Calendar dates: parsing through chrono's format strings and the ISO
//! `YYYY-MM-DD` rendering used in every exported record.
use chrono::Datelike;
use vstd::prelude::*;

use crate::text::{concat, concat3, decimal, decimal_string};

verus! {

/// A calendar date (proleptic Gregorian).
#[derive(Clone, Copy, Debug, PartialEq, Eq, Structural)]
pub struct Date {
    pub year: i32,
    pub month: u32,
    pub day: u32,
}

pub open spec fn plausible(d: Date) -> bool {
    1 <= d.month <= 12 && 1 <= d.day <= 31
}

/// The date chrono's `NaiveDate::parse_from_str(text, fmt)` yields, if any.
pub uninterp spec fn chrono_date(text: Seq<char>, fmt: Seq<char>) -> Option<Date>;

/// The date part of chrono's `NaiveDateTime::parse_from_str(text, fmt)`, if any.
pub uninterp spec fn chrono_datetime_date(text: Seq<char>, fmt: Seq<char>) -> Option<Date>;

/// chrono `NaiveDate::parse_from_str`: names its result; a parsed date has a
/// month in 1..=12 and a day in 1..=31.
#[verifier::external_body]
pub(crate) fn parse_date_fmt(text: &str, fmt: &str) -> (out: Option<Date>)
    ensures
        out == chrono_date(text@, fmt@),
        out matches Some(d) ==> plausible(d),
{
    match chrono::NaiveDate::parse_from_str(text, fmt) {
        Ok(d) => Some(Date { year: d.year(), month: d.month(), day: d.day() }),
        Err(_) => None,
    }
}

/// chrono `NaiveDateTime::parse_from_str`, keeping the date: names its
/// result; a parsed date has a month in 1..=12 and a day in 1..=31.
#[verifier::external_body]
pub(crate) fn parse_datetime_date_fmt(text: &str, fmt: &str) -> (out: Option<Date>)
    ensures
        out == chrono_datetime_date(text@, fmt@),
        out matches Some(d) ==> plausible(d),
{
    match chrono::NaiveDateTime::parse_from_str(text, fmt) {
        Ok(dt) => Some(Date { year: dt.date().year(), month: dt.date().month(), day: dt.date().day() }),
        Err(_) => None,
    }
}

pub open spec fn is_leap(y: int) -> bool {
    (y % 4 == 0 && y % 100 != 0) || y % 400 == 0
}

pub open spec fn days_in_month(y: int, m: int) -> int {
    if m == 2 {
        if is_leap(y) {
            29
        } else {
            28
        }
    } else if m == 4 || m == 6 || m == 9 || m == 11 {
        30
    } else {
        31
    }
}

/// A day of the proleptic Gregorian calendar within chrono's range of years.
pub open spec fn valid_ymd(y: int, m: int, d: int) -> bool {
    -262143 <= y <= 262142 && 1 <= m <= 12 && 1 <= d <= days_in_month(y, m)
}

/// chrono `NaiveDate::from_ymd_opt`: the date `y-m-d` when it exists in the
/// calendar and chrono's range of years, none otherwise.
#[verifier::external_body]
pub(crate) fn date_from_ymd(y: i32, m: u32, d: u32) -> (out: Option<Date>)
    ensures
        out == (if valid_ymd(y as int, m as int, d as int) {
            Some(Date { year: y, month: m, day: d })
        } else {
            None
        }),
{
    match chrono::NaiveDate::from_ymd_opt(y, m, d) {
        Some(_) => Some(Date { year: y, month: m, day: d }),
        None => None,
    }
}

/// `decimal(n)` left-padded with zeros to at least `width` characters.
pub open spec fn padded(n: nat, width: nat) -> Seq<char>
    decreases width,
{
    if decimal(n).len() >= width || width == 0 {
        decimal(n)
    } else {
        seq!['0'] + padded(n, (width - 1) as nat)
    }
}

proof fn lemma_padded_len(n: nat, width: nat)
    ensures
        padded(n, width).len() >= decimal(n).len(),
    decreases width,
{
    if !(decimal(n).len() >= width || width == 0) {
        lemma_padded_len(n, (width - 1) as nat);
    }
}

/// chrono's `%Y`: four digits zero-padded, with a sign when outside 0..=9999.
pub open spec fn year_text(y: int) -> Seq<char> {
    if 0 <= y <= 9999 {
        padded(y as nat, 4)
    } else if y > 9999 {
        seq!['+'] + decimal(y as nat)
    } else {
        seq!['-'] + padded((-y) as nat, 4)
    }
}

/// `date.format("%Y-%m-%d")`.
pub open spec fn iso_text(d: Date) -> Seq<char> {
    year_text(d.year as int) + seq!['-'] + padded(d.month as nat, 2) + seq!['-'] + padded(
        d.day as nat,
        2,
    )
}

pub(crate) fn padded_string(n: u32, width: usize) -> (out: String)
    requires
        width <= 4,
    ensures
        out@ == padded(n as nat, width as nat),
    decreases width,
{
    let digits = decimal_string(n as usize);
    if digits.unicode_len() >= width || width == 0 {
        digits
    } else {
        let rest = padded_string(n, width - 1);
        proof {
            reveal_strlit("0");
        }
        concat("0", rest.as_str())
    }
}

/// Renders a date as chrono's `%Y-%m-%d` does.
pub fn iso_date(d: &Date) -> (out: String)
    ensures
        out@ == iso_text(*d),
{
    let y = d.year;
    proof {
        reveal_strlit("+");
        reveal_strlit("-");
    }
    let year = if 0 <= y && y <= 9999 {
        padded_string(y as u32, 4)
    } else if y > 9999 {
        let digits = decimal_string(y as usize);
        concat("+", digits.as_str())
    } else {
        let m: u32 = if y == i32::MIN {
            2147483648u32
        } else {
            (-y) as u32
        };
        let digits = padded_string(m, 4);
        concat("-", digits.as_str())
    };
    let month = padded_string(d.month, 2);
    let day = padded_string(d.day, 2);
    let mut out = year;
    out.append("-");
    out.append(month.as_str());
    out.append("-");
    out.append(day.as_str());
    out
}

} // verus!
