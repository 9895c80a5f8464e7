//! The calendar model: proleptic Gregorian dates held as plain year, month
//! and day values, with the canonical `YYYY-MM-DD` text form used inside
//! daily-task URL segments.

use vstd::prelude::*;

use crate::text::{digit_char, digit_char_spec, digit_val, is_dec_digit};

verus! {

/// A proleptic Gregorian calendar date with a four-digit year.
#[derive(Clone, Copy, Debug, PartialEq, Eq, Structural, Hash)]
pub struct CalendarDate {
    pub year: u16,
    pub month: u8,
    pub day: u8,
}

pub open spec fn is_leap_year(y: int) -> bool {
    y % 4 == 0 && (y % 100 != 0 || y % 400 == 0)
}

pub open spec fn days_in_month(y: int, m: int) -> int {
    if m == 2 {
        if is_leap_year(y) {
            29
        } else {
            28
        }
    } else if m == 4 || m == 6 || m == 9 || m == 11 {
        30
    } else {
        31
    }
}

/// A valid date: month and day in range for the (possibly leap) year, and a
/// year that four digits can render.
pub open spec fn date_wf(d: CalendarDate) -> bool {
    &&& d.year <= 9999
    &&& 1 <= d.month <= 12
    &&& 1 <= d.day <= days_in_month(d.year as int, d.month as int)
}

/// The canonical `YYYY-MM-DD` rendering: zero-padded, fixed width.
pub open spec fn date_chars(d: CalendarDate) -> Seq<char> {
    seq![
        digit_char_spec((d.year as nat / 1000) % 10),
        digit_char_spec((d.year as nat / 100) % 10),
        digit_char_spec((d.year as nat / 10) % 10),
        digit_char_spec(d.year as nat % 10),
        '-',
        digit_char_spec((d.month as nat / 10) % 10),
        digit_char_spec(d.month as nat % 10),
        '-',
        digit_char_spec((d.day as nat / 10) % 10),
        digit_char_spec(d.day as nat % 10),
    ]
}

/// Why a date string was rejected.
#[derive(Clone, Copy, Debug, PartialEq, Eq, Structural)]
pub enum DateError {
    /// The text is not exactly ten characters long.
    Length,
    /// A separator position does not hold `-`.
    Separator,
    /// A digit position does not hold a decimal digit.
    Digit,
    /// The month is outside 1..=12.
    MonthRange,
    /// The day is outside the month's length.
    DayRange,
}

impl DateError {
    /// A short human-readable reason.
    pub fn message(&self) -> (r: &'static str)
        ensures
            r@ == self.message_spec(),
    {
        match self {
            DateError::Length => "expected exactly ten characters in YYYY-MM-DD form",
            DateError::Separator => "expected '-' separators in YYYY-MM-DD form",
            DateError::Digit => "expected decimal digits in YYYY-MM-DD form",
            DateError::MonthRange => "month must be between 01 and 12",
            DateError::DayRange => "day is out of range for the month",
        }
    }

    pub open spec fn message_spec(&self) -> Seq<char> {
        match self {
            DateError::Length => "expected exactly ten characters in YYYY-MM-DD form"@,
            DateError::Separator => "expected '-' separators in YYYY-MM-DD form"@,
            DateError::Digit => "expected decimal digits in YYYY-MM-DD form"@,
            DateError::MonthRange => "month must be between 01 and 12"@,
            DateError::DayRange => "day is out of range for the month"@,
        }
    }
}

pub open spec fn date_digits_ok(s: Seq<char>) -> bool
    recommends
        s.len() == 10,
{
    &&& is_dec_digit(s[0])
    &&& is_dec_digit(s[1])
    &&& is_dec_digit(s[2])
    &&& is_dec_digit(s[3])
    &&& is_dec_digit(s[5])
    &&& is_dec_digit(s[6])
    &&& is_dec_digit(s[8])
    &&& is_dec_digit(s[9])
}

pub open spec fn date_year_of(s: Seq<char>) -> nat {
    ((digit_val(s[0]) * 10 + digit_val(s[1])) * 10 + digit_val(s[2])) * 10 + digit_val(s[3])
}

pub open spec fn date_month_of(s: Seq<char>) -> nat {
    digit_val(s[5]) * 10 + digit_val(s[6])
}

pub open spec fn date_day_of(s: Seq<char>) -> nat {
    digit_val(s[8]) * 10 + digit_val(s[9])
}

/// What parsing a `YYYY-MM-DD` string yields: the date, or the first reason
/// it is rejected.
pub open spec fn parse_date_spec(s: Seq<char>) -> Result<CalendarDate, DateError> {
    if s.len() != 10 {
        Err(DateError::Length)
    } else if s[4] != '-' || s[7] != '-' {
        Err(DateError::Separator)
    } else if !date_digits_ok(s) {
        Err(DateError::Digit)
    } else {
        let y = date_year_of(s);
        let m = date_month_of(s);
        let d = date_day_of(s);
        if !(1 <= m <= 12) {
            Err(DateError::MonthRange)
        } else if !(1 <= d <= days_in_month(y as int, m as int)) {
            Err(DateError::DayRange)
        } else {
            Ok(CalendarDate { year: y as u16, month: m as u8, day: d as u8 })
        }
    }
}

pub fn days_in_month_exec(y: u16, m: u8) -> (r: u8)
    requires
        1 <= m <= 12,
    ensures
        r as int == days_in_month(y as int, m as int),
{
    if m == 2 {
        if (y % 4 == 0) && (y % 100 != 0 || y % 400 == 0) {
            29
        } else {
            28
        }
    } else if m == 4 || m == 6 || m == 9 || m == 11 {
        30
    } else {
        31
    }
}

fn digit_at(s: &str, i: usize) -> (r: Option<u8>)
    requires
        i < s@.len(),
    ensures
        match r {
            Some(v) => is_dec_digit(s@[i as int]) && v as nat == digit_val(s@[i as int]) && v < 10,
            None => !is_dec_digit(s@[i as int]),
        },
{
    let c = s.get_char(i);
    let cv = c as u32;
    if cv < 48 || cv > 57 {
        return None;
    }
    Some((cv - 48) as u8)
}

/// Parses a `YYYY-MM-DD` date string.
pub fn parse_date(s: &str) -> (r: Result<CalendarDate, DateError>)
    ensures
        r == parse_date_spec(s@),
        r matches Ok(d) ==> date_wf(d),
{
    let len = s.unicode_len();
    if len != 10 {
        return Err(DateError::Length);
    }
    if s.get_char(4) != '-' || s.get_char(7) != '-' {
        return Err(DateError::Separator);
    }
    let d0 = digit_at(s, 0);
    let d1 = digit_at(s, 1);
    let d2 = digit_at(s, 2);
    let d3 = digit_at(s, 3);
    let d5 = digit_at(s, 5);
    let d6 = digit_at(s, 6);
    let d8 = digit_at(s, 8);
    let d9 = digit_at(s, 9);
    match (d0, d1, d2, d3, d5, d6, d8, d9) {
        (
            Some(y0),
            Some(y1),
            Some(y2),
            Some(y3),
            Some(m0),
            Some(m1),
            Some(a0),
            Some(a1),
        ) => {
            let y: u16 = ((y0 as u16 * 10 + y1 as u16) * 10 + y2 as u16) * 10 + y3 as u16;
            let m: u8 = m0 * 10 + m1;
            let d: u8 = a0 * 10 + a1;
            if !(1 <= m && m <= 12) {
                return Err(DateError::MonthRange);
            }
            let dim = days_in_month_exec(y, m);
            if !(1 <= d && d <= dim) {
                return Err(DateError::DayRange);
            }
            Ok(CalendarDate { year: y, month: m, day: d })
        },
        _ => Err(DateError::Digit),
    }
}

/// Renders a date in canonical `YYYY-MM-DD` form.
pub fn render_date(d: CalendarDate) -> (r: String)
    requires
        date_wf(d),
    ensures
        r@ == date_chars(d),
{
    let y = d.year;
    let mut s = String::new();
    s.push(digit_char(((y / 1000) % 10) as u8));
    s.push(digit_char(((y / 100) % 10) as u8));
    s.push(digit_char(((y / 10) % 10) as u8));
    s.push(digit_char((y % 10) as u8));
    s.push('-');
    s.push(digit_char((d.month / 10) % 10));
    s.push(digit_char(d.month % 10));
    s.push('-');
    s.push(digit_char((d.day / 10) % 10));
    s.push(digit_char(d.day % 10));
    proof {
        assert(s@ =~= date_chars(d));
    }
    s
}

/// Every date that parses is valid.
pub proof fn lemma_parse_date_spec_wf(s: Seq<char>)
    ensures
        parse_date_spec(s) matches Ok(d) ==> date_wf(d),
{
    if s.len() == 10 && s[4] == '-' && s[7] == '-' && date_digits_ok(s) {
        assert(digit_val(s[0]) <= 9 && digit_val(s[1]) <= 9 && digit_val(s[2]) <= 9 && digit_val(
            s[3],
        ) <= 9);
        assert(date_year_of(s) <= 9999);
    }
}

/// Rendering a valid date and parsing the text back yields the same date.
pub proof fn lemma_date_round_trip(d: CalendarDate)
    requires
        date_wf(d),
    ensures
        parse_date_spec(date_chars(d)) == Ok::<CalendarDate, DateError>(d),
{
    let s = date_chars(d);
    let y = d.year as nat;
    assert(date_year_of(s) == ((((y / 1000) % 10) * 10 + (y / 100) % 10) * 10 + (y / 10) % 10) * 10
        + y % 10);
    assert(((((y / 1000) % 10) * 10 + (y / 100) % 10) * 10 + (y / 10) % 10) * 10 + y % 10 == y) by (nonlinear_arith)
        requires
            y <= 9999,
    ;
    let m = d.month as nat;
    assert(date_month_of(s) == ((m / 10) % 10) * 10 + m % 10);
    assert(((m / 10) % 10) * 10 + m % 10 == m) by (nonlinear_arith)
        requires
            m <= 12,
    ;
    let dd = d.day as nat;
    assert(date_day_of(s) == ((dd / 10) % 10) * 10 + dd % 10);
    assert(((dd / 10) % 10) * 10 + dd % 10 == dd) by (nonlinear_arith)
        requires
            dd <= 31,
    ;
}

} // verus!
