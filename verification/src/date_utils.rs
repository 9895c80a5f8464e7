//! The three-character IGC filename date code, and the filenames built
//! from it.

use vstd::prelude::*;
use vstd::string::*;

use crate::date::{date_wf, CalendarDate};
use crate::text::{dec_chars_of, digit_char, digit_char_spec, render_u32};

verus! {

/// The day code: digits `1`-`9` for days one to nine, letters `A`-`V` for
/// days ten to thirty-one.
pub open spec fn igc_day_char(day: u8) -> char
    recommends
        1 <= day <= 31,
{
    if day <= 9 {
        digit_char_spec(day as nat)
    } else {
        ((55 + day) as u8) as char
    }
}

/// The three-character prefix: last digit of the year, the month in
/// decimal, and the day code.
pub open spec fn igc_prefix_chars(d: CalendarDate) -> Seq<char> {
    seq![digit_char_spec(d.year as nat % 10)] + dec_chars_of(d.month as nat) + seq![
        igc_day_char(d.day),
    ]
}

/// Converts a date to the IGC filename date format.
///
/// Format: `{last_digit_of_year}{month}{day_code}`, with the day code a
/// digit for days 1-9 and a letter `A`-`V` for days 10-31.
pub fn date_to_igc_filename_prefix(date: CalendarDate) -> (r: String)
    requires
        date_wf(date),
    ensures
        r@ == igc_prefix_chars(date),
{
    let mut s = String::new();
    s.push(digit_char((date.year % 10) as u8));
    let month = render_u32(date.month as u32);
    s.append(month.as_str());
    let day_character: char = if date.day <= 9 {
        digit_char(date.day)
    } else {
        (55 + date.day) as char
    };
    s.push(day_character);
    proof {
        assert(s@ =~= igc_prefix_chars(date));
    }
    s
}

/// The filename of one downloaded flight: `{prefix}_{callsign}.igc`.
pub open spec fn igc_filename_chars(prefix: Seq<char>, callsign: Seq<char>) -> Seq<char> {
    prefix + "_"@ + callsign + ".igc"@
}

/// Builds the filename of one downloaded flight.
pub fn igc_filename(prefix: &str, callsign: &str) -> (r: String)
    ensures
        r@ == igc_filename_chars(prefix@, callsign@),
{
    let mut s = prefix.to_owned();
    s.append("_");
    s.append(callsign);
    s.append(".igc");
    proof {
        assert(s@ =~= igc_filename_chars(prefix@, callsign@));
    }
    s
}

} // verus!
