//! Calendar dates as plain values.
//!
//! Upstream payment dates arrive as `YYYY-MM-DD` text; they are parsed
//! here into year, month and day, accepting exactly the ten-character
//! zero-padded form with a month and day that exist in the proleptic
//! Gregorian calendar.

use vstd::prelude::*;

verus! {

/// A calendar date.
#[derive(Debug, Clone, Copy, PartialEq, Eq, Structural)]
pub struct Date {
    /// Four-digit year.
    pub year: u32,
    /// Month, 1 to 12.
    pub month: u32,
    /// Day of month, 1 to the month's length.
    pub day: u32,
}

/// An ASCII digit.
pub open spec fn spec_is_digit(c: char) -> bool {
    '0' <= c <= '9'
}

/// Numeric value of an ASCII digit.
pub open spec fn spec_digit(c: char) -> int {
    c as u32 - '0' as u32
}

/// A leap year of the Gregorian calendar.
pub open spec fn spec_is_leap_year(y: int) -> bool {
    y % 4 == 0 && (y % 100 != 0 || y % 400 == 0)
}

/// Number of days in a month.
pub open spec fn spec_days_in_month(y: int, m: int) -> int {
    if m == 2 {
        if spec_is_leap_year(y) {
            29
        } else {
            28
        }
    } else if m == 4 || m == 6 || m == 9 || m == 11 {
        30
    } else {
        31
    }
}

/// The date names an existing day of the calendar.
pub open spec fn spec_date_valid(d: Date) -> bool {
    1 <= d.month <= 12 && 1 <= d.day <= spec_days_in_month(d.year as int, d.month as int)
}

/// The text has the ten-character shape `YYYY-MM-DD`.
pub open spec fn spec_date_text_shaped(s: Seq<char>) -> bool {
    &&& s.len() == 10
    &&& s[4] == '-'
    &&& s[7] == '-'
    &&& spec_is_digit(s[0])
    &&& spec_is_digit(s[1])
    &&& spec_is_digit(s[2])
    &&& spec_is_digit(s[3])
    &&& spec_is_digit(s[5])
    &&& spec_is_digit(s[6])
    &&& spec_is_digit(s[8])
    &&& spec_is_digit(s[9])
}

/// The date a shaped text spells out.
pub open spec fn spec_date_of_text(s: Seq<char>) -> Date {
    Date {
        year: (spec_digit(s[0]) * 1000 + spec_digit(s[1]) * 100 + spec_digit(s[2]) * 10
            + spec_digit(s[3])) as u32,
        month: (spec_digit(s[5]) * 10 + spec_digit(s[6])) as u32,
        day: (spec_digit(s[8]) * 10 + spec_digit(s[9])) as u32,
    }
}

/// The parse of a date text: the spelled-out date when the text is
/// shaped and names an existing day, otherwise nothing.
pub open spec fn spec_parse_date(s: Seq<char>) -> Option<Date> {
    if spec_date_text_shaped(s) && spec_date_valid(spec_date_of_text(s)) {
        Option::Some(spec_date_of_text(s))
    } else {
        Option::None
    }
}

/// Reads the digit at position `j`, or reports that it is not one.
pub fn digit_at(s: &str, j: usize) -> (r: Option<u32>)
    requires
        j < s@.len(),
    ensures
        match r {
            Option::Some(v) => spec_is_digit(s@[j as int]) && v == spec_digit(s@[j as int]),
            Option::None => !spec_is_digit(s@[j as int]),
        },
{
    let c = s.get_char(j);
    if '0' <= c && c <= '9' {
        Option::Some(c as u32 - '0' as u32)
    } else {
        Option::None
    }
}

/// Parses `YYYY-MM-DD` text into a date, insisting that the named day
/// exists in the calendar.
pub fn parse_date(s: &str) -> (r: Option<Date>)
    ensures
        r == spec_parse_date(s@),
{
    if s.unicode_len() != 10 {
        return Option::None;
    }
    if s.get_char(4) != '-' || s.get_char(7) != '-' {
        return Option::None;
    }
    let d0 = digit_at(s, 0);
    let d1 = digit_at(s, 1);
    let d2 = digit_at(s, 2);
    let d3 = digit_at(s, 3);
    let d5 = digit_at(s, 5);
    let d6 = digit_at(s, 6);
    let d8 = digit_at(s, 8);
    let d9 = digit_at(s, 9);
    match (d0, d1, d2, d3, d5, d6, d8, d9) {
        (
            Option::Some(y0),
            Option::Some(y1),
            Option::Some(y2),
            Option::Some(y3),
            Option::Some(m0),
            Option::Some(m1),
            Option::Some(a0),
            Option::Some(a1),
        ) => {
            let date = Date {
                year: y0 * 1000 + y1 * 100 + y2 * 10 + y3,
                month: m0 * 10 + m1,
                day: a0 * 10 + a1,
            };
            if 1 <= date.month && date.month <= 12 && 1 <= date.day && date.day <= days_in_month(
                date.year,
                date.month,
            ) {
                Option::Some(date)
            } else {
                Option::None
            }
        },
        _ => Option::None,
    }
}

/// Number of days in a month.
pub fn days_in_month(y: u32, m: u32) -> (r: u32)
    ensures
        r == spec_days_in_month(y as int, m as int),
{
    if m == 2 {
        if y % 4 == 0 && (y % 100 != 0 || y % 400 == 0) {
            29
        } else {
            28
        }
    } else if m == 4 || m == 6 || m == 9 || m == 11 {
        30
    } else {
        31
    }
}

} // verus!
