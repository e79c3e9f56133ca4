//! Calendar dates as plain year/month/day values, with the `YYYY-MM-DD`
//! encoding that record and idea rows carry, and the current UTC day taken
//! from the system clock.

use vstd::prelude::*;

use chrono::Datelike;

use crate::text::{spec_digit, digit_str};

verus! {

/// A calendar date. `valid()` is the well-formedness invariant every
/// constructor establishes.
#[derive(Clone, Copy, Debug, PartialEq, Eq, Structural)]
pub struct Date {
    pub year: u32,
    pub month: u32,
    pub day: u32,
}

pub open spec fn spec_is_leap(y: nat) -> bool {
    y % 4 == 0 && (y % 100 != 0 || y % 400 == 0)
}

pub open spec fn spec_days_in_month(y: nat, m: nat) -> nat {
    if m == 2 {
        if spec_is_leap(y) {
            29
        } else {
            28
        }
    } else if m == 4 || m == 6 || m == 9 || m == 11 {
        30
    } else {
        31
    }
}

impl Date {
    /// A proper Gregorian date with a four-digit year.
    pub open spec fn valid(self) -> bool {
        self.year <= 9999 && 1 <= self.month <= 12 && 1 <= self.day
            <= spec_days_in_month(self.year as nat, self.month as nat)
    }

    /// Checked construction: `Some` exactly on valid year/month/day triples.
    pub fn checked(year: u32, month: u32, day: u32) -> (r: Option<Date>)
        ensures
            (r matches Some(d) ==> d == (Date { year, month, day }) && d.valid()),
            (r is None ==> !(Date { year, month, day }).valid()),
    {
        let ok = year <= 9999 && 1 <= month && month <= 12 && 1 <= day && day <= days_in_month(
            year,
            month,
        );
        if ok {
            Some(Date { year, month, day })
        } else {
            None
        }
    }

    /// The `YYYY-MM-DD` rendering, zero-padded.
    pub fn encode(&self) -> (r: String)
        requires
            self.valid(),
        ensures
            r@ == spec_date_str(*self),
    {
        let y = self.year;
        let m = self.month;
        let d = self.day;
        let mut r = digit_str((y / 1000) as u64 % 10).to_owned();
        r.append(digit_str((y / 100) as u64 % 10));
        r.append(digit_str((y / 10) as u64 % 10));
        r.append(digit_str(y as u64 % 10));
        r.append("-");
        r.append(digit_str((m / 10) as u64 % 10));
        r.append(digit_str(m as u64 % 10));
        r.append("-");
        r.append(digit_str((d / 10) as u64 % 10));
        r.append(digit_str(d as u64 % 10));
        proof {
            reveal_strlit("-");
            assert(r@ =~= spec_date_str(*self));
        }
        r
    }

    /// Today according to the system's UTC clock. Falls back to the epoch day
    /// should the clock report a year outside the four-digit range.
    pub fn today() -> (r: Date)
        ensures
            r.valid(),
    {
        let (y, m, d) = today_ymd();
        if 0 <= y && y <= 9999 {
            match Date::checked(y as u32, m, d) {
                Some(date) => date,
                None => Date { year: 1970, month: 1, day: 1 },
            }
        } else {
            Date { year: 1970, month: 1, day: 1 }
        }
    }
}

pub fn days_in_month(y: u32, m: u32) -> (r: u32)
    ensures
        r == spec_days_in_month(y as nat, m as nat),
{
    if m == 2 {
        if y % 4 == 0 && (y % 100 != 0 || y % 400 == 0) {
            29
        } else {
            28
        }
    } else if m == 4 || m == 6 || m == 9 || m == 11 {
        30
    } else {
        31
    }
}

/// The ten characters `YYYY-MM-DD` for a date.
pub open spec fn spec_date_str(d: Date) -> Seq<char> {
    seq![
        spec_digit((d.year / 1000 % 10) as nat),
        spec_digit((d.year / 100 % 10) as nat),
        spec_digit((d.year / 10 % 10) as nat),
        spec_digit((d.year % 10) as nat),
        '-',
        spec_digit((d.month / 10 % 10) as nat),
        spec_digit((d.month % 10) as nat),
        '-',
        spec_digit((d.day / 10 % 10) as nat),
        spec_digit((d.day % 10) as nat),
    ]
}

/// The numeric value of a decimal digit character, or 10 for anything else.
pub open spec fn spec_digit_val(c: char) -> nat {
    if c == '0' {
        0
    } else if c == '1' {
        1
    } else if c == '2' {
        2
    } else if c == '3' {
        3
    } else if c == '4' {
        4
    } else if c == '5' {
        5
    } else if c == '6' {
        6
    } else if c == '7' {
        7
    } else if c == '8' {
        8
    } else if c == '9' {
        9
    } else {
        10
    }
}

pub open spec fn spec_is_digit(c: char) -> bool {
    spec_digit_val(c) < 10
}

pub fn digit_val(c: char) -> (r: u32)
    ensures
        r == spec_digit_val(c),
{
    if c == '0' {
        0
    } else if c == '1' {
        1
    } else if c == '2' {
        2
    } else if c == '3' {
        3
    } else if c == '4' {
        4
    } else if c == '5' {
        5
    } else if c == '6' {
        6
    } else if c == '7' {
        7
    } else if c == '8' {
        8
    } else if c == '9' {
        9
    } else {
        10
    }
}

/// The date a ten-character `YYYY-MM-DD` sequence stands for, if it is one
/// and the date is valid.
pub open spec fn spec_parse_date(s: Seq<char>) -> Option<Date> {
    if s.len() == 10 && spec_is_digit(s[0]) && spec_is_digit(s[1]) && spec_is_digit(s[2])
        && spec_is_digit(s[3]) && s[4] == '-' && spec_is_digit(s[5]) && spec_is_digit(s[6]) && s[7]
        == '-' && spec_is_digit(s[8]) && spec_is_digit(s[9]) {
        let d = Date {
            year: (spec_digit_val(s[0]) * 1000 + spec_digit_val(s[1]) * 100 + spec_digit_val(s[2])
                * 10 + spec_digit_val(s[3])) as u32,
            month: (spec_digit_val(s[5]) * 10 + spec_digit_val(s[6])) as u32,
            day: (spec_digit_val(s[8]) * 10 + spec_digit_val(s[9])) as u32,
        };
        if d.valid() {
            Some(d)
        } else {
            None
        }
    } else {
        None
    }
}

/// Parse a `YYYY-MM-DD` string back into a date.
pub fn parse_date(s: &str) -> (r: Option<Date>)
    ensures
        r == spec_parse_date(s@),
{
    if s.unicode_len() != 10 {
        return None;
    }
    let c0 = digit_val(s.get_char(0));
    let c1 = digit_val(s.get_char(1));
    let c2 = digit_val(s.get_char(2));
    let c3 = digit_val(s.get_char(3));
    let c5 = digit_val(s.get_char(5));
    let c6 = digit_val(s.get_char(6));
    let c8 = digit_val(s.get_char(8));
    let c9 = digit_val(s.get_char(9));
    if c0 < 10 && c1 < 10 && c2 < 10 && c3 < 10 && s.get_char(4) == '-' && c5 < 10 && c6 < 10
        && s.get_char(7) == '-' && c8 < 10 && c9 < 10 {
        let d = Date {
            year: c0 * 1000 + c1 * 100 + c2 * 10 + c3,
            month: c5 * 10 + c6,
            day: c8 * 10 + c9,
        };
        match Date::checked(d.year, d.month, d.day) {
            Some(date) => Some(date),
            None => None,
        }
    } else {
        None
    }
}

proof fn lemma_digit_round_trip(d: nat)
    requires
        d < 10,
    ensures
        spec_digit_val(spec_digit(d)) == d,
{
}

/// Encoding a valid date and parsing the ten characters back yields the same
/// date.
#[verifier::rlimit(50)]
pub proof fn lemma_date_round_trip(d: Date)
    requires
        d.valid(),
    ensures
        spec_parse_date(spec_date_str(d)) == Some(d),
{
    let s = spec_date_str(d);
    lemma_digit_round_trip((d.year / 1000 % 10) as nat);
    lemma_digit_round_trip((d.year / 100 % 10) as nat);
    lemma_digit_round_trip((d.year / 10 % 10) as nat);
    lemma_digit_round_trip((d.year % 10) as nat);
    lemma_digit_round_trip((d.month / 10 % 10) as nat);
    lemma_digit_round_trip((d.month % 10) as nat);
    lemma_digit_round_trip((d.day / 10 % 10) as nat);
    lemma_digit_round_trip((d.day % 10) as nat);
    let y = d.year;
    let m = d.month;
    let dy = d.day;
    assert(y / 1000 % 10 * 1000 + y / 100 % 10 * 100 + y / 10 % 10 * 10 + y % 10 == y)
        by (bit_vector)
        requires
            y <= 9999u32,
    ;
    assert(m / 10 % 10 * 10 + m % 10 == m) by (bit_vector)
        requires
            m <= 12u32,
    ;
    assert(dy / 10 % 10 * 10 + dy % 10 == dy) by (bit_vector)
        requires
            dy <= 31u32,
    ;
}

/// Relies on chrono::Utc::now and chrono::Datelike for the current UTC
/// calendar day; Datelike documents that month ranges over 1 to 12 and day
/// over 1 to 31.
#[verifier::external_body]
fn today_ymd() -> (r: (i32, u32, u32))
    ensures
        1 <= r.1 <= 12,
        1 <= r.2 <= 31,
{
    let d = chrono::Utc::now().date_naive();
    (d.year(), d.month(), d.day())
}

} // verus!
