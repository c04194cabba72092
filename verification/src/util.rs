//! Small helpers: comma separated values, name checks and accounting
//! periods.
use vstd::prelude::*;

use crate::errors::Result;
use crate::text::{self, split_seq, unicode_alphanumeric};

verus! {

/// Splits a comma separated list into its items. Items are taken as they
/// stand; an empty input gives one empty item.
pub fn csv(s: String) -> (r: Result<Vec<String>>)
    ensures
        (r matches Ok(v) && v.deep_view() == split_seq(s@, ',')),
{
    let cs = text::str_chars(s.as_str());
    Ok(text::split_chars(&cs, ','))
}

/// A character allowed in names: alphanumeric, `-` or `_`.
pub open spec fn is_anuh_char(c: char) -> bool {
    c == '-' || c == '_' || unicode_alphanumeric(c)
}

/// A character allowed in aliases and tags: alphanumeric, `-`, `_`, `.`
/// or `:`.
pub open spec fn is_anuhdc_char(c: char) -> bool {
    c == '-' || c == '_' || c == '.' || c == ':' || unicode_alphanumeric(c)
}

/// Every character of `s` is allowed in a name.
pub open spec fn all_anuh(s: Seq<char>) -> bool {
    forall|i: int| 0 <= i < s.len() ==> is_anuh_char(#[trigger] s[i])
}

/// Every character of `s` is allowed in an alias or a tag.
pub open spec fn all_anuhdc(s: Seq<char>) -> bool {
    forall|i: int| 0 <= i < s.len() ==> is_anuhdc_char(#[trigger] s[i])
}

/// Whether `s` holds only alphanumerics, `-` and `_`.
pub fn str_as_anuh(s: &str) -> (r: bool)
    ensures
        r == all_anuh(s@),
{
    let cs = text::str_chars(s);
    let n = cs.len();
    let mut i: usize = 0;
    while i < n
        invariant
            i <= n,
            n == s@.len(),
            cs@ == s@,
            forall|k: int| 0 <= k < i ==> is_anuh_char(#[trigger] s@[k]),
        decreases n - i,
    {
        let ch = cs[i];
        if !(ch == '-' || ch == '_' || text::char_is_alphanumeric(ch)) {
            assert(!is_anuh_char(s@[i as int]));
            return false;
        }
        i = i + 1;
    }
    true
}

/// Whether `s` holds only alphanumerics, `-`, `_`, `.` and `:`.
pub fn str_as_anuhdc(s: &str) -> (r: bool)
    ensures
        r == all_anuhdc(s@),
{
    let cs = text::str_chars(s);
    let n = cs.len();
    let mut i: usize = 0;
    while i < n
        invariant
            i <= n,
            n == s@.len(),
            cs@ == s@,
            forall|k: int| 0 <= k < i ==> is_anuhdc_char(#[trigger] s@[k]),
        decreases n - i,
    {
        let ch = cs[i];
        if !(ch == '-' || ch == '_' || ch == '.' || ch == ':' || text::char_is_alphanumeric(ch)) {
            assert(!is_anuhdc_char(s@[i as int]));
            return false;
        }
        i = i + 1;
    }
    true
}

// ---------------------------------------------------------------------
// Calendar dates and accounting periods.

/// The earliest year of the calendar (that of `chrono`).
pub const MIN_YEAR: i32 = -262143;

/// The latest year of the calendar (that of `chrono`).
pub const MAX_YEAR: i32 = 262142;

/// A day of the proleptic Gregorian calendar.
#[derive(Clone, Copy, Debug, PartialEq, Eq, Structural)]
pub struct CalDate {
    pub year: i32,
    pub month: u32,
    pub day: u32,
}

/// Leap years of the Gregorian calendar.
pub open spec fn is_leap_year(y: int) -> bool {
    (y % 4 == 0 && y % 100 != 0) || y % 400 == 0
}

/// The number of days of a month.
pub open spec fn month_days(y: int, m: int) -> int {
    if m == 2 {
        if is_leap_year(y) {
            29
        } else {
            28
        }
    } else if m == 4 || m == 6 || m == 9 || m == 11 {
        30
    } else {
        31
    }
}

impl CalDate {
    /// A real day within the calendar's years.
    pub open spec fn valid(self) -> bool {
        &&& MIN_YEAR <= self.year <= MAX_YEAR
        &&& 1 <= self.month <= 12
        &&& 1 <= self.day <= month_days(self.year as int, self.month as int)
    }

    /// Whether `self` is the same day as `other` or an earlier one.
    pub open spec fn le(self, other: CalDate) -> bool {
        ||| self.year < other.year
        ||| (self.year == other.year && self.month < other.month)
        ||| (self.year == other.year && self.month == other.month && self.day <= other.day)
    }

    /// The day with the given year, month and day, if there is one in the
    /// calendar.
    pub fn new(year: i32, month: u32, day: u32) -> (r: Option<CalDate>)
        ensures
            r matches Some(d) ==> (d == CalDate { year, month, day }),
            (r is Some) <==> (CalDate { year, month, day }).valid(),
    {
        if year < MIN_YEAR || year > MAX_YEAR || month < 1 || month > 12 || day < 1 {
            return None;
        }
        let leap = (year % 4 == 0 && year % 100 != 0) || year % 400 == 0;
        let days: u32 = if month == 2 {
            if leap {
                29
            } else {
                28
            }
        } else if month == 4 || month == 6 || month == 9 || month == 11 {
            30
        } else {
            31
        };
        if day > days {
            None
        } else {
            Some(CalDate { year, month, day })
        }
    }
}

/// The accounting period that holds a day: from the 1st of April to the
/// 31st of March of the next year.
pub open spec fn period_of(date: CalDate) -> (CalDate, CalDate) {
    if date.month < 3 || (date.month == 3 && date.day <= 31) {
        (
            CalDate { year: (date.year - 1) as i32, month: 4, day: 1 },
            CalDate { year: date.year, month: 3, day: 31 },
        )
    } else {
        (
            CalDate { year: date.year, month: 4, day: 1 },
            CalDate { year: (date.year + 1) as i32, month: 3, day: 31 },
        )
    }
}

/// The accounting period, from the 1st of April to the 31st of March,
/// that holds `date`.
pub fn date_to_period(date: CalDate) -> (r: (CalDate, CalDate))
    requires
        date.valid(),
        date.month <= 3 ==> date.year > MIN_YEAR,
        date.month > 3 ==> date.year < MAX_YEAR,
    ensures
        r == period_of(date),
{
    let closing = CalDate { year: date.year, month: 3, day: 31 };
    if date.month < closing.month || (date.month == closing.month && date.day <= closing.day) {
        (
            CalDate { year: date.year - 1, month: 4, day: 1 },
            CalDate { year: date.year, month: 3, day: 31 },
        )
    } else {
        (
            CalDate { year: date.year, month: 4, day: 1 },
            CalDate { year: date.year + 1, month: 3, day: 31 },
        )
    }
}

/// A day lies within its own accounting period, and the period starts on
/// the 1st of April and ends on the 31st of March of the next year.
pub proof fn lemma_period_contains_date(date: CalDate)
    requires
        date.valid(),
        date.month <= 3 ==> date.year > MIN_YEAR,
        date.month > 3 ==> date.year < MAX_YEAR,
    ensures
        period_of(date).0.le(date),
        date.le(period_of(date).1),
        period_of(date).0.valid(),
        period_of(date).1.valid(),
        period_of(date).0.month == 4 && period_of(date).0.day == 1,
        period_of(date).1.month == 3 && period_of(date).1.day == 31,
        period_of(date).1.year == period_of(date).0.year + 1,
{
}

/// Every day of a period lies in that same period.
pub proof fn lemma_period_stable(date: CalDate, other: CalDate)
    requires
        date.valid(),
        other.valid(),
        date.month <= 3 ==> date.year > MIN_YEAR,
        date.month > 3 ==> date.year < MAX_YEAR,
        period_of(date).0.le(other),
        other.le(period_of(date).1),
    ensures
        period_of(other) == period_of(date),
{
}

/// Two decimal digits of `v` (below 100).
pub open spec fn two_digits(v: int) -> Seq<char> {
    seq![text::digit_char((v / 10) as nat), text::digit_char((v % 10) as nat)]
}

/// The English abbreviation of a month.
pub open spec fn month_abbr(m: u32) -> Seq<char> {
    if m == 1 {
        seq!['J', 'a', 'n']
    } else if m == 2 {
        seq!['F', 'e', 'b']
    } else if m == 3 {
        seq!['M', 'a', 'r']
    } else if m == 4 {
        seq!['A', 'p', 'r']
    } else if m == 5 {
        seq!['M', 'a', 'y']
    } else if m == 6 {
        seq!['J', 'u', 'n']
    } else if m == 7 {
        seq!['J', 'u', 'l']
    } else if m == 8 {
        seq!['A', 'u', 'g']
    } else if m == 9 {
        seq!['S', 'e', 'p']
    } else if m == 10 {
        seq!['O', 'c', 't']
    } else if m == 11 {
        seq!['N', 'o', 'v']
    } else {
        seq!['D', 'e', 'c']
    }
}

/// A day written as `chrono` writes it with `%d-%b-%y`: the day in two
/// digits, the month's abbreviation, and the year modulo 100 in two digits.
pub open spec fn date_text(d: CalDate) -> Seq<char> {
    two_digits(d.day as int) + seq!['-'] + month_abbr(d.month) + seq!['-'] + two_digits(
        (d.year as int) % 100,
    )
}

/// Formats the day with `chrono`'s `%d-%b-%y`: day and year (Euclidean
/// remainder by 100) zero-padded to two digits, and the month's English
/// abbreviation. `chrono` panics on a day that does not exist.
#[verifier::external_body]
pub(crate) fn format_date(d: CalDate) -> (r: String)
    requires
        d.valid(),
    ensures
        r@ == date_text(d),
{
    chrono::NaiveDate::from_ymd_opt(d.year, d.month, d.day).unwrap().format("%d-%b-%y").to_string()
}

} // verus!
