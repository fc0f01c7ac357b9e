//! Calendar dates of the proleptic Gregorian calendar, held as plain
//! year / month / day numbers.

use chrono::Datelike;
use vstd::prelude::*;

verus! {

/// A calendar date without a time component.
#[derive(Clone, Copy, Debug, PartialEq, Eq, Structural)]
pub struct CivilDate {
    pub year: i32,
    pub month: u32,
    pub day: u32,
}

/// Smallest year that the date parser produces.
pub const MIN_PARSED_YEAR: i32 = -262143;

/// Largest year that the date parser produces.
pub const MAX_PARSED_YEAR: i32 = 262142;

pub open spec fn is_leap_year(y: int) -> bool {
    (y % 4 == 0 && y % 100 != 0) || y % 400 == 0
}

/// Number of days of month `m` (1 to 12) of year `y`.
pub open spec fn month_length(y: int, m: int) -> int {
    if m == 2 {
        if is_leap_year(y) { 29 } else { 28 }
    } else if m == 4 || m == 6 || m == 9 || m == 11 {
        30
    } else {
        31
    }
}

impl CivilDate {
    /// The month exists and the day exists in that month.
    pub open spec fn is_valid(self) -> bool {
        1 <= self.month <= 12 && 1 <= self.day <= month_length(self.year as int, self.month as int)
    }

    /// Chronological order: `self` is on or before `other`.
    pub open spec fn on_or_before(self, other: CivilDate) -> bool {
        self.year < other.year || (self.year == other.year && (self.month < other.month || (
        self.month == other.month && self.day <= other.day)))
    }

    /// The day after `self`.
    pub open spec fn successor(self) -> CivilDate {
        if (self.day as int) < month_length(self.year as int, self.month as int) {
            CivilDate { year: self.year, month: self.month, day: (self.day + 1) as u32 }
        } else if self.month < 12 {
            CivilDate { year: self.year, month: (self.month + 1) as u32, day: 1 }
        } else {
            CivilDate { year: (self.year + 1) as i32, month: 1, day: 1 }
        }
    }

    /// Whether `self` is on or before `other`.
    pub fn is_on_or_before(&self, other: &CivilDate) -> (r: bool)
        ensures
            r == self.on_or_before(*other),
    {
        self.year < other.year || (self.year == other.year && (self.month < other.month || (
        self.month == other.month && self.day <= other.day)))
    }

    /// The next calendar day; December 31 rolls into January 1 of the next year.
    pub fn next_day(&self) -> (r: CivilDate)
        requires
            self.is_valid(),
            self.year < i32::MAX,
        ensures
            r == self.successor(),
            r.is_valid(),
    {
        if self.day < days_in_month(self.year, self.month) {
            CivilDate { year: self.year, month: self.month, day: self.day + 1 }
        } else if self.month < 12 {
            CivilDate { year: self.year, month: self.month + 1, day: 1 }
        } else {
            CivilDate { year: self.year + 1, month: 1, day: 1 }
        }
    }
}

/// Whether `year` is a leap year of the Gregorian calendar.
pub fn is_leap(year: i32) -> (r: bool)
    ensures
        r == is_leap_year(year as int),
{
    // Shift by a multiple of 400 so that the remainders are taken of a
    // non-negative number; divisibility by 4, 100 and 400 is unchanged.
    let n: i64 = year as i64 + 2_147_484_000;
    (n % 4 == 0 && n % 100 != 0) || n % 400 == 0
}

/// Number of days of `month` in `year`.
pub fn days_in_month(year: i32, month: u32) -> (r: u32)
    requires
        1 <= month <= 12,
    ensures
        r == month_length(year as int, month as int),
        28 <= r <= 31,
{
    if month == 2 {
        if is_leap(year) {
            29
        } else {
            28
        }
    } else if month == 4 || month == 6 || month == 9 || month == 11 {
        30
    } else {
        31
    }
}

/// Year, month and day of the date that the text `s` spells as
/// `YYYY-MM-DD`, if it spells one.
pub uninterp spec fn parsed_iso_date(s: Seq<char>) -> Option<(i32, u32, u32)>;

/// The date of a year / month / day triple.
pub open spec fn date_of_parts(p: Option<(i32, u32, u32)>) -> Option<CivilDate> {
    match p {
        Some((y, m, d)) => Some(CivilDate { year: y, month: m, day: d }),
        None => None,
    }
}

/// Relies on chrono::NaiveDate::parse_from_str with the pattern "%Y-%m-%d":
/// its result depends on the text alone, and a date that it returns is a real
/// calendar date within chrono's year range.
#[verifier::external_body]
pub(crate) fn parse_iso_date(s: &str) -> (r: Option<CivilDate>)
    ensures
        r == date_of_parts(parsed_iso_date(s@)),
        r matches Some(d) ==> d.is_valid() && MIN_PARSED_YEAR <= d.year <= MAX_PARSED_YEAR,
{
    match chrono::NaiveDate::parse_from_str(s, "%Y-%m-%d") {
        Ok(d) => Some(CivilDate { year: d.year(), month: d.month(), day: d.day() }),
        Err(_) => None,
    }
}

/// A valid date, on or before a valid `b`, whose successor lies after `b`, is `b`.
pub proof fn lemma_last_before_successor(a: CivilDate, b: CivilDate)
    requires
        a.is_valid(),
        b.is_valid(),
        a.on_or_before(b),
        !a.successor().on_or_before(b),
        a.year < i32::MAX,
    ensures
        a == b,
{
}

/// The successor of a valid date is valid.
pub proof fn lemma_successor_valid(a: CivilDate)
    requires
        a.is_valid(),
        a.year < i32::MAX,
    ensures
        a.successor().is_valid(),
{
}

/// The successor of a valid date comes strictly after it.
pub proof fn lemma_successor_after(a: CivilDate)
    requires
        a.is_valid(),
        a.year < i32::MAX,
    ensures
        a.on_or_before(a.successor()),
        !a.successor().on_or_before(a),
{
}

} // verus!
