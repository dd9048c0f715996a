//! Calendar arithmetic for the filter compiler.
//!
//! Date literals in a filter expression are resolved to UTC epoch-second
//! ranges.  All arithmetic is done on the proleptic Gregorian calendar at
//! second resolution; no time zones, leap seconds or DST adjustments are
//! involved.

use vstd::prelude::*;

verus! {

/// Years divisible by 4 are leap years, except century years not divisible
/// by 400.
pub open spec fn is_leap_year(y: int) -> bool {
    y % 4 == 0 && (y % 100 != 0 || y % 400 == 0)
}

pub open spec fn days_in_year(y: int) -> int {
    if is_leap_year(y) {
        366
    } else {
        365
    }
}

/// Number of days in month `m` (1 through 12) of year `y`.
pub open spec fn days_in_month(y: int, m: int) -> int {
    if m == 2 {
        if is_leap_year(y) {
            29
        } else {
            28
        }
    } else if m == 4 || m == 6 || m == 9 || m == 11 {
        30
    } else {
        31
    }
}

/// Total days in years 0, 1, ..., y-1.
pub open spec fn days_before_year(y: int) -> int
    decreases y,
{
    if y <= 0 {
        0
    } else {
        days_before_year(y - 1) + days_in_year(y - 1)
    }
}

/// Total days in months 1, ..., m-1 of year `y`.
pub open spec fn days_before_month(y: int, m: int) -> int
    decreases m,
{
    if m <= 1 {
        0
    } else {
        days_before_month(y, m - 1) + days_in_month(y, m - 1)
    }
}

/// Day count of y-m-d relative to 1970-01-01 (negative before the epoch).
pub open spec fn days_from_epoch(y: int, m: int, d: int) -> int {
    days_before_year(y) - days_before_year(1970) + days_before_month(y, m) + (d - 1)
}

/// UTC epoch seconds of the instant y-m-d h:mi:s.
pub open spec fn epoch_of(y: int, m: int, d: int, h: int, mi: int, s: int) -> int {
    days_from_epoch(y, m, d) * 86400 + h * 3600 + mi * 60 + s
}

/// The dates expressible by a four-digit-year literal.
pub open spec fn valid_date(y: int, m: int, d: int) -> bool {
    0 <= y <= 9999 && 1 <= m <= 12 && 1 <= d <= days_in_month(y, m)
}

pub proof fn lemma_days_before_year_bounds(y: int)
    requires
        0 <= y,
    ensures
        365 * y <= days_before_year(y) <= 366 * y,
    decreases y,
{
    if y > 0 {
        lemma_days_before_year_bounds(y - 1);
    }
}

pub proof fn lemma_days_before_month_bounds(y: int, m: int)
    requires
        1 <= m <= 13,
    ensures
        0 <= days_before_month(y, m) <= 31 * (m - 1),
    decreases m,
{
    if m > 1 {
        lemma_days_before_month_bounds(y, m - 1);
    }
}

fn is_leap_year_exec(y: u32) -> (r: bool)
    ensures
        r == is_leap_year(y as int),
{
    y % 4 == 0 && (y % 100 != 0 || y % 400 == 0)
}

/// Sum of the lengths of years 0 through y-1, by a straight scan.
fn days_before_year_exec(y: u32) -> (r: u32)
    requires
        y <= 10000,
    ensures
        r == days_before_year(y as int),
{
    let mut i: u32 = 0;
    let mut acc: u32 = 0;
    while i < y
        invariant
            i <= y <= 10000,
            acc == days_before_year(i as int),
            acc <= 366 * i,
        decreases y - i,
    {
        if is_leap_year_exec(i) {
            acc = acc + 366;
        } else {
            acc = acc + 365;
        }
        i = i + 1;
    }
    acc
}

fn days_in_month_exec(y: u32, m: u32) -> (r: u32)
    ensures
        r == days_in_month(y as int, m as int),
{
    if m == 2 {
        if is_leap_year_exec(y) {
            29
        } else {
            28
        }
    } else if m == 4 || m == 6 || m == 9 || m == 11 {
        30
    } else {
        31
    }
}

/// Sum of the lengths of months 1 through m-1 of year y.
fn days_before_month_exec(y: u32, m: u32) -> (r: u32)
    requires
        1 <= m <= 12,
    ensures
        r == days_before_month(y as int, m as int),
{
    let mut i: u32 = 1;
    let mut acc: u32 = 0;
    while i < m
        invariant
            1 <= i <= m <= 12,
            acc == days_before_month(y as int, i as int),
            acc <= 31 * i,
        decreases m - i,
    {
        acc = acc + days_in_month_exec(y, i);
        i = i + 1;
    }
    acc
}

/// UTC epoch seconds of y-m-d h:mi:s.
pub fn epoch_of_date(y: u32, m: u32, d: u32, h: u32, mi: u32, s: u32) -> (r: i64)
    requires
        valid_date(y as int, m as int, d as int),
        h < 24,
        mi < 60,
        s < 60,
    ensures
        r == epoch_of(y as int, m as int, d as int, h as int, mi as int, s as int),
{
    proof {
        lemma_days_before_year_bounds(y as int);
        lemma_days_before_year_bounds(1970);
        lemma_days_before_month_bounds(y as int, m as int);
    }
    let by = days_before_year_exec(y);
    let b1970 = days_before_year_exec(1970);
    let bm = days_before_month_exec(y, m);
    let days: i64 = by as i64 - b1970 as i64 + bm as i64 + (d as i64 - 1);
    days * 86400 + (h as i64) * 3600 + (mi as i64) * 60 + s as i64
}

/// A date literal from a filter expression, at one of three granularities.
#[derive(Clone, Copy, Debug, PartialEq, Eq, Structural)]
pub enum DateLiteral {
    Year { y: u32 },
    YearMonth { y: u32, m: u32 },
    YearMonthDay { y: u32, m: u32, d: u32 },
}

/// The field ranges a literal read from digit pairs can have: at most
/// four digits of year and two of month and day.  Unlike [`lit_valid`]
/// this does not ask that the fields name a real date.
pub open spec fn lit_year_bounded(lit: DateLiteral) -> bool {
    match lit {
        DateLiteral::Year { y } => y < 10000,
        DateLiteral::YearMonth { y, m } => y < 10000 && m < 100,
        DateLiteral::YearMonthDay { y, m, d } => y < 10000 && m < 100 && d < 100,
    }
}

/// Whether the literal denotes a real calendar date (or month, or year).
pub open spec fn lit_valid(lit: DateLiteral) -> bool {
    match lit {
        DateLiteral::Year { y } => y <= 9999,
        DateLiteral::YearMonth { y, m } => y <= 9999 && 1 <= m <= 12,
        DateLiteral::YearMonthDay { y, m, d } => valid_date(y as int, m as int, d as int),
    }
}

/// First instant of the span a literal covers, in epoch seconds.
pub open spec fn range_start_of(lit: DateLiteral) -> int {
    match lit {
        DateLiteral::Year { y } => epoch_of(y as int, 1, 1, 0, 0, 0),
        DateLiteral::YearMonth { y, m } => epoch_of(y as int, m as int, 1, 0, 0, 0),
        DateLiteral::YearMonthDay { y, m, d } => epoch_of(y as int, m as int, d as int, 0, 0, 0),
    }
}

/// Last instant of the span a literal covers, in epoch seconds.
pub open spec fn range_end_of(lit: DateLiteral) -> int {
    match lit {
        DateLiteral::Year { y } => epoch_of(y as int, 12, 31, 23, 59, 59),
        DateLiteral::YearMonth { y, m } => epoch_of(
            y as int,
            m as int,
            days_in_month(y as int, m as int),
            23,
            59,
            59,
        ),
        DateLiteral::YearMonthDay { y, m, d } => epoch_of(
            y as int,
            m as int,
            d as int,
            23,
            59,
            59,
        ),
    }
}

/// What a valid literal resolves to is a real range: its first instant
/// does not come after its last.
pub proof fn lemma_date_range_ordered(lit: DateLiteral)
    requires
        lit_valid(lit),
    ensures
        range_start_of(lit) <= range_end_of(lit),
{
    match lit {
        DateLiteral::Year { y } => {
            lemma_days_before_month_bounds(y as int, 12);
        },
        DateLiteral::YearMonth { y, m } => {},
        DateLiteral::YearMonthDay { y, m, d } => {},
    }
}

/// The inclusive UTC instant range `[start, end]` a date literal covers,
/// in epoch seconds.
pub struct DateRange {
    pub start: i64,
    pub end: i64,
}

impl DateRange {
    /// Resolve a date literal to its instant range; `None` when the literal
    /// does not denote a real calendar date.
    pub fn try_from(lit: &DateLiteral) -> (r: Option<DateRange>)
        ensures
            r is Some <==> lit_valid(*lit),
            r matches Some(dr) ==> dr.start == range_start_of(*lit) && dr.end == range_end_of(
                *lit,
            ),
    {
        match *lit {
            DateLiteral::Year { y } => {
                if y <= 9999 {
                    Some(
                        DateRange {
                            start: epoch_of_date(y, 1, 1, 0, 0, 0),
                            end: epoch_of_date(y, 12, 31, 23, 59, 59),
                        },
                    )
                } else {
                    None
                }
            },
            DateLiteral::YearMonth { y, m } => {
                if y <= 9999 && 1 <= m && m <= 12 {
                    let last = days_in_month_exec(y, m);
                    Some(
                        DateRange {
                            start: epoch_of_date(y, m, 1, 0, 0, 0),
                            end: epoch_of_date(y, m, last, 23, 59, 59),
                        },
                    )
                } else {
                    None
                }
            },
            DateLiteral::YearMonthDay { y, m, d } => {
                if y <= 9999 && 1 <= m && m <= 12 && 1 <= d && d <= days_in_month_exec(y, m) {
                    Some(
                        DateRange {
                            start: epoch_of_date(y, m, d, 0, 0, 0),
                            end: epoch_of_date(y, m, d, 23, 59, 59),
                        },
                    )
                } else {
                    None
                }
            },
        }
    }
}

} // verus!
