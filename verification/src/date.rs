//! Calendar dates.
//!
//! A series key such as `"2023-04-28"` parses into a [`Date`]: exactly four
//! year digits, two month digits and two day digits, separated by hyphens,
//! naming a real day of the proleptic Gregorian calendar in years 1 through
//! 9999.  A date can be promoted to a timestamp: the number of seconds
//! between 1970-01-01 00:00:00 UTC and the date's midnight UTC.

use vstd::prelude::*;
use crate::decimal::fold_digits;
use crate::json::is_digit;

verus! {

/// A calendar date.
#[derive(Clone, Copy, Debug, PartialEq, Eq, Structural)]
pub struct Date {
    pub year: u32,
    pub month: u8,
    pub day: u8,
}

/// Whether `y` is a leap year of the Gregorian calendar.
pub open spec fn is_leap_year(y: int) -> bool {
    y % 4 == 0 && (y % 100 != 0 || y % 400 == 0)
}

/// The number of days in month `m` of year `y`.
pub open spec fn days_in_month(y: int, m: int) -> int {
    if m == 2 {
        if is_leap_year(y) {
            29
        } else {
            28
        }
    } else if m == 4 || m == 6 || m == 9 || m == 11 {
        30
    } else {
        31
    }
}

impl Date {
    /// Whether this is a real day of the calendar, in years 1 through 9999.
    pub open spec fn valid(self) -> bool {
        &&& 1 <= self.year <= 9999
        &&& 1 <= self.month <= 12
        &&& 1 <= self.day <= days_in_month(self.year as int, self.month as int)
    }

    /// The number of days from 1970-01-01 to this date (negative before).
    pub open spec fn spec_epoch_days(self) -> int {
        let y: int = if self.month <= 2 {
            self.year - 1
        } else {
            self.year as int
        };
        let era: int = y / 400;
        let yoe: int = y % 400;
        let mp: int = if self.month > 2 {
            self.month - 3
        } else {
            self.month + 9
        };
        let doy: int = (153 * mp + 2) / 5 + self.day - 1;
        let doe: int = yoe * 365 + yoe / 4 - yoe / 100 + doy;
        era * 146097 + doe - 719468
    }

    /// Whether this is a real day of the calendar, in years 1 through 9999.
    pub fn is_valid(&self) -> (r: bool)
        ensures
            r == self.valid(),
    {
        if !(1 <= self.year && self.year <= 9999 && 1 <= self.month && self.month <= 12 && self.day
            >= 1) {
            return false;
        }
        let dim: u8 = if self.month == 2 {
            if self.year % 4 == 0 && (self.year % 100 != 0 || self.year % 400 == 0) {
                29
            } else {
                28
            }
        } else if self.month == 4 || self.month == 6 || self.month == 9 || self.month == 11 {
            30
        } else {
            31
        };
        self.day <= dim
    }

    /// The number of days from 1970-01-01 to this date.
    pub fn epoch_days(&self) -> (r: i64)
        requires
            self.valid(),
        ensures
            r as int == self.spec_epoch_days(),
    {
        let y: i64 = if self.month <= 2 {
            self.year as i64 - 1
        } else {
            self.year as i64
        };
        let era: i64 = y / 400;
        let yoe: i64 = y % 400;
        let mp: i64 = if self.month > 2 {
            self.month as i64 - 3
        } else {
            self.month as i64 + 9
        };
        let doy: i64 = (153 * mp + 2) / 5 + self.day as i64 - 1;
        let doe: i64 = yoe * 365 + yoe / 4 - yoe / 100 + doy;
        era * 146097 + doe - 719468
    }

    /// The timestamp of this date's midnight UTC, in seconds since
    /// 1970-01-01 00:00:00 UTC.
    pub fn epoch_seconds(&self) -> (r: i64)
        requires
            self.valid(),
        ensures
            r as int == 86400 * self.spec_epoch_days(),
    {
        86400 * self.epoch_days()
    }
}

/// The date denoted by a `YYYY-MM-DD` byte string, if it is one.
pub open spec fn spec_date(b: Seq<u8>) -> Option<Date> {
    if b.len() == 10 && is_digit(b[0]) && is_digit(b[1]) && is_digit(b[2]) && is_digit(b[3]) && b[4]
        == 0x2d && is_digit(b[5]) && is_digit(b[6]) && b[7] == 0x2d && is_digit(b[8]) && is_digit(
        b[9],
    ) {
        let d = Date {
            year: fold_digits(0, b.subrange(0, 4)) as u32,
            month: fold_digits(0, b.subrange(5, 7)) as u8,
            day: fold_digits(0, b.subrange(8, 10)) as u8,
        };
        if d.valid() {
            Some(d)
        } else {
            None
        }
    } else {
        None
    }
}

/// Establishes the value of a fold over a two-digit subrange.
proof fn lemma_fold_two(b: Seq<u8>, i: int)
    requires
        0 <= i,
        i + 2 <= b.len(),
        is_digit(b[i]),
        is_digit(b[i + 1]),
    ensures
        fold_digits(0, b.subrange(i, i + 2)) == (b[i] - 0x30) * 10 + (b[i + 1] - 0x30),
{
    reveal_with_fuel(fold_digits, 3);
    let s = b.subrange(i, i + 2);
    assert(s.drop_first() =~= b.subrange(i + 1, i + 2));
    assert(s.drop_first().drop_first() =~= Seq::<u8>::empty());
}

/// Establishes the value of a fold over a four-digit subrange.
proof fn lemma_fold_four(b: Seq<u8>, i: int)
    requires
        0 <= i,
        i + 4 <= b.len(),
        is_digit(b[i]),
        is_digit(b[i + 1]),
        is_digit(b[i + 2]),
        is_digit(b[i + 3]),
    ensures
        fold_digits(0, b.subrange(i, i + 4)) == ((b[i] - 0x30) * 1000 + (b[i + 1] - 0x30) * 100 + (
        b[i + 2] - 0x30) * 10 + (b[i + 3] - 0x30)),
{
    reveal_with_fuel(fold_digits, 5);
    let s = b.subrange(i, i + 4);
    assert(s.drop_first() =~= b.subrange(i + 1, i + 4));
    assert(s.drop_first().drop_first() =~= b.subrange(i + 2, i + 4));
    assert(s.drop_first().drop_first().drop_first() =~= b.subrange(i + 3, i + 4));
    assert(s.drop_first().drop_first().drop_first().drop_first() =~= Seq::<u8>::empty());
}

/// Parses a `YYYY-MM-DD` byte string.  Succeeds exactly when the bytes name
/// a valid calendar date; then the result is that date.
pub fn parse_date(b: &[u8]) -> (r: Option<Date>)
    ensures
        r == spec_date(b@),
{
    if b.len() != 10 {
        return None;
    }
    let ok = is_digit_exec(b[0]) && is_digit_exec(b[1]) && is_digit_exec(b[2]) && is_digit_exec(
        b[3],
    ) && b[4] == 0x2d && is_digit_exec(b[5]) && is_digit_exec(b[6]) && b[7] == 0x2d && is_digit_exec(
        b[8],
    ) && is_digit_exec(b[9]);
    if !ok {
        return None;
    }
    let year: u32 = (b[0] - 0x30) as u32 * 1000 + (b[1] - 0x30) as u32 * 100 + (b[2] - 0x30) as u32
        * 10 + (b[3] - 0x30) as u32;
    let month: u8 = (b[5] - 0x30) * 10 + (b[6] - 0x30);
    let day: u8 = (b[8] - 0x30) * 10 + (b[9] - 0x30);
    proof {
        lemma_fold_four(b@, 0);
        lemma_fold_two(b@, 5);
        lemma_fold_two(b@, 8);
    }
    let d = Date { year, month, day };
    if d.is_valid() {
        Some(d)
    } else {
        None
    }
}

fn is_digit_exec(b: u8) -> (r: bool)
    ensures
        r == is_digit(b),
{
    0x30 <= b && b <= 0x39
}

} // verus!
