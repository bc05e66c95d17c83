//! Dates of the proleptic Gregorian calendar, held as a year and a day
//! within the year.

use crate::bounds::GreaterThanEqualToValueError;
use vstd::prelude::*;

verus! {

/// The year in which the Unix epoch lies, on its first day.
pub const UNIX_EPOCH_YEAR: i32 = 1970;

/// True for the years that have a 29th of February.
pub open spec fn leap_year(year: int) -> bool {
    (year % 4 == 0 && year % 100 != 0) || year % 400 == 0
}

/// Number of days of the given year.
pub open spec fn days_in_year(year: int) -> int {
    if leap_year(year) {
        366
    } else {
        365
    }
}

/// Number of days of month `month`, 1 for January, of the given year.
pub open spec fn days_in_month(year: int, month: int) -> int {
    if month == 2 {
        if leap_year(year) {
            29
        } else {
            28
        }
    } else if month == 4 || month == 6 || month == 9 || month == 11 {
        30
    } else {
        31
    }
}

/// Number of days of the given year that lie before the first of month
/// `month`.
pub open spec fn days_before_month(year: int, month: int) -> int
    decreases month,
{
    if month <= 1 {
        0
    } else {
        days_before_month(year, month - 1) + days_in_month(year, month - 1)
    }
}

/// Number of leap days in the years from 1 up to, and without, the given
/// year; for a year before 1, the negative of the number from that year up
/// to, and without, the year 1.
pub open spec fn leap_days_before(year: int) -> int {
    (year - 1) / 4 - (year - 1) / 100 + (year - 1) / 400
}

/// Number of days from the first of January 1970 to the first of January
/// of the given year; negative for the years before 1970.
pub open spec fn year_start(year: int) -> int {
    365 * (year - UNIX_EPOCH_YEAR) + leap_days_before(year) - leap_days_before(
        UNIX_EPOCH_YEAR as int,
    )
}

/// The number of multiples of four up to a year grows by one at each
/// multiple of four, and at no other year.
proof fn lemma_fourth_years(y: int)
    ensures
        y / 4 - (y - 1) / 4 == (if y % 4 == 0 {
            1int
        } else {
            0int
        }),
{
}

/// The number of multiples of a hundred up to a year grows by one at each
/// multiple of a hundred, and at no other year.
proof fn lemma_hundredth_years(y: int)
    ensures
        y / 100 - (y - 1) / 100 == (if y % 100 == 0 {
            1int
        } else {
            0int
        }),
        y % 100 == 0 ==> y % 4 == 0,
{
}

/// The number of multiples of four hundred up to a year grows by one at
/// each multiple of four hundred, and at no other year.
proof fn lemma_four_hundredth_years(y: int)
    ensures
        y / 400 - (y - 1) / 400 == (if y % 400 == 0 {
            1int
        } else {
            0int
        }),
        y % 400 == 0 ==> y % 100 == 0,
{
}

/// A year begins as many days after the year before it as that year has.
pub proof fn lemma_year_start_step(year: int)
    ensures
        year_start(year + 1) == year_start(year) + days_in_year(year),
        year_start(UNIX_EPOCH_YEAR as int) == 0,
{
    lemma_fourth_years(year);
    lemma_hundredth_years(year);
    lemma_four_hundredth_years(year);
    let fourth = year / 4 - (year - 1) / 4;
    let hundredth = year / 100 - (year - 1) / 100;
    let four_hundredth = year / 400 - (year - 1) / 400;
    assert(leap_days_before(year + 1) - leap_days_before(year) == fourth - hundredth
        + four_hundredth);
    assert(fourth - hundredth + four_hundredth == days_in_year(year) - 365);
}

/// A date: a year and the number of days since the first of January of that
/// year.
#[derive(Clone, Copy, Debug, PartialEq, Eq, Structural)]
pub struct Date {
    /// The year; years before 1 are counted astronomically, 0 before 1.
    pub year: i32,
    /// Days since the first of January: 0 for the first of January.
    pub day_of_year: u16,
}

/// Years in a whole number of 400-year cycles, more than any 32-bit year
/// lies before the year 0.
pub const CYCLE_SHIFT: i64 = 2_147_484_000;

/// Adding whole 400-year cycles to a year changes none of its remainders
/// by 4, 100 and 400, and each of its quotients by a fixed amount.
proof fn lemma_cycle_shift(y: int)
    ensures
        (y + CYCLE_SHIFT) % 4 == y % 4,
        (y + CYCLE_SHIFT) % 100 == y % 100,
        (y + CYCLE_SHIFT) % 400 == y % 400,
        (y + CYCLE_SHIFT) / 4 == y / 4 + 536_871_000,
        (y + CYCLE_SHIFT) / 100 == y / 100 + 21_474_840,
        (y + CYCLE_SHIFT) / 400 == y / 400 + 5_368_710,
{
}

/// True for the years that have a 29th of February.
pub fn is_leap_year(year: i32) -> (leap: bool)
    ensures
        leap == leap_year(year as int),
{
    // The calendar repeats every 400 years: a whole number of such cycles
    // makes the year positive without changing what it is.
    let shifted: u64 = (year as i64 + CYCLE_SHIFT) as u64;
    proof {
        lemma_cycle_shift(year as int);
    }
    (shifted % 4 == 0 && shifted % 100 != 0) || shifted % 400 == 0
}

/// Number of days of month `month`, 1 for January, of the given year.
fn month_length(year: i32, month: u8) -> (days: u8)
    requires
        1 <= month <= 12,
    ensures
        days == days_in_month(year as int, month as int),
{
    if month == 2 {
        if is_leap_year(year) {
            29
        } else {
            28
        }
    } else if month == 4 || month == 6 || month == 9 || month == 11 {
        30
    } else {
        31
    }
}

/// Number of days of the given year before the first of month `month`.
fn month_start(year: i32, month: u8) -> (days: u16)
    requires
        1 <= month <= 12,
    ensures
        days == days_before_month(year as int, month as int),
        days <= 335,
{
    let mut days: u16 = 0;
    let mut m: u8 = 1;
    while m < month
        invariant
            1 <= m <= month <= 12,
            days == days_before_month(year as int, m as int),
            days <= 31 * (m - 1),
        decreases month - m,
    {
        days = days + month_length(year, m) as u16;
        m = m + 1;
    }
    proof {
        lemma_year_length(year as int);
    }
    days
}

/// The twelve months of a year hold all its days.
pub proof fn lemma_year_length(year: int)
    ensures
        days_before_month(year, 13) == days_in_year(year),
        forall|m: int| 1 <= m <= 12 ==> #[trigger] days_before_month(year, m) + days_in_month(year, m)
            <= days_in_year(year),
{
    reveal_with_fuel(days_before_month, 14);
}

impl Date {
    /// True where the day lies within the year.
    pub open spec fn valid(&self) -> bool {
        self.day_of_year < days_in_year(self.year as int)
    }

    /// The date of the given year and day within it; a day beyond the year's
    /// last is refused with the number of days of the year.
    pub fn new(year: i32, day_of_year: u16) -> (r: Result<Date, GreaterThanEqualToValueError<u16>>)
        ensures
            r == (if day_of_year < days_in_year(year as int) {
                Ok::<Date, GreaterThanEqualToValueError<u16>>(Date { year, day_of_year })
            } else {
                Err::<Date, GreaterThanEqualToValueError<u16>>(
                    GreaterThanEqualToValueError {
                        value: day_of_year,
                        valid_upper_bound: days_in_year(year as int) as u16,
                    },
                )
            }),
    {
        let days: u16 = if is_leap_year(year) {
            366
        } else {
            365
        };
        if day_of_year >= days {
            return Err(GreaterThanEqualToValueError { value: day_of_year, valid_upper_bound: days });
        }
        Ok(Date { year, day_of_year })
    }

    /// The date of the given year, month and day of the month, both counted
    /// from 1. A month that is none of the twelve is refused with the bound
    /// 13, a day that the month does not have with the first day number that
    /// it does not have.
    pub fn try_from_values(year: i32, month: u8, day: u8) -> (r: Result<
        Date,
        GreaterThanEqualToValueError<u8>,
    >)
        ensures
            r == (if month < 1 || month > 12 {
                Err::<Date, GreaterThanEqualToValueError<u8>>(
                    GreaterThanEqualToValueError { value: month, valid_upper_bound: 13 },
                )
            } else if day < 1 || day > days_in_month(year as int, month as int) {
                Err::<Date, GreaterThanEqualToValueError<u8>>(
                    GreaterThanEqualToValueError {
                        value: day,
                        valid_upper_bound: (days_in_month(year as int, month as int) + 1) as u8,
                    },
                )
            } else {
                Ok::<Date, GreaterThanEqualToValueError<u8>>(
                    Date {
                        year,
                        day_of_year: (days_before_month(year as int, month as int) + day - 1) as u16,
                    },
                )
            }),
            r is Ok ==> r->Ok_0.valid(),
    {
        if month < 1 || month > 12 {
            return Err(GreaterThanEqualToValueError { value: month, valid_upper_bound: 13 });
        }
        let length = month_length(year, month);
        if day < 1 || day > length {
            return Err(GreaterThanEqualToValueError { value: day, valid_upper_bound: length + 1 });
        }
        let start = month_start(year, month);
        proof {
            lemma_year_length(year as int);
        }
        Ok(Date { year, day_of_year: start + day as u16 - 1 })
    }

    /// The date that lies `day` days after the first of January 1970.
    pub fn from_unix_day(day: u32) -> (date: Date)
        ensures
            date.valid(),
            date.year >= UNIX_EPOCH_YEAR,
            year_start(date.year as int) + date.day_of_year == day,
    {
        let mut year: i32 = UNIX_EPOCH_YEAR;
        let mut rest: u32 = day;
        proof {
            lemma_year_start_step(year as int);
        }
        loop
            invariant
                UNIX_EPOCH_YEAR <= year,
                rest <= day,
                year_start(year as int) + rest == day,
                (year - UNIX_EPOCH_YEAR) * 365 <= day - rest,
            decreases rest,
        {
            let length: u32 = if is_leap_year(year) {
                366
            } else {
                365
            };
            if rest < length {
                return Date { year, day_of_year: rest as u16 };
            }
            proof {
                lemma_year_start_step(year as int);
            }
            rest = rest - length;
            year = year + 1;
        }
    }

    /// Number of days from the first of January 1970 to this date; negative
    /// for a date before it.
    pub fn unix_day(&self) -> (day: i64)
        ensures
            day == year_start(self.year as int) + self.day_of_year,
    {
        // A whole number of 400-year cycles makes the year before this one
        // positive, so that the divisions round down.
        let shifted: i64 = self.year as i64 - 1 + CYCLE_SHIFT;
        proof {
            lemma_cycle_shift(self.year as int - 1);
            assert(leap_days_before(UNIX_EPOCH_YEAR as int) == 477);
        }
        let leaps: i64 = (shifted / 4 - 536_871_000) - (shifted / 100 - 21_474_840) + (shifted / 400
            - 5_368_710);
        assert(leaps == leap_days_before(self.year as int));
        365 * (self.year as i64 - UNIX_EPOCH_YEAR as i64) + leaps - 477 + self.day_of_year as i64
    }

    /// The year.
    pub fn year(&self) -> (year: i32)
        ensures
            year == self.year,
    {
        self.year
    }

    /// Days since the first of January.
    pub fn day_of_year(&self) -> (day: u16)
        ensures
            day == self.day_of_year,
    {
        self.day_of_year
    }
}

} // verus!
