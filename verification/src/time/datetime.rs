//! A date together with a time of day, in UTC.

use crate::bounds::GreaterThanEqualToValueError;
use crate::time::gregorian::{days_before_month, days_in_month, Date};
use crate::time::Time;
use vstd::prelude::*;

verus! {

/// A way of writing values of type `T` as text.
pub trait Format<T> {
    /// The text that this format writes for `value`.
    spec fn formatted(&self, value: T) -> Seq<char>;

    /// Writes `value` as text.
    fn format(&self, value: &T) -> (text: String)
        ensures
            text@ == self.formatted(*value),
    ;
}

/// A Gregorian date and a time of day in UTC.
#[derive(Clone, Copy, Debug, PartialEq, Eq, Structural)]
pub struct UTCDateTime {
    pub(crate) date: Date,
    pub(crate) time: Time,
}

impl UTCDateTime {
    /// The date.
    pub closed spec fn date(&self) -> Date {
        self.date
    }

    /// The time of day.
    pub closed spec fn time(&self) -> Time {
        self.time
    }

    /// The given time of day on the given date.
    pub fn new(date: Date, time: Time) -> (r: UTCDateTime)
        ensures
            r.date() == date,
            r.time() == time,
    {
        UTCDateTime { date, time }
    }

    /// The date and time of the given calendar and clock values. The first
    /// value that lies beyond its range is refused: the month, the day of
    /// the month, the hour, the minute, the second, in this order.
    pub fn try_from_values(year: i32, month: u8, day: u8, hour: u8, minute: u8, seconds: u8) -> (r:
        Result<UTCDateTime, GreaterThanEqualToValueError<u8>>)
        ensures
            r == (if month < 1 || month > 12 {
                Err::<UTCDateTime, GreaterThanEqualToValueError<u8>>(
                    GreaterThanEqualToValueError { value: month, valid_upper_bound: 13 },
                )
            } else if day < 1 || day > days_in_month(year as int, month as int) {
                Err::<UTCDateTime, GreaterThanEqualToValueError<u8>>(
                    GreaterThanEqualToValueError {
                        value: day,
                        valid_upper_bound: (days_in_month(year as int, month as int) + 1) as u8,
                    },
                )
            } else if hour >= 24 {
                Err::<UTCDateTime, GreaterThanEqualToValueError<u8>>(
                    GreaterThanEqualToValueError { value: hour, valid_upper_bound: 24 },
                )
            } else if minute >= 60 {
                Err::<UTCDateTime, GreaterThanEqualToValueError<u8>>(
                    GreaterThanEqualToValueError { value: minute, valid_upper_bound: 60 },
                )
            } else if seconds >= 60 {
                Err::<UTCDateTime, GreaterThanEqualToValueError<u8>>(
                    GreaterThanEqualToValueError { value: seconds, valid_upper_bound: 60 },
                )
            } else {
                r
            }),
            1 <= month <= 12 && 1 <= day <= days_in_month(year as int, month as int) && hour < 24
                && minute < 60 && seconds < 60 ==> r is Ok && r->Ok_0.date() == (Date {
                year,
                day_of_year: (days_before_month(year as int, month as int) + day - 1) as u16,
            }) && r->Ok_0.time()@ == hour * 3600 + minute * 60 + seconds,
    {
        let date = Date::try_from_values(year, month, day)?;
        let time = Time::from_hms(hour, minute, seconds)?;
        Ok(UTCDateTime::new(date, time))
    }

    /// The date.
    pub fn get_date(&self) -> (date: Date)
        ensures
            date == self.date(),
    {
        self.date
    }

    /// The time of day.
    pub fn get_time(&self) -> (time: Time)
        ensures
            time == self.time(),
    {
        self.time
    }

    /// This date and time as the given format writes it.
    pub fn format<T: Format<UTCDateTime>>(&self, format: &T) -> (text: String)
        ensures
            text@ == format.formatted(*self),
    {
        format.format(self)
    }
}

} // verus!
