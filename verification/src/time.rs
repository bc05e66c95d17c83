//! Times of day, fixed-precision timestamps, dates and epochs.

pub mod datetime;
pub mod format;
pub mod gregorian;
pub mod julian;

use crate::bounds::GreaterThanEqualToValueError;
use crate::time::gregorian::Date;
use vstd::prelude::*;

verus! {

/// Hours in a day.
pub const HOURS_IN_DAY: u32 = 24;

/// Minutes in an hour.
pub const MINUTES_IN_HOUR: u32 = 60;

/// Seconds in a minute.
pub const SECONDS_IN_MINUTE: u32 = 60;

/// Minutes in a day.
pub const MINUTES_IN_DAY: u32 = 1440;

/// Seconds in an hour.
pub const SECONDS_IN_HOUR: u32 = 3600;

/// Seconds in a day, but for a day that ends in a leap second.
pub const SECONDS_IN_DAY: u32 = 86400;

/// Microseconds in a second.
pub const MICROS_IN_SECOND: u64 = 1_000_000;

/// A reference date from which time is counted.
#[derive(Clone, Copy, Debug, PartialEq, Eq, Structural)]
pub struct Epoch(pub Date);

impl Epoch {
    /// The date of the epoch.
    pub fn get_gregorian_date(&self) -> (date: Date)
        ensures
            date == self.0,
    {
        self.0
    }
}

/// A span of time, in whole microseconds.
#[derive(Clone, Copy, Debug, PartialEq, Eq, Structural)]
pub struct Duration {
    /// Length of the span in microseconds.
    pub micros: u64,
}

/// A time of day: an offset from midnight in whole seconds. The offset of
/// 86400 is that of a leap second at the end of the day.
#[derive(Clone, Copy, Debug, PartialEq, Eq, Structural)]
pub struct Time {
    second_of_day: u32,
}

impl View for Time {
    type V = nat;

    /// Seconds since midnight.
    closed spec fn view(&self) -> nat {
        self.second_of_day as nat
    }
}

impl Time {
    #[verifier::type_invariant]
    spec fn within_day(&self) -> bool {
        self.second_of_day <= SECONDS_IN_DAY
    }

    /// The time `second_of_day` seconds after midnight; an offset beyond the
    /// leap second is refused.
    pub fn new(second_of_day: u32) -> (r: Result<Time, GreaterThanEqualToValueError<u32>>)
        ensures
            second_of_day <= SECONDS_IN_DAY ==> r is Ok && r->Ok_0@ == second_of_day,
            second_of_day > SECONDS_IN_DAY ==> r == Err::<Time, GreaterThanEqualToValueError<u32>>(
                GreaterThanEqualToValueError { value: second_of_day, valid_upper_bound: 86401 },
            ),
    {
        if second_of_day >= 86401 {
            return Err(GreaterThanEqualToValueError { value: second_of_day, valid_upper_bound: 86401 });
        }
        Ok(Time { second_of_day })
    }

    /// The time of the given hour, minute and second. The first of the
    /// three that lies beyond its range is refused with the range's end.
    pub fn from_hms(hours: u8, minutes: u8, seconds: u8) -> (r: Result<
        Time,
        GreaterThanEqualToValueError<u8>,
    >)
        ensures
            r == (if hours >= 24 {
                Err::<Time, GreaterThanEqualToValueError<u8>>(
                    GreaterThanEqualToValueError { value: hours, valid_upper_bound: 24 },
                )
            } else if minutes >= 60 {
                Err::<Time, GreaterThanEqualToValueError<u8>>(
                    GreaterThanEqualToValueError { value: minutes, valid_upper_bound: 60 },
                )
            } else if seconds >= 60 {
                Err::<Time, GreaterThanEqualToValueError<u8>>(
                    GreaterThanEqualToValueError { value: seconds, valid_upper_bound: 60 },
                )
            } else {
                r
            }),
            hours < 24 && minutes < 60 && seconds < 60 ==> r is Ok && r->Ok_0@ == hours * 3600
                + minutes * 60 + seconds,
    {
        if hours >= 24 {
            return Err(GreaterThanEqualToValueError { value: hours, valid_upper_bound: 24 });
        }
        if minutes >= 60 {
            return Err(GreaterThanEqualToValueError { value: minutes, valid_upper_bound: 60 });
        }
        if seconds >= 60 {
            return Err(GreaterThanEqualToValueError { value: seconds, valid_upper_bound: 60 });
        }
        let second_of_day: u32 = hours as u32 * SECONDS_IN_HOUR + minutes as u32 * SECONDS_IN_MINUTE
            + seconds as u32;
        Ok(Time { second_of_day })
    }

    /// Seconds since midnight.
    pub fn as_seconds(&self) -> (seconds: u32)
        ensures
            seconds == self@,
            seconds <= SECONDS_IN_DAY,
    {
        proof {
            use_type_invariant(self);
        }
        self.second_of_day
    }

    /// This time as a span since midnight.
    pub fn as_duration(&self) -> (d: Duration)
        ensures
            d.micros == self@ * MICROS_IN_SECOND,
    {
        proof {
            use_type_invariant(self);
        }
        Duration { micros: self.second_of_day as u64 * MICROS_IN_SECOND }
    }

    /// Whole hours since midnight.
    pub fn as_hours(&self) -> (hours: u32)
        ensures
            hours == self@ / SECONDS_IN_HOUR as nat,
            hours <= HOURS_IN_DAY,
    {
        proof {
            use_type_invariant(self);
        }
        self.second_of_day / SECONDS_IN_HOUR
    }

    /// Whole minutes since midnight.
    pub fn as_minutes(&self) -> (minutes: u32)
        ensures
            minutes == self@ / SECONDS_IN_MINUTE as nat,
            minutes <= MINUTES_IN_DAY,
    {
        proof {
            use_type_invariant(self);
        }
        self.second_of_day / SECONDS_IN_MINUTE
    }

    /// Hours, minutes within the hour and seconds within the minute.
    pub fn as_hms(&self) -> (hms: (u32, u32, u32))
        ensures
            hms.0 * SECONDS_IN_HOUR + hms.1 * SECONDS_IN_MINUTE + hms.2 == self@,
            hms.0 == self@ / SECONDS_IN_HOUR as nat,
            hms.1 < MINUTES_IN_HOUR,
            hms.2 < SECONDS_IN_MINUTE,
    {
        let hours = self.as_hours();
        let minutes = self.as_minutes() - hours * MINUTES_IN_HOUR;
        let seconds = self.as_seconds() - hours * SECONDS_IN_HOUR - minutes * SECONDS_IN_MINUTE;
        (hours, minutes, seconds)
    }
}

/// A timestamp of 16 bits of seconds and 16 bits of fraction of a second,
/// counted from an epoch: the format Q16.16.
#[derive(Clone, Copy, Debug, PartialEq, Eq, Structural)]
pub struct Time32 {
    epoch: Epoch,
    seconds: u16,
    fractional_seconds: u16,
}

impl Time32 {
    /// Whole seconds since the epoch.
    pub closed spec fn seconds(&self) -> u16 {
        self.seconds
    }

    /// The fraction of the current second, in units of 2^-16 s.
    pub closed spec fn fraction(&self) -> u16 {
        self.fractional_seconds
    }

    /// The epoch that the seconds count from.
    pub closed spec fn epoch(&self) -> Epoch {
        self.epoch
    }

    /// The timestamp of the given parts.
    pub fn new(epoch: Epoch, seconds: u16, fractional_seconds: u16) -> (t: Self)
        ensures
            t.epoch() == epoch,
            t.seconds() == seconds,
            t.fraction() == fractional_seconds,
    {
        Self { epoch, seconds, fractional_seconds }
    }

    /// The timestamp as one number: the seconds in the upper half, the
    /// fraction in the lower.
    pub fn as_u32(&self) -> (v: u32)
        ensures
            v == self.seconds() * 0x1_0000 + self.fraction(),
    {
        let s: u32 = self.seconds as u32;
        let f: u32 = self.fractional_seconds as u32;
        assert((s << 16) | f == s * 0x1_0000 + f) by (bit_vector)
            requires
                s < 0x1_0000,
                f < 0x1_0000,
        ;
        (s << 16) | f
    }
}

/// A timestamp of 32 bits of seconds and 32 bits of fraction of a second,
/// counted from an epoch: the format Q32.32.
#[derive(Clone, Copy, Debug, PartialEq, Eq, Structural)]
pub struct Time64 {
    epoch: Epoch,
    seconds: u32,
    fractional_seconds: u32,
}

impl Time64 {
    /// Whole seconds since the epoch.
    pub closed spec fn seconds(&self) -> u32 {
        self.seconds
    }

    /// The fraction of the current second, in units of 2^-32 s.
    pub closed spec fn fraction(&self) -> u32 {
        self.fractional_seconds
    }

    /// The epoch that the seconds count from.
    pub closed spec fn epoch(&self) -> Epoch {
        self.epoch
    }

    /// The timestamp of the given parts.
    pub fn new(epoch: Epoch, seconds: u32, fractional_seconds: u32) -> (t: Self)
        ensures
            t.epoch() == epoch,
            t.seconds() == seconds,
            t.fraction() == fractional_seconds,
    {
        Self { epoch, seconds, fractional_seconds }
    }

    /// The timestamp as one number: the seconds in the upper half, the
    /// fraction in the lower.
    pub fn as_u64(&self) -> (v: u64)
        ensures
            v == self.seconds() * 0x1_0000_0000 + self.fraction(),
    {
        let s: u64 = self.seconds as u64;
        let f: u64 = self.fractional_seconds as u64;
        assert((s << 32) | f == s * 0x1_0000_0000 + f) by (bit_vector)
            requires
                s < 0x1_0000_0000,
                f < 0x1_0000_0000,
        ;
        (s << 32) | f
    }

    /// The epoch that the seconds count from.
    pub fn get_epoch(&self) -> (epoch: Epoch)
        ensures
            epoch == self.epoch(),
    {
        self.epoch
    }
}

/// A timestamp of 64 bits of seconds and 64 bits of fraction of a second,
/// counted from an epoch: the format Q64.64.
#[derive(Clone, Copy, Debug, PartialEq, Eq, Structural)]
pub struct Time128 {
    epoch: Epoch,
    seconds: u64,
    fractional_seconds: u64,
}

impl Time128 {
    /// Whole seconds since the epoch.
    pub closed spec fn seconds(&self) -> u64 {
        self.seconds
    }

    /// The fraction of the current second, in units of 2^-64 s.
    pub closed spec fn fraction(&self) -> u64 {
        self.fractional_seconds
    }

    /// The epoch that the seconds count from.
    pub closed spec fn epoch(&self) -> Epoch {
        self.epoch
    }

    /// The timestamp of the given parts.
    pub fn new(epoch: Epoch, seconds: u64, fractional_seconds: u64) -> (t: Self)
        ensures
            t.epoch() == epoch,
            t.seconds() == seconds,
            t.fraction() == fractional_seconds,
    {
        Self { epoch, seconds, fractional_seconds }
    }

    /// The timestamp as one number: the seconds in the upper half, the
    /// fraction in the lower.
    pub fn as_u128(&self) -> (v: u128)
        ensures
            v == self.seconds() * 0x1_0000_0000_0000_0000 + self.fraction(),
    {
        let s: u128 = self.seconds as u128;
        let f: u128 = self.fractional_seconds as u128;
        assert((s << 64) | f == s * 0x1_0000_0000_0000_0000 + f) by (bit_vector)
            requires
                s < 0x1_0000_0000_0000_0000,
                f < 0x1_0000_0000_0000_0000,
        ;
        (s << 64) | f
    }

    /// The epoch that the seconds count from.
    pub fn get_epoch(&self) -> (epoch: Epoch)
        ensures
            epoch == self.epoch(),
    {
        self.epoch
    }
}

} // verus!
