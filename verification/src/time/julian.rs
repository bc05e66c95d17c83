//! The epochs from which Julian day numbers are counted.

use crate::time::gregorian::Date;
use crate::time::Epoch;
use vstd::prelude::*;

verus! {

/// The Julian epoch: the first of January 4713 BC.
pub fn julian_epoch() -> (epoch: Epoch)
    ensures
        epoch == Epoch(Date { year: -4712i32, day_of_year: 0 }),
{
    Epoch(Date { year: -4712, day_of_year: 0 })
}

/// The reduced Julian epoch, the 16th of November 1858: 2400000 days after
/// the Julian epoch.
pub fn reduced_julian_epoch() -> (epoch: Epoch)
    ensures
        epoch == Epoch(Date { year: 1858, day_of_year: 320 }),
{
    Epoch(Date { year: 1858, day_of_year: 320 })
}

/// The truncated Julian epoch, the 24th of May 1968: 2440000.5 days after
/// the Julian epoch.
pub fn truncated_julian_epoch() -> (epoch: Epoch)
    ensures
        epoch == Epoch(Date { year: 1968, day_of_year: 145 }),
{
    Epoch(Date { year: 1968, day_of_year: 145 })
}

/// Marks a day number counted from the Julian epoch.
#[derive(Clone, Copy, Debug, Default, PartialEq, Eq, Structural)]
pub struct JulianEpoch;

/// Marks a day number counted from the reduced Julian epoch.
#[derive(Clone, Copy, Debug, Default, PartialEq, Eq, Structural)]
pub struct ReducedJulianEpoch;

/// Marks a day number counted from midnight after the reduced Julian epoch.
#[derive(Clone, Copy, Debug, Default, PartialEq, Eq, Structural)]
pub struct ModifiedJulianEpoch;

/// Marks a day number counted from the truncated Julian epoch.
#[derive(Clone, Copy, Debug, Default, PartialEq, Eq, Structural)]
pub struct TruncatedJulianEpoch;

/// Marks a day number counted from the start of the Gregorian calendar, the
/// 15th of October 1582.
#[derive(Clone, Copy, Debug, Default, PartialEq, Eq, Structural)]
pub struct LilianEpoch;

/// Marks a day number counted from the first of January of the year 1.
#[derive(Clone, Copy, Debug, Default, PartialEq, Eq, Structural)]
pub struct RataDieEpoch;

} // verus!
