//! Units in which a planar angle is measured.

use vstd::prelude::*;

verus! {

/// A unit of planar angle.
#[derive(Clone, Copy, Debug, PartialEq, Eq, Structural)]
#[non_exhaustive]
pub enum AngleUnits {
    /// The SI unit: the full circle has 2π radians.
    Radians,
    /// The full circle has 360 degrees.
    Degrees,
    /// The first division of a degree: 60 minutes to the degree.
    Minutes,
    /// The second division of a degree: 60 seconds to the minute.
    Seconds,
    /// One full turn.
    Revolutions,
    /// The NATO mil: 6400 mils to the turn.
    Mils,
}

impl Default for AngleUnits {
    fn default() -> (units: Self)
        ensures
            units == AngleUnits::Radians,
    {
        AngleUnits::Radians
    }
}

impl AngleUnits {
    /// How many of this unit make one full turn, for the units of which a
    /// whole number does.
    pub open spec fn per_turn(self) -> Option<u32> {
        match self {
            AngleUnits::Radians => None,
            AngleUnits::Degrees => Some(360u32),
            AngleUnits::Minutes => Some(21_600u32),
            AngleUnits::Seconds => Some(1_296_000u32),
            AngleUnits::Revolutions => Some(1u32),
            AngleUnits::Mils => Some(6_400u32),
        }
    }

    /// How many of this unit make one full turn; `None` for radians, of
    /// which no whole number does.
    pub fn units_per_turn(&self) -> (n: Option<u32>)
        ensures
            n == self.per_turn(),
    {
        match self {
            AngleUnits::Radians => None,
            AngleUnits::Degrees => Some(360),
            AngleUnits::Minutes => Some(360 * 60),
            AngleUnits::Seconds => Some(360 * 60 * 60),
            AngleUnits::Revolutions => Some(1),
            AngleUnits::Mils => Some(6_400),
        }
    }
}

} // verus!
