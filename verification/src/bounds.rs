//! Errors that report a value beyond a bound.

use vstd::prelude::*;

verus! {

/// The value is not below the bound that every valid value lies below.
#[derive(Clone, Copy, Debug, PartialEq, Eq)]
pub struct GreaterThanEqualToValueError<T> {
    /// The value that was refused.
    pub value: T,
    /// The first value that is not valid: valid values lie below it.
    pub valid_upper_bound: T,
}

} // verus!
