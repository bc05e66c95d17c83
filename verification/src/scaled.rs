//! Fixed-point fields: a physical quantity travels as a whole number of
//! steps, `scale` steps to the unit.
//!
//! Quantities are held in millionths of their unit, so that a time of week
//! in seconds is a count of microseconds.

use vstd::prelude::*;

verus! {

/// Millionths in one unit of a quantity.
pub const MICROS_PER_UNIT: u64 = 1_000_000;

/// Why a quantity could not be put on, or taken off, the wire.
#[derive(Clone, Copy, Debug, PartialEq, Eq, Structural)]
pub enum ScaleError {
    /// The scale is zero: no number of steps stands for a quantity.
    InvalidScale,
    /// The scaled quantity is negative or too large for the wire field.
    OutOfRange,
}

/// The quotient `num / den` rounded to the nearest integer, a tie going away
/// from zero.
pub open spec fn round_half_away(num: int, den: int) -> int
    recommends
        den > 0,
{
    if num >= 0 {
        (2 * num + den) / (2 * den)
    } else {
        -((2 * (-num) + den) / (2 * den))
    }
}

/// `round_half_away` gives an integer nearest to the quotient, and of two
/// that are equally near the one further from zero; it treats a quotient
/// and its negative alike.
pub proof fn lemma_round_half_away(num: int, den: int)
    requires
        den > 0,
    ensures
        ({
            let r = round_half_away(num, den);
            &&& 2 * (r * den - num) <= den
            &&& 2 * (num - r * den) <= den
            &&& num >= 0 ==> r >= 0 && 2 * (num - r * den) < den
            &&& num <= 0 ==> r <= 0 && 2 * (r * den - num) < den
            &&& round_half_away(-num, den) == -r
        }),
{
    let r = round_half_away(num, den);
    if num >= 0 {
        assert(2 * den * r <= 2 * num + den < 2 * den * r + 2 * den && r >= 0) by (nonlinear_arith)
            requires
                den > 0,
                num >= 0,
                r == (2 * num + den) / (2 * den),
        ;
        assert(2 * (r * den - num) == 2 * den * r - 2 * num) by (nonlinear_arith);
    } else {
        let q = -r;
        assert(2 * den * q <= 2 * (-num) + den < 2 * den * q + 2 * den && q >= 0) by (nonlinear_arith)
            requires
                den > 0,
                num < 0,
                q == (2 * (-num) + den) / (2 * den),
        ;
        assert(2 * (r * den - num) == 2 * (-num) - 2 * den * q) by (nonlinear_arith)
            requires
                q == -r,
        ;
    }
    if num == 0 {
        assert(round_half_away(0, den) == 0) by (nonlinear_arith)
            requires
                den > 0,
        ;
    }
}

/// An integer that is nearer to the quotient than half a unit is what the
/// quotient rounds to.
pub proof fn lemma_round_nearest(num: int, den: int, r: int)
    requires
        den > 0,
        2 * (r * den - num) < den,
        2 * (num - r * den) < den,
    ensures
        round_half_away(num, den) == r,
{
    let q = round_half_away(num, den);
    lemma_round_half_away(num, den);
    assert(q == r) by (nonlinear_arith)
        requires
            den > 0,
            2 * (r * den - num) < den,
            2 * (num - r * den) < den,
            2 * (q * den - num) <= den,
            2 * (num - q * den) <= den,
    ;
}

/// A scale at which every number of steps is a whole number of millionths:
/// a positive divisor of a million.
pub open spec fn exact_scale(scale: u32) -> bool {
    scale > 0 && MICROS_PER_UNIT as int % scale as int == 0
}

/// Number of wire steps nearest to `micros` millionths.
pub open spec fn steps_of(micros: int, scale: u32) -> int {
    round_half_away(micros * scale, MICROS_PER_UNIT as int)
}

/// The millionths nearest to what `raw` wire steps stand for.
pub open spec fn micros_of(raw: u32, scale: u32) -> int
    recommends
        scale > 0,
{
    round_half_away(raw as int * MICROS_PER_UNIT as int, scale as int)
}

/// A physical quantity together with the scale it travels at.
#[derive(Clone, Copy, Debug, PartialEq, Eq, Structural)]
pub struct ScaledValue {
    /// The quantity, in millionths of its unit.
    pub micros: i64,
    /// Wire steps per unit.
    pub scale: u32,
}

impl ScaledValue {
    /// The wire field of this quantity: the quantity times the scale,
    /// rounded to the nearest number of steps, a tie going away from zero. A
    /// quantity whose steps do not fit the unsigned 32-bit field is refused:
    /// nothing wraps.
    pub fn encode(&self) -> (r: Result<u32, ScaleError>)
        ensures
            r == (if 0 <= steps_of(self.micros as int, self.scale) <= u32::MAX {
                Ok::<u32, ScaleError>(steps_of(self.micros as int, self.scale) as u32)
            } else {
                Err::<u32, ScaleError>(ScaleError::OutOfRange)
            }),
    {
        let m: i128 = self.micros as i128;
        let k: i128 = self.scale as i128;
        assert(-0x8000_0000_0000_0000 * 0x1_0000_0000 <= m * k <= 0x8000_0000_0000_0000
            * 0x1_0000_0000) by (nonlinear_arith)
            requires
                -0x8000_0000_0000_0000 <= m < 0x8000_0000_0000_0000,
                0 <= k < 0x1_0000_0000,
        ;
        let num: i128 = m * k;
        let den: i128 = 1_000_000;
        if num >= 0 {
            let steps: i128 = (2 * num + den) / (2 * den);
            if steps > 0xFFFF_FFFF {
                Err(ScaleError::OutOfRange)
            } else {
                Ok(steps as u32)
            }
        } else {
            let steps: i128 = (2 * (-num) + den) / (2 * den);
            if steps > 0 {
                Err(ScaleError::OutOfRange)
            } else {
                Ok(0)
            }
        }
    }

    /// The quantity that `raw` wire steps stand for at the given scale: the
    /// steps divided by the scale, to the nearest millionth. A scale of zero
    /// is refused.
    pub fn decode(raw: u32, scale: u32) -> (r: Result<ScaledValue, ScaleError>)
        ensures
            r == (if scale > 0 {
                Ok::<ScaledValue, ScaleError>(
                    ScaledValue { micros: micros_of(raw, scale) as i64, scale },
                )
            } else {
                Err::<ScaledValue, ScaleError>(ScaleError::InvalidScale)
            }),
            scale > 0 ==> 0 <= micros_of(raw, scale) <= i64::MAX,
    {
        if scale == 0 {
            return Err(ScaleError::InvalidScale);
        }
        let num: u64 = (raw as u64) * MICROS_PER_UNIT;
        let den: u64 = scale as u64;
        let micros: u64 = (2 * num + den) / (2 * den);
        assert(micros <= 2 * num + den) by (nonlinear_arith)
            requires
                den >= 1,
                micros == (2 * num + den) / (2 * den),
        ;
        Ok(ScaledValue { micros: micros as i64, scale })
    }
}

/// At an exact scale the quantity that steps stand for is the steps times
/// the millionths of one step.
pub proof fn lemma_exact_scale(raw: u32, scale: u32)
    requires
        exact_scale(scale),
    ensures
        micros_of(raw, scale) == raw * (MICROS_PER_UNIT as int / scale as int),
{
    let d = MICROS_PER_UNIT as int;
    let k = scale as int;
    let q = d / k;
    let r = raw as int;
    assert(q * k == d) by (nonlinear_arith)
        requires
            k > 0,
            d % k == 0,
            q == d / k,
    ;
    assert(2 * ((r * q) * k - r * d) < k && 2 * (r * d - (r * q) * k) < k) by (nonlinear_arith)
        requires
            q * k == d,
            k > 0,
    ;
    lemma_round_nearest(r * d, k, r * q);
}

/// A quantity that was put on the wire and taken off again differs from
/// what was put on by at most half a step and half a millionth; at an exact
/// scale, by at most half a step.
pub proof fn lemma_scaled_within_half_step(micros: i64, scale: u32)
    requires
        scale > 0,
        0 <= steps_of(micros as int, scale) <= u32::MAX,
    ensures
        ({
            let back = micros_of(steps_of(micros as int, scale) as u32, scale);
            &&& 2 * scale * (back - micros) <= MICROS_PER_UNIT + scale
            &&& 2 * scale * (micros - back) <= MICROS_PER_UNIT + scale
            &&& exact_scale(scale) ==> 2 * scale * (back - micros) <= MICROS_PER_UNIT && 2 * scale
                * (micros - back) <= MICROS_PER_UNIT
        }),
{
    let d = MICROS_PER_UNIT as int;
    let k = scale as int;
    let m = micros as int;
    let r = steps_of(m, scale);
    let back = micros_of(r as u32, scale);
    lemma_round_half_away(m * k, d);
    lemma_round_half_away(r * d, k);
    assert(2 * k * (back - m) == 2 * (back * k - r * d) + 2 * (r * d - m * k) && 2 * k * (m - back)
        == 2 * (r * d - back * k) + 2 * (m * k - r * d)) by (nonlinear_arith);
    if exact_scale(scale) {
        lemma_exact_scale(r as u32, scale);
        let q = d / k;
        assert(q * k == d) by (nonlinear_arith)
            requires
                k > 0,
                d % k == 0,
                q == d / k,
        ;
        assert(back * k == r * d) by (nonlinear_arith)
            requires
                back == r * q,
                q * k == d,
        ;
    }
}

/// Wire steps that are taken off the wire and put on again are unchanged,
/// at every scale at which a step is no finer than a millionth.
pub proof fn lemma_scaled_steps_round_trip(raw: u32, scale: u32)
    requires
        0 < scale <= MICROS_PER_UNIT,
    ensures
        steps_of(micros_of(raw, scale), scale) == raw,
{
    let d = MICROS_PER_UNIT as int;
    let k = scale as int;
    let r = raw as int;
    let back = micros_of(raw, scale);
    lemma_round_half_away(r * d, k);
    if k == d {
        assert(2 * (r * d - r * k) < k && 2 * (r * k - r * d) < k) by (nonlinear_arith)
            requires
                k == d,
                k > 0,
        ;
        lemma_round_nearest(r * d, k, r);
        assert(back == r);
        assert(2 * (r * d - back * k) < d && 2 * (back * k - r * d) < d) by (nonlinear_arith)
            requires
                back == r,
                k == d,
                d > 0,
        ;
    }
    lemma_round_nearest(back * k, d, r);
}

} // verus!
