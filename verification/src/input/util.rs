//! The time-of-week field that several payloads share: a big-endian count
//! of 10 ms steps.

use crate::bits::{be_u32_at, u32_be_bytes, ByteCursor, ByteSink, UnexpectedEnd};
use crate::scaled::{exact_scale, lemma_exact_scale, micros_of, steps_of, ScaleError};
use vstd::prelude::*;

verus! {

/// Wire steps in one second of a time of week: a step is 10 ms.
pub const GPSTOW_SCALE: u32 = 100;

/// Microseconds in one wire step of a time of week.
pub const GPSTOW_STEP_MICROS: u64 = 10_000;

/// Microseconds in a week, the exclusive upper end of a time of week.
pub const WEEK_MICROS: u64 = 604_800_000_000;

/// The wire field of a time of week of `micros` microseconds: the nearest
/// number of 10 ms steps.
pub open spec fn gpstow_steps(micros: u64) -> int {
    (micros as int + 5_000) / 10_000
}

/// The microseconds of a time of week whose wire field is `raw`.
pub open spec fn gpstow_micros(raw: u32) -> u64 {
    (raw as int * 10_000) as u64
}

/// Writes a time of week, given in microseconds, as a big-endian count of
/// 10 ms steps. A time whose steps do not fit the 32-bit field is refused and
/// nothing is written.
pub fn write_gpstow(out: &mut ByteSink, micros: u64) -> (r: Result<(), ScaleError>)
    ensures
        gpstow_steps(micros) <= u32::MAX ==> r is Ok && final(out)@ == old(out)@ + u32_be_bytes(
            gpstow_steps(micros) as u32,
        ),
        gpstow_steps(micros) > u32::MAX ==> r == Err::<(), ScaleError>(ScaleError::OutOfRange)
            && final(out)@ == old(out)@,
{
    let steps: u64 = micros / GPSTOW_STEP_MICROS + (if micros % GPSTOW_STEP_MICROS >= 5_000 {
        1u64
    } else {
        0u64
    });
    if steps > 0xFFFF_FFFF {
        return Err(ScaleError::OutOfRange);
    }
    out.write_be_u32(steps as u32);
    Ok(())
}

/// Reads a time of week: a big-endian count of 10 ms steps, handed out in
/// microseconds.
pub fn read_gpstow(input: &mut ByteCursor<'_>) -> (r: Result<u64, UnexpectedEnd>)
    ensures
        old(input).reads(
            final(input),
            r,
            4,
            gpstow_micros(be_u32_at(old(input).source(), old(input).offset() as int)),
        ),
{
    match input.read_be_u32() {
        Ok(raw) => Ok((raw as u64) * GPSTOW_STEP_MICROS),
        Err(e) => Err(e),
    }
}

/// The steps of a time of week are those of the general codec at a scale of
/// a hundred, and its microseconds likewise.
pub proof fn lemma_gpstow_is_scaled(micros: u64, raw: u32)
    requires
        micros <= i64::MAX,
    ensures
        exact_scale(GPSTOW_SCALE),
        gpstow_steps(micros) == steps_of(micros as int, GPSTOW_SCALE),
        gpstow_micros(raw) == micros_of(raw, GPSTOW_SCALE),
{
    lemma_exact_scale(raw, GPSTOW_SCALE);
    let a = micros as int + 5_000;
    assert((200 * a) / 2_000_000 == a / 10_000) by (nonlinear_arith);
    assert(2 * (micros as int * 100) + 1_000_000 == 200 * a);
}

/// A time of week within the week always fits the wire, and comes back
/// within 5 ms, half the 10 ms step, of what was written.
pub proof fn lemma_gpstow_within_half_step(micros: u64)
    requires
        micros < WEEK_MICROS,
    ensures
        0 <= gpstow_steps(micros) <= 60_480_000,
        gpstow_micros(gpstow_steps(micros) as u32) - micros <= 5_000,
        micros - gpstow_micros(gpstow_steps(micros) as u32) <= 5_000,
{
}

/// A time of week that is a whole number of steps comes back exactly.
pub proof fn lemma_gpstow_exact(raw: u32)
    ensures
        gpstow_steps(gpstow_micros(raw)) == raw,
{
}

} // verus!
