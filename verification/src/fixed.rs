//! Fixed-point scales and arithmetic that stops at the ends of `i64`.

use vstd::prelude::*;

verus! {

/// One world unit, as a length.
pub const UNIT: i64 = 1_000_000;

/// One world unit per second, as a speed.
pub const UNIT_PER_SECOND: i64 = 1_000;

/// The value of `i64` nearest to `v`.
pub open spec fn clamp(v: int) -> int {
    if v < i64::MIN as int {
        i64::MIN as int
    } else if v > i64::MAX as int {
        i64::MAX as int
    } else {
        v
    }
}

/// Brings a wide intermediate result back into `i64`.
pub fn clamp_wide(v: i128) -> (r: i64)
    ensures
        r as int == clamp(v as int),
{
    if v < i64::MIN as i128 {
        i64::MIN
    } else if v > i64::MAX as i128 {
        i64::MAX
    } else {
        v as i64
    }
}

/// `a + b`, stopped at the ends of `i64`.
pub fn add_clamped(a: i64, b: i64) -> (r: i64)
    ensures
        r as int == clamp(a + b),
{
    clamp_wide(a as i128 + b as i128)
}

/// `a - b`, stopped at the ends of `i64`.
pub fn sub_clamped(a: i64, b: i64) -> (r: i64)
    ensures
        r as int == clamp(a - b),
{
    clamp_wide(a as i128 - b as i128)
}

/// `base + rate * step_ms`, stopped at the ends of `i64`: a position after a step at a
/// speed, or a speed after a step under an acceleration.
pub fn advance(base: i64, rate: i64, step_ms: u32) -> (r: i64)
    ensures
        r as int == clamp(base + rate * step_ms),
{
    let rate_wide: i128 = rate as i128;
    let step_wide: i128 = step_ms as i128;
    assert(-0x8000_0000_0000_0000 * 0x1_0000_0000 <= rate_wide * step_wide
        <= 0x8000_0000_0000_0000 * 0x1_0000_0000) by (nonlinear_arith)
        requires
            -0x8000_0000_0000_0000 <= rate_wide < 0x8000_0000_0000_0000,
            0 <= step_wide < 0x1_0000_0000,
    ;
    clamp_wide(base as i128 + rate_wide * step_wide)
}

} // verus!
