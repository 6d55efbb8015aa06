//! Fixed-point clamp and commit primitives for bounded meters.
//!
//! Every physical quantity of the world is stored as a bounded integer. The
//! functions here are the only way values enter those bounded ranges, and each
//! one states its range in its contract.

use vstd::prelude::*;

verus! {

/// Upper bound for the water meter (hundredths of a normalised resource).
pub const WATER_MAX: u16 = 10_000;

/// Upper bound for the soil meter (hundredths of a normalised resource).
pub const SOIL_MAX: u16 = 10_000;

/// Upper bound for albedo, in milli-units of reflectance.
pub const ALBEDO_MAX: u16 = 1_000;

/// Upper bound for freshwater flux, in tenths of millimetres.
pub const FRESHWATER_FLUX_MAX: u16 = 2_000;

/// Mathematical clamp of `value` into `[lo, hi]`.
pub open spec fn clamp_int(value: int, lo: int, hi: int) -> int {
    if value < lo {
        lo
    } else if value > hi {
        hi
    } else {
        value
    }
}

/// A clamp into a non-empty interval always lands inside the interval, and
/// leaves values that are already inside untouched.
pub proof fn lemma_clamp_int_bounds(value: int, lo: int, hi: int)
    requires
        lo <= hi,
    ensures
        lo <= clamp_int(value, lo, hi) <= hi,
        lo <= value <= hi ==> clamp_int(value, lo, hi) == value,
        clamp_int(clamp_int(value, lo, hi), lo, hi) == clamp_int(value, lo, hi),
{
}

/// Clamp an integer value to a bounded `u16` range.
pub fn clamp_u16(value: i32, min: u16, max: u16) -> (out: u16)
    requires
        min <= max,
    ensures
        out == clamp_int(value as int, min as int, max as int),
        min <= out <= max,
{
    if value < min as i32 {
        min
    } else if value > max as i32 {
        max
    } else {
        value as u16
    }
}

/// Clamp an integer value to a bounded `i16` range.
pub fn clamp_i16(value: i32, min: i16, max: i16) -> (out: i16)
    requires
        min <= max,
    ensures
        out == clamp_int(value as int, min as int, max as int),
        min <= out <= max,
{
    if value < min as i32 {
        min
    } else if value > max as i32 {
        max
    } else {
        value as i16
    }
}

/// Clamp an integer value to a bounded `i32` range.
pub fn clamp_i32(value: i32, min: i32, max: i32) -> (out: i32)
    requires
        min <= max,
    ensures
        out == clamp_int(value as int, min as int, max as int),
        min <= out <= max,
{
    if value < min {
        min
    } else if value > max {
        max
    } else {
        value
    }
}

/// Clamp a biome index to the `[0, 255]` range of its storage type.
pub fn clamp_biome_index(value: i32) -> (out: u8)
    ensures
        out == clamp_int(value as int, 0, 255),
{
    if value < 0 {
        0
    } else if value > 255 {
        255
    } else {
        value as u8
    }
}

/// Apply a signed delta to a resource meter, saturating at `0` and at `max`.
///
/// The sum is formed without wrapping, so a delta of any magnitude saturates
/// rather than overflowing.
pub fn commit_resource_delta(current: u16, delta: i32, max: u16) -> (out: u16)
    ensures
        out == clamp_int(current as int + delta as int, 0, max as int),
        out <= max,
{
    let next: i64 = current as i64 + delta as i64;
    if next < 0 {
        0
    } else if next > max as i64 {
        max
    } else {
        next as u16
    }
}

/// Clamp a hazard gauge to `[0, WATER_MAX]`.
pub fn clamp_hazard_meter(value: u16) -> (out: u16)
    ensures
        out == clamp_int(value as int, 0, WATER_MAX as int),
        out <= WATER_MAX,
        out <= value,
{
    if value > WATER_MAX {
        WATER_MAX
    } else {
        value
    }
}

/// Numerator and denominator of a resource level as a fraction of `max`.
///
/// A zero `max` is treated as one, and the numerator never exceeds the
/// denominator, so the fraction always lies in `[0, 1]`.
pub fn resource_fraction(value: u16, max: u16) -> (out: (u16, u16))
    ensures
        out.1 == (if max == 0 { 1u16 } else { max }),
        out.0 == (if value <= out.1 { value } else { out.1 }),
        out.0 <= out.1,
        out.1 >= 1,
{
    let denominator: u16 = if max == 0 { 1 } else { max };
    let numerator: u16 = if value <= denominator { value } else { denominator };
    (numerator, denominator)
}

/// A quotient rounded towards zero.
pub open spec fn toward_zero(n: int, d: int) -> int
    recommends
        d > 0,
{
    if n >= 0 {
        n / d
    } else {
        -((-n) / d)
    }
}

/// The quotient `n / d` rounded to the nearest integer, with halves rounded
/// away from zero.
pub open spec fn round_half_away(n: int, d: int) -> int
    recommends
        d > 0,
{
    if n >= 0 {
        (2 * n + d) / (2 * d)
    } else {
        -((2 * (-n) + d) / (2 * d))
    }
}

/// Rounding is odd-symmetric and keeps the sign of the numerator.
pub proof fn lemma_round_half_away_sign(n: int, d: int)
    requires
        d > 0,
    ensures
        round_half_away(-n, d) == -round_half_away(n, d),
        n >= 0 ==> round_half_away(n, d) >= 0,
        n <= 0 ==> round_half_away(n, d) <= 0,
        n >= 0 ==> round_half_away(n, d) <= n,
        n <= 0 ==> round_half_away(n, d) >= n,
{
    let m = if n >= 0 {
        n
    } else {
        -n
    };
    assert((2 * m + d) / (2 * d) >= 0) by (nonlinear_arith)
        requires
            m >= 0,
            d > 0,
    ;
    assert((2 * m + d) / (2 * d) <= m) by (nonlinear_arith)
        requires
            m >= 0,
            d > 0,
    ;
    if n == 0 {
        assert((2 * 0 + d) / (2 * d) == 0) by (nonlinear_arith)
            requires
                d > 0,
        ;
    }
}

/// Divide with rounding to the nearest integer, halves away from zero.
pub fn round_div(n: i128, d: i128) -> (out: i128)
    requires
        0 < d <= 0x1_0000_0000_0000_0000,
        -0x1_0000_0000_0000_0000_0000_0000 <= n <= 0x1_0000_0000_0000_0000_0000_0000,
    ensures
        out as int == round_half_away(n as int, d as int),
{
    proof {
        lemma_round_half_away_sign(n as int, d as int);
    }
    if n >= 0 {
        (2 * n + d) / (2 * d)
    } else {
        -((2 * (-n) + d) / (2 * d))
    }
}

/// Narrow a wide integer to `i32`, saturating at the bounds.
pub fn saturate_i32(value: i128) -> (out: i32)
    ensures
        out as int == clamp_int(value as int, i32::MIN as int, i32::MAX as int),
{
    if value < i32::MIN as i128 {
        i32::MIN
    } else if value > i32::MAX as i128 {
        i32::MAX
    } else {
        value as i32
    }
}

} // verus!
