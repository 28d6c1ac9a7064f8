//! Averages as single-precision arithmetic gives them: a sum and a count are each
//! rounded, and so is their quotient.

use vstd::prelude::*;

use crate::single;
use crate::single::{quotient, round_single, SIGNIFICAND_LIMIT};

verus! {

/// `x` as a channel value.
pub open spec fn channel(x: nat) -> nat {
    if x <= 255 {
        x
    } else {
        255
    }
}

/// The average cut off to a channel value.
pub open spec fn truncated_average(sum: nat, count: nat) -> nat {
    let (a, b) = (single::single(sum), single::single(count));
    channel(single::quotient_significand(a, b) / single::quotient_scale(a, b))
}

/// The average rounded to the nearest channel value, up where two are equally
/// near.
pub open spec fn rounded_average(sum: nat, count: nat) -> nat {
    let (a, b) = (single::single(sum), single::single(count));
    let scale = single::quotient_scale(a, b);
    channel((2 * single::quotient_significand(a, b) + scale) / (2 * scale))
}

/// The average over pixels that all have the same channel value is that value, as
/// long as their sum is exact in single precision.
pub proof fn uniform_average(value: nat, count: nat)
    requires
        value <= 255,
        0 < count < SIGNIFICAND_LIMIT,
        value * count < SIGNIFICAND_LIMIT,
    ensures
        truncated_average(value * count, count) == value,
        rounded_average(value * count, count) == value,
{
    let a = value * count;
    single::single_is_near(a);
    single::single_is_near(count);
    let scale = single::quotient_scale(a, count);
    single::quotient_scale_is_power(a, count);
    assert(a * scale == (value * scale) * count) by (nonlinear_arith)
        requires
            a == value * count,
    ;
    let parts = value * scale;
    assert((parts * count) / count == parts && (parts * count) % count == 0) by (nonlinear_arith)
        requires
            count > 0,
            parts >= 0,
    ;
    assert(single::quotient_significand(a, count) == parts);
    assert(parts / scale == value) by (nonlinear_arith)
        requires
            parts == value * scale,
            scale > 0,
    ;
    assert((2 * parts + scale) / (2 * scale) == value) by (nonlinear_arith)
        requires
            parts == value * scale,
            scale > 0,
    ;
}

/// The average cut off to a channel value.
pub fn average_truncated(sum: u32, count: u32) -> (average: u8)
    requires
        count > 0,
    ensures
        average == truncated_average(sum as nat, count as nat),
{
    let a: u128 = round_single(sum as u128);
    let b: u128 = round_single(count as u128);
    let (scale, significand) = quotient(a, b);
    let average: u128 = significand / scale;
    if average > 255 {
        255
    } else {
        average as u8
    }
}

/// The average rounded to a channel value.
pub fn average_rounded(sum: u64, count: u64) -> (average: u8)
    requires
        count > 0,
    ensures
        average == rounded_average(sum as nat, count as nat),
{
    let a: u128 = round_single(sum as u128);
    let b: u128 = round_single(count as u128);
    let (scale, significand) = quotient(a, b);
    let average: u128 = (2 * significand + scale) / (2 * scale);
    if average > 255 {
        255
    } else {
        average as u8
    }
}

/// Where the average of exact sums is a channel value, it is rounded to a nearest one: it
/// is off by half a step at most, and by no more than a 65536th of a step beyond that
/// where the quotient itself was rounded.
pub proof fn rounded_average_is_nearest(sum: nat, count: nat)
    requires
        0 < count < SIGNIFICAND_LIMIT,
        sum < SIGNIFICAND_LIMIT,
        sum <= 255 * count,
    ensures
        0x1_0000 * (rounded_average(sum, count) * count - sum) <= 0x8001 * count,
        0x1_0000 * (sum - rounded_average(sum, count) * count) <= 0x8001 * count,
{
    single::single_is_near(sum);
    single::single_is_near(count);
    let (a, b) = (sum as int, count as int);
    let s = single::quotient_scale(sum, count) as int;
    let m = single::quotient_significand(sum, count) as int;
    single::significand_is_near(sum, count);
    let r = (2 * m + s) / (2 * s);
    assert(2 * s * r <= 2 * m + s < 2 * s * (r + 1)) by (nonlinear_arith)
        requires
            s >= 1,
            m >= 0,
            r == (2 * m + s) / (2 * s),
    ;
    if sum == 0 {
        assert(a * s == 0) by (nonlinear_arith)
            requires
                a == 0,
        ;
        assert(m == 0) by (nonlinear_arith)
            requires
                2 * (m * b) <= b,
                b > 0,
                m >= 0,
        ;
        assert(r == 0) by (nonlinear_arith)
            requires
                2 * s * r <= s,
                s >= 1,
                r >= 0,
        ;
        assert(r * b == 0) by (nonlinear_arith)
            requires
                r == 0,
        ;
    } else {
        single::scaled_quotient_is_large(sum, count);
        assert(s >= 0x8000) by (nonlinear_arith)
            requires
                2 * a * s >= 0x100_0000 * b,
                0 < a <= 255 * b,
                b > 0,
        ;
        let d = r * b - a;
        assert(2 * s * d <= b + s * b && 2 * s * (0 - d) <= b + s * b) by (nonlinear_arith)
            requires
                2 * s * r <= 2 * m + s < 2 * s * (r + 1),
                2 * (m * b) <= 2 * (a * s) + b,
                2 * (a * s) <= 2 * (m * b) + b,
                d == r * b - a,
                b > 0,
                s >= 1,
        ;
        assert(0x1_0000 * d <= 0x8001 * b) by (nonlinear_arith)
            requires
                2 * s * d <= b + s * b,
                s >= 0x8000,
                b > 0,
        ;
        assert(0x1_0000 * (0 - d) <= 0x8001 * b) by (nonlinear_arith)
            requires
                2 * s * (0 - d) <= b + s * b,
                s >= 0x8000,
                b > 0,
        ;
        assert(r <= 255) by (nonlinear_arith)
            requires
                0x1_0000 * (r * b - a) <= 0x8001 * b,
                a <= 255 * b,
                b > 0,
        ;
    }
    assert(r >= 0) by (nonlinear_arith)
        requires
            2 * m + s < 2 * s * (r + 1),
            m >= 0,
            s >= 1,
    ;
    assert(rounded_average(sum, count) == r);
}

/// Where the average of exact sums is a channel value, it is cut off: it is less than a
/// step below the average, and above it by no more than a 65536th of a step, where the
/// quotient itself was rounded up.
pub proof fn truncated_average_is_cut_off(sum: nat, count: nat)
    requires
        0 < count < SIGNIFICAND_LIMIT,
        sum < SIGNIFICAND_LIMIT,
        sum <= 255 * count,
    ensures
        0x1_0000 * (truncated_average(sum, count) * count - sum) <= count,
        sum - truncated_average(sum, count) * count < count,
{
    single::single_is_near(sum);
    single::single_is_near(count);
    let (a, b) = (sum as int, count as int);
    let s = single::quotient_scale(sum, count) as int;
    let m = single::quotient_significand(sum, count) as int;
    single::significand_is_near(sum, count);
    let t = m / s;
    assert(s * t <= m < s * (t + 1) && t >= 0) by (nonlinear_arith)
        requires
            s >= 1,
            m >= 0,
            t == m / s,
    ;
    let floor = (a * s) / b;
    assert(a - t * b < b) by (nonlinear_arith)
        requires
            a * s < (floor + 1) * b,
            m >= floor,
            m + 1 <= s * (t + 1),
            b > 0,
            s >= 1,
    ;
    if sum == 0 {
        assert(a * s == 0) by (nonlinear_arith)
            requires
                a == 0,
        ;
        assert(m == 0) by (nonlinear_arith)
            requires
                2 * (m * b) <= b,
                b > 0,
                m >= 0,
        ;
        assert(t == 0) by (nonlinear_arith)
            requires
                s * t <= 0,
                s >= 1,
                t >= 0,
        ;
        assert(t * b == 0) by (nonlinear_arith)
            requires
                t == 0,
        ;
    } else {
        single::scaled_quotient_is_large(sum, count);
        assert(s >= 0x8000) by (nonlinear_arith)
            requires
                2 * a * s >= 0x100_0000 * b,
                0 < a <= 255 * b,
                b > 0,
        ;
        let d = t * b - a;
        assert(2 * s * d <= b) by (nonlinear_arith)
            requires
                s * t <= m,
                2 * (m * b) <= 2 * (a * s) + b,
                d == t * b - a,
                b > 0,
                s >= 1,
        ;
        assert(0x1_0000 * d <= b) by (nonlinear_arith)
            requires
                2 * s * d <= b,
                s >= 0x8000,
                b > 0,
        ;
        assert(t <= 255) by (nonlinear_arith)
            requires
                0x1_0000 * (t * b - a) <= b,
                a <= 255 * b,
                b > 0,
        ;
    }
    assert(truncated_average(sum, count) == t);
}

} // verus!
