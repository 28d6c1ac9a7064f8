//! Single-precision arithmetic in integers: rounding to 24 significant bits, to the
//! nearest value and to the even one of two that are equally near.

use vstd::prelude::*;

verus! {

/// One more than the largest significand.
pub const SIGNIFICAND_LIMIT: u128 = 0x100_0000;

/// The largest number that is rounded here.
pub const ROUNDING_LIMIT: u128 = 0x1_0000_0000_0000_0000_0000_0000_0000;

/// The integer nearest to `num / den`, the even one of two that are equally near.
pub open spec fn nearest(num: nat, den: nat) -> nat {
    let quotient = num / den;
    let rest = num % den;
    if 2 * rest < den || (2 * rest == den && quotient % 2 == 0) {
        quotient
    } else {
        quotient + 1
    }
}

/// The distance between neighbouring single-precision values at `x`, as far as it is
/// not below one.
pub open spec fn spacing(x: nat) -> nat
    decreases x,
{
    if x < SIGNIFICAND_LIMIT {
        1
    } else {
        2 * spacing(x / 2)
    }
}

/// The single-precision value nearest to the integer `x`.
pub open spec fn single(x: nat) -> nat {
    nearest(x, spacing(x)) * spacing(x)
}

/// The power of two by which `a / b` is scaled so that it has 24 bits before the
/// point; quotients that have more stay as they are.
pub open spec fn quotient_scale(a: nat, b: nat) -> nat
    decreases SIGNIFICAND_LIMIT * b - a,
{
    if a == 0 || 2 * a >= SIGNIFICAND_LIMIT * b {
        1
    } else {
        2 * quotient_scale(2 * a, b)
    }
}

/// The significand of `a / b` in single precision: the quotient is this many parts
/// of the scale.
pub open spec fn quotient_significand(a: nat, b: nat) -> nat {
    nearest(a * quotient_scale(a, b), b)
}

/// Whether `n` is one, two, four and so on.
pub open spec fn power_of_two(n: nat) -> bool
    decreases n,
{
    n == 1 || (n > 1 && n % 2 == 0 && power_of_two(n / 2))
}

pub fn round_div(num: u128, den: u128) -> (q: u128)
    requires
        0 < den < ROUNDING_LIMIT,
        num < ROUNDING_LIMIT,
    ensures
        q == nearest(num as nat, den as nat),
        q <= num + 1,
{
    let quotient: u128 = num / den;
    let rest: u128 = num % den;
    assert(quotient <= num) by (nonlinear_arith)
        requires
            quotient == num / den,
            den > 0,
    ;
    if 2 * rest < den || (2 * rest == den && quotient % 2 == 0) {
        quotient
    } else {
        quotient + 1
    }
}

pub proof fn spacing_bounds(x: nat)
    ensures
        1 <= spacing(x),
        2 * x >= SIGNIFICAND_LIMIT ==> spacing(x) * SIGNIFICAND_LIMIT <= 2 * x,
    decreases x,
{
    if x >= SIGNIFICAND_LIMIT {
        spacing_bounds(x / 2);
    }
}

/// A rounded integer is at most half a spacing away, and small integers are exact.
pub proof fn single_is_near(x: nat)
    ensures
        x < SIGNIFICAND_LIMIT ==> single(x) == x,
        2 * single(x) <= 2 * x + spacing(x),
        2 * x <= 2 * single(x) + spacing(x),
        x > 0 ==> single(x) > 0,
        single(x) <= 2 * x,
{
    spacing_bounds(x);
    let s = spacing(x);
    let q = x / s;
    let r = x % s;
    assert(x == q * s + r && 0 <= r < s) by (nonlinear_arith)
        requires
            q == x / s,
            r == x % s,
            s > 0,
    ;
    assert((q + 1) * s == q * s + s) by (nonlinear_arith);
    if x < SIGNIFICAND_LIMIT {
        assert(s == 1);
        assert(q * s == q) by (nonlinear_arith)
            requires
                s == 1,
        ;
        assert(r == 0 && q == x);
    } else {
        assert(single(x) == q * s || single(x) == q * s + s);
        assert(s <= x) by {
            assert(s * SIGNIFICAND_LIMIT <= 2 * x);
        }
        assert(q >= 1) by (nonlinear_arith)
            requires
                x == q * s + r,
                r < s,
                s <= x,
                q >= 0,
        ;
        assert(q * s >= s) by (nonlinear_arith)
            requires
                q >= 1,
                s >= 1,
        ;
    }
}

/// The spacing at `x` divides every power of two that is not below `x`.
proof fn spacing_divides(x: nat, p: nat)
    requires
        power_of_two(p),
        x <= p,
    ensures
        p % spacing(x) == 0,
        spacing(x) >= 1,
    decreases x,
{
    spacing_bounds(x);
    if x >= SIGNIFICAND_LIMIT {
        assert(p > 1);
        spacing_divides(x / 2, p / 2);
        let s = spacing(x / 2);
        let half = p / 2;
        assert((2 * half) % (2 * s) == 0) by (nonlinear_arith)
            requires
                half % s == 0,
                s >= 1,
        ;
        assert(p == 2 * half);
    }
}

/// Rounding does not pass a power of two.
pub proof fn single_below_power(x: nat, p: nat)
    requires
        power_of_two(p),
        x <= p,
    ensures
        single(x) <= p,
{
    spacing_divides(x, p);
    let s = spacing(x);
    let q = x / s;
    let r = x % s;
    let m = p / s;
    assert(p == m * s) by (nonlinear_arith)
        requires
            p % s == 0,
            m == p / s,
            s >= 1,
    ;
    assert(x == q * s + r && 0 <= r < s) by (nonlinear_arith)
        requires
            q == x / s,
            r == x % s,
            s >= 1,
    ;
    if r == 0 {
        assert(nearest(x, s) == q);
    } else {
        assert(q + 1 <= m) by (nonlinear_arith)
            requires
                q * s + r <= m * s,
                r > 0,
                s >= 1,
        ;
        assert((q + 1) * s <= m * s) by (nonlinear_arith)
            requires
                q + 1 <= m,
                s >= 1,
        ;
        assert(q * s <= (q + 1) * s) by (nonlinear_arith)
            requires
                s >= 1,
        ;
    }
}

pub proof fn power_of_two_doubles(n: nat)
    requires
        power_of_two(n),
    ensures
        power_of_two(2 * n),
{
}

pub proof fn power_of_two_product(a: nat, b: nat)
    requires
        power_of_two(a),
        power_of_two(b),
    ensures
        power_of_two(a * b),
    decreases a,
{
    if a == 1 {
        assert(1 * b == b);
    } else {
        power_of_two_product(a / 2, b);
        assert(a * b == 2 * ((a / 2) * b)) by (nonlinear_arith)
            requires
                a % 2 == 0,
        ;
        power_of_two_doubles((a / 2) * b);
    }
}

pub proof fn quotient_scale_is_power(a: nat, b: nat)
    ensures
        power_of_two(quotient_scale(a, b)),
        quotient_scale(a, b) >= 1,
    decreases SIGNIFICAND_LIMIT * b - a,
{
    if a == 0 || 2 * a >= SIGNIFICAND_LIMIT * b {
    } else {
        quotient_scale_is_power(2 * a, b);
        power_of_two_doubles(quotient_scale(2 * a, b));
    }
}

pub fn round_single(x: u128) -> (rounded: u128)
    requires
        x < ROUNDING_LIMIT,
    ensures
        rounded == single(x as nat),
        rounded <= 2 * x,
        x > 0 ==> rounded > 0,
{
    let mut y: u128 = x;
    let mut step: u128 = 1;
    while y >= SIGNIFICAND_LIMIT
        invariant
            x < ROUNDING_LIMIT,
            spacing(x as nat) == step * spacing(y as nat),
            step * y <= x,
            step >= 1,
            step == 1 || step < ROUNDING_LIMIT,
        decreases y,
    {
        let half: u128 = y / 2;
        assert(step * y >= step * (2 * half)) by (nonlinear_arith)
            requires
                y >= 2 * half,
                step >= 1,
        ;
        assert(step * (2 * half) == (2 * step) * half) by (nonlinear_arith);
        assert(2 * step <= x) by (nonlinear_arith)
            requires
                step * y <= x,
                y >= 2,
        ;
        assert(step * (2 * spacing(half as nat)) == (2 * step) * spacing(half as nat))
            by (nonlinear_arith);
        step = 2 * step;
        y = half;
    }
    assert(spacing(x as nat) == step) by {
        assert(step * 1 == step);
    }
    proof {
        single_is_near(x as nat);
    }
    let n: u128 = round_div(x, step);
    assert(n * step == single(x as nat));
    n * step
}

/// The scale of `a / b` and its significand.
pub fn quotient(a: u128, b: u128) -> (parts: (u128, u128))
    requires
        0 < b <= 0x1_0000_0000_0000_0000_0000,
        a <= 0x10_0000_0000_0000_0000_0000_0000,
    ensures
        parts.0 == quotient_scale(a as nat, b as nat),
        parts.1 == quotient_significand(a as nat, b as nat),
        1 <= parts.0,
        parts.0 == 1 || parts.0 < 0x100_0000 * b,
        parts.1 <= SIGNIFICAND_LIMIT || (parts.0 == 1 && parts.1 <= a + 1),
{
    let mut scaled: u128 = a;
    let mut scale: u128 = 1;
    while scaled != 0 && 2 * scaled < 0x100_0000 * b
        invariant
            0 < b <= 0x1_0000_0000_0000_0000_0000,
            a <= 0x10_0000_0000_0000_0000_0000_0000,
            scaled == a * scale,
            scale >= 1,
            scale == 1 || scaled < 0x100_0000 * b,
            scaled == 0 ==> scale == 1,
            quotient_scale(a as nat, b as nat) == scale * quotient_scale(scaled as nat, b as nat),
        decreases 0x100_0000 * b - scaled,
    {
        assert(scale <= scaled) by (nonlinear_arith)
            requires
                scaled == a * scale,
                scaled != 0,
                a >= 0,
                scale >= 1,
        ;
        assert(2 * (a * scale) == a * (2 * scale)) by (nonlinear_arith);
        assert(scale * (2 * quotient_scale((2 * scaled) as nat, b as nat)) == (2 * scale)
            * quotient_scale((2 * scaled) as nat, b as nat)) by (nonlinear_arith);
        scaled = 2 * scaled;
        scale = 2 * scale;
    }
    assert(quotient_scale(a as nat, b as nat) == scale) by {
        assert(scale * 1 == scale);
    }
    assert(scale == 1 || scale <= scaled) by {
        if scaled != 0 {
            assert(scale <= scaled) by (nonlinear_arith)
                requires
                    scaled == a * scale,
                    scaled != 0,
                    a >= 0,
                    scale >= 1,
            ;
        }
    }
    let significand: u128 = round_div(scaled, b);
    assert(scale == 1 || significand <= SIGNIFICAND_LIMIT) by {
        if scale != 1 {
            let q = scaled / b;
            assert(q < 0x100_0000) by (nonlinear_arith)
                requires
                    q == scaled / b,
                    scaled < 0x100_0000 * b,
                    b > 0,
            ;
        }
    }
    assert(scale == 1 ==> scaled == a) by {
        assert(a * 1 == a);
    }
    (scale, significand)
}

/// A quotient that is not zero has at least 24 bits once it is scaled.
pub proof fn scaled_quotient_is_large(a: nat, b: nat)
    requires
        a > 0,
        b > 0,
    ensures
        2 * a * quotient_scale(a, b) >= SIGNIFICAND_LIMIT * b,
    decreases SIGNIFICAND_LIMIT * b - a,
{
    let scale = quotient_scale(a, b);
    if 2 * a < SIGNIFICAND_LIMIT * b {
        scaled_quotient_is_large(2 * a, b);
        let half = quotient_scale(2 * a, b);
        assert(scale == 2 * half);
        assert(2 * a * scale == 2 * (2 * a) * half) by (nonlinear_arith)
            requires
                scale == 2 * half,
        ;
    } else {
        assert(scale == 1);
        assert(2 * a * scale == 2 * a) by (nonlinear_arith)
            requires
                scale == 1,
        ;
    }
}

/// The significand is within half a part of the scaled quotient.
pub proof fn significand_is_near(a: nat, b: nat)
    requires
        b > 0,
    ensures
        ({
            let s = quotient_scale(a, b) as int;
            let m = quotient_significand(a, b) as int;
            let floor = (a * s) / (b as int);
            &&& s >= 1
            &&& 2 * (m * b) <= 2 * (a * s) + b
            &&& 2 * (a * s) <= 2 * (m * b) + b
            &&& a * s < (floor + 1) * b
            &&& m == floor || m == floor + 1
        }),
{
    quotient_scale_is_power(a, b);
    let num = a * quotient_scale(a, b);
    let (q, r) = (num / b, num % b);
    assert(num == q * b + r && 0 <= r < b) by (nonlinear_arith)
        requires
            b > 0,
            q == num / b,
            r == num % b,
    ;
    assert((q + 1) * b == q * b + b) by (nonlinear_arith);
}


/// A scaled quotient has no more than 24 bits before the point.
pub proof fn scaled_quotient_is_small(a: nat, b: nat)
    requires
        a < SIGNIFICAND_LIMIT * b,
        b > 0,
    ensures
        a * quotient_scale(a, b) < SIGNIFICAND_LIMIT * b,
    decreases SIGNIFICAND_LIMIT * b - a,
{
    let scale = quotient_scale(a, b);
    if a == 0 || 2 * a >= SIGNIFICAND_LIMIT * b {
        assert(a * scale == a) by (nonlinear_arith)
            requires
                scale == 1,
        ;
    } else {
        scaled_quotient_is_small(2 * a, b);
        let half = quotient_scale(2 * a, b);
        assert(a * scale == 2 * a * half) by (nonlinear_arith)
            requires
                scale == 2 * half,
        ;
    }
}

/// Rounding changes a number by no more than a part in sixteen million.
pub proof fn rounding_is_slight(x: nat)
    ensures
        SIGNIFICAND_LIMIT * (single(x) - x) <= x,
        SIGNIFICAND_LIMIT * (x - single(x)) <= x,
{
    single_is_near(x);
    spacing_bounds(x);
}

} // verus!
