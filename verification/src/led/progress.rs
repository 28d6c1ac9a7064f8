//! How far a fade has come, as single-precision arithmetic gives it.

use vstd::prelude::*;

use crate::led::hsv::Number;
use crate::led::share;
use crate::led::share::Share;
use crate::single;
use crate::single::{quotient, round_single, SIGNIFICAND_LIMIT};

verus! {

pub const NANOS_PER_SECOND: u128 = 1_000_000_000;

/// The longest time that is measured here: as many milliseconds as 64 bits count.
pub const LONGEST: u128 = 18_446_744_073_709_551_615_000_000;

/// A time in seconds: the whole ones and the rest are each rounded, and so is their sum.
pub open spec fn seconds(nanos: nat) -> Number {
    let rest = single::single(nanos % 1_000_000_000);
    let den = single::quotient_scale(rest, 1_000_000_000);
    Number {
        num: single::single(nanos / 1_000_000_000) * den + single::quotient_significand(
            rest,
            1_000_000_000,
        ),
        den,
    }.rounded()
}

/// The share that one number is of another, at most one. A share that is smaller than a
/// part in four billion counts as zero.
pub open spec fn share_of(part: Number, total: Number) -> Share {
    let (a, b) = (part.num * total.den, total.num * part.den);
    let (num, den) = (single::quotient_significand(a, b), single::quotient_scale(a, b));
    if a * 0x1_0000_0000 < b {
        Share { num: 0, den: 1 }
    } else if num >= den {
        Share { num: 1, den: 1 }
    } else {
        Share { num: num as u32, den: den as u64 }
    }
}

/// The share of its way that a fade has come.
pub open spec fn progress(elapsed: nat, duration: nat) -> Share {
    share_of(seconds(elapsed), seconds(duration))
}

/// A number in single precision: a significand and a power of two.
spec fn is_single(number: nat, significand: nat, power: nat) -> bool {
    &&& significand <= SIGNIFICAND_LIMIT
    &&& single::power_of_two(power)
    &&& number == significand * power
}

struct Parts {
    num: u128,
    den: u128,
}

impl Parts {
    spec fn number(self) -> Number {
        Number { num: self.num as nat, den: self.den as nat }
    }
}

/// A rounded number has a significand.
proof fn rounded_is_single(x: nat)
    ensures
        is_single(
            single::single(x),
            single::nearest(x, single::spacing(x)),
            single::spacing(x),
        ),
{
    share::spacing_is_power(x);
    single::spacing_bounds(x);
    let s = single::spacing(x);
    let q = x / s;
    assert(q < SIGNIFICAND_LIMIT) by (nonlinear_arith)
        requires
            q == x / s,
            x < SIGNIFICAND_LIMIT * s,
            s >= 1,
    ;
}

/// A time in seconds.
fn seconds_of(nanos: u128) -> (parts: Parts)
    requires
        nanos <= LONGEST,
    ensures
        parts.number() == seconds(nanos as nat),
        1 <= parts.den <= 0x40_0000_0000_0000,
        single::power_of_two(parts.den as nat),
        parts.num <= (4 * (nanos / 1_000_000_000) + 6) * parts.den,
        nanos > 0 ==> parts.num > 0,
{
    let whole: u128 = nanos / NANOS_PER_SECOND;
    let rest: u128 = nanos % NANOS_PER_SECOND;
    let rounded_whole: u128 = round_single(whole);
    let rounded_rest: u128 = round_single(rest);
    let (den, significand) = quotient(rounded_rest, NANOS_PER_SECOND);
    proof {
        single::quotient_scale_is_power(rounded_rest as nat, 1_000_000_000);
        significand_bound(rounded_rest as nat, den as nat, significand as nat);
        let product = rounded_whole * den;
        assert(product <= 2 * whole * den) by (nonlinear_arith)
            requires
                product == rounded_whole * den,
                rounded_whole <= 2 * whole,
                den >= 0,
        ;
        assert(product <= 36_893_488_147_419_103 * 0x40_0000_0000_0000) by (nonlinear_arith)
            requires
                product == rounded_whole * den,
                0 <= rounded_whole <= 36_893_488_147_419_103,
                0 <= den <= 0x40_0000_0000_0000,
        ;
        assert((4 * whole + 6) * den == 2 * (2 * whole * den) + 6 * den) by (nonlinear_arith);
        if nanos > 0 {
            if whole > 0 {
                assert(product > 0) by (nonlinear_arith)
                    requires
                        product == rounded_whole * den,
                        rounded_whole > 0,
                        den > 0,
                ;
            } else {
                assert(rest > 0);
                assert(significand > 0);
            }
        }
    }
    Parts { num: round_single(rounded_whole * den + significand), den }
}

/// What is left over after the whole seconds is not more than three seconds, however it is
/// rounded.
proof fn significand_bound(rest: nat, den: nat, significand: nat)
    requires
        rest <= 2_000_000_000,
        den == single::quotient_scale(rest, 1_000_000_000),
        significand == single::quotient_significand(rest, 1_000_000_000),
        den >= 1,
    ensures
        significand <= 3 * den,
        rest > 0 ==> significand > 0,
        den <= 0x40_0000_0000_0000,
{
    let x = rest * den;
    let q = x / 1_000_000_000;
    assert(x <= 2_000_000_000 * den) by (nonlinear_arith)
        requires
            x == rest * den,
            rest <= 2_000_000_000,
    ;
    assert(significand <= q + 1);
    if rest > 0 {
        scale_reaches(rest, 1_000_000_000);
        assert(share::two_to(54) == 0x40_0000_0000_0000) by {
            reveal_with_fuel(share::two_to, 55);
        }
        assert(rest * 0x40_0000_0000_0000 >= 0x40_0000_0000_0000);
        scale_bound(rest, 1_000_000_000, 54);
        assert(2 * x >= SIGNIFICAND_LIMIT * 1_000_000_000);
    }
}

/// Scaled, a quotient has at least 23 bits before the point.
proof fn scale_reaches(a: nat, b: nat)
    requires
        a > 0,
    ensures
        2 * (a * single::quotient_scale(a, b)) >= SIGNIFICAND_LIMIT * b,
    decreases SIGNIFICAND_LIMIT * b - a,
{
    if 2 * a >= SIGNIFICAND_LIMIT * b {
        assert(a * 1 == a);
    } else {
        scale_reaches(2 * a, b);
        let s = single::quotient_scale(2 * a, b);
        assert((2 * a) * s == a * (2 * s)) by (nonlinear_arith);
    }
}

/// A quotient is not scaled further than it takes.
proof fn scale_bound(a: nat, b: nat, k: nat)
    requires
        2 * (a * share::two_to(k)) >= SIGNIFICAND_LIMIT * b,
    ensures
        single::quotient_scale(a, b) <= share::two_to(k),
    decreases k,
{
    if k == 0 {
        assert(a * 1 == a);
    } else if a == 0 || 2 * a >= SIGNIFICAND_LIMIT * b {
        two_to_is_positive(k);
    } else {
        let p = share::two_to((k - 1) as nat);
        assert((2 * a) * p == a * (2 * p)) by (nonlinear_arith);
        scale_bound(2 * a, b, (k - 1) as nat);
    }
}

proof fn two_to_is_positive(k: nat)
    ensures
        share::two_to(k) >= 1,
    decreases k,
{
    if k > 0 {
        two_to_is_positive((k - 1) as nat);
    }
}

/// The same number with as small a denominator as there is.
fn lowest(parts: Parts, Ghost(significand): Ghost<nat>, Ghost(power): Ghost<nat>) -> (low: Parts)
    requires
        parts.den >= 1,
        single::power_of_two(parts.den as nat),
        is_single(parts.num as nat, significand, power),
    ensures
        1 <= low.den <= parts.den,
        single::power_of_two(low.den as nat),
        low.den == 1 || low.num <= SIGNIFICAND_LIMIT,
        exists|g: nat| #[trigger] enlarges(low, parts, g),
{
    let mut low = parts;
    let ghost mut g: nat = 1;
    assert(enlarges(low, parts, 1));
    while low.den > 1 && low.num % 2 == 0
        invariant
            1 <= low.den <= parts.den,
            single::power_of_two(low.den as nat),
            single::power_of_two(g),
            enlarges(low, parts, g),
        decreases low.den,
    {
        let half = Parts { num: low.num / 2, den: low.den / 2 };
        proof {
            single::power_of_two_doubles(g);
            let (n, d) = (half.num as nat, half.den as nat);
            assert((2 * n) * g == n * (2 * g) && (2 * d) * g == d * (2 * g)) by (nonlinear_arith);
            g = 2 * g;
        }
        low = half;
    }
    proof {
        if low.den > 1 {
            odd_part_is_small(low.num as nat, g, significand, power);
        }
    }
    low
}

/// Whether `large` is `low` with both parts multiplied by `g`.
spec fn enlarges(low: Parts, large: Parts, g: nat) -> bool {
    g >= 1 && large.num == low.num * g && large.den == low.den * g
}

/// An odd number that makes a single-precision number with a power of two is not larger
/// than its significand.
proof fn odd_part_is_small(odd: nat, g: nat, significand: nat, power: nat)
    requires
        odd % 2 == 1,
        single::power_of_two(g),
        is_single(odd * g, significand, power),
    ensures
        odd <= significand,
{
    if power > g {
        share::smaller_power_divides(g, power);
        let c = power / g;
        power_quotient_is_even(g, power);
        assert(power == c * g) by (nonlinear_arith)
            requires
                c == power / g,
                power % g == 0,
                g >= 1,
        ;
        assert(odd * g == (significand * c) * g) by (nonlinear_arith)
            requires
                odd * g == significand * power,
                power == c * g,
        ;
        let m = significand * c;
        assert(odd == m) by (nonlinear_arith)
            requires
                odd * g == m * g,
                g >= 1,
        ;
        let h = c / 2;
        assert(m == 2 * (significand * h)) by (nonlinear_arith)
            requires
                m == significand * c,
                c == 2 * h,
        ;
    } else {
        assert(odd <= significand) by (nonlinear_arith)
            requires
                odd * g == significand * power,
                power <= g,
                g >= 1,
        ;
    }
}

/// A larger power of two is an even multiple of a smaller one.
proof fn power_quotient_is_even(small: nat, large: nat)
    requires
        single::power_of_two(small),
        single::power_of_two(large),
        1 <= small < large,
    ensures
        (large / small) % 2 == 0,
    decreases small,
{
    if small > 1 {
        power_quotient_is_even(small / 2, large / 2);
        let (x, y) = (small / 2, large / 2);
        assert((2 * y) / (2 * x) == y / x) by {
            vstd::arithmetic::div_mod::lemma_div_multiples_vanish_quotient(2, y as int, x as int);
        }
    } else {
        assert(large / 1 == large);
    }
}

proof fn nearest_of_multiples(num: nat, den: nat, g: nat)
    requires
        den >= 1,
        g >= 1,
    ensures
        single::nearest(num * g, den * g) == single::nearest(num, den),
{
    let (q, r) = (num / den, num % den);
    assert(num == q * den + r && r < den) by (nonlinear_arith)
        requires
            q == num / den,
            r == num % den,
            den >= 1,
    ;
    assert(num * g == q * (den * g) + r * g) by (nonlinear_arith)
        requires
            num == q * den + r,
    ;
    assert(r * g < den * g) by (nonlinear_arith)
        requires
            r < den,
            g >= 1,
    ;
    vstd::arithmetic::div_mod::lemma_fundamental_div_mod_converse(
        (num * g) as int,
        (den * g) as int,
        q as int,
        (r * g) as int,
    );
    assert(2 * (r * g) < den * g <==> 2 * r < den) by (nonlinear_arith)
        requires
            g >= 1,
    ;
    assert(2 * (r * g) == den * g <==> 2 * r == den) by (nonlinear_arith)
        requires
            g >= 1,
    ;
}

/// A quotient stays the same when both sides are multiplied.
proof fn quotient_of_multiples(a: nat, b: nat, g: nat)
    requires
        b >= 1,
        g >= 1,
    ensures
        single::quotient_scale(a * g, b * g) == single::quotient_scale(a, b),
        single::quotient_significand(a * g, b * g) == single::quotient_significand(a, b),
{
    scale_of_multiples(a, b, g);
    let s = single::quotient_scale(a, b);
    assert((a * g) * s == (a * s) * g) by (nonlinear_arith);
    nearest_of_multiples(a * s, b, g);
}

proof fn scale_of_multiples(a: nat, b: nat, g: nat)
    requires
        g >= 1,
    ensures
        single::quotient_scale(a * g, b * g) == single::quotient_scale(a, b),
    decreases SIGNIFICAND_LIMIT * b - a,
{
    assert(a * g == 0 <==> a == 0) by (nonlinear_arith)
        requires
            g >= 1,
    ;
    assert(2 * (a * g) >= SIGNIFICAND_LIMIT * (b * g) <==> 2 * a >= SIGNIFICAND_LIMIT * b)
        by (nonlinear_arith)
        requires
            g >= 1,
    ;
    if a != 0 && 2 * a < SIGNIFICAND_LIMIT * b {
        scale_of_multiples(2 * a, b, g);
        assert((2 * a) * g == 2 * (a * g)) by (nonlinear_arith);
    }
}

/// A share does not depend on the denominators that its numbers are written with.
proof fn share_in_lowest_terms(part: Parts, total: Parts, part_low: Parts, total_low: Parts, g: nat, h: nat)
    requires
        enlarges(part_low, part, g),
        enlarges(total_low, total, h),
        part_low.den >= 1,
        total_low.num >= 1,
    ensures
        share_of(part.number(), total.number()) == share_of(
            part_low.number(),
            total_low.number(),
        ),
{
    let (pn, pd) = (part_low.num as nat, part_low.den as nat);
    let (tn, td) = (total_low.num as nat, total_low.den as nat);
    let (a, b) = (pn * td, tn * pd);
    let k = g * h;
    assert(k >= 1) by (nonlinear_arith)
        requires
            k == g * h,
            g >= 1,
            h >= 1,
    ;
    assert((pn * g) * (td * h) == a * k && (tn * h) * (pd * g) == b * k) by (nonlinear_arith)
        requires
            a == pn * td,
            b == tn * pd,
            k == g * h,
    ;
    assert(b >= 1) by (nonlinear_arith)
        requires
            b == tn * pd,
            tn >= 1,
            pd >= 1,
    ;
    quotient_of_multiples(a, b, k);
    assert((a * k) * 0x1_0000_0000 < b * k <==> a * 0x1_0000_0000 < b) by (nonlinear_arith)
        requires
            k >= 1,
    ;
}

/// The share that a number in lowest terms is of another.
fn share_between(part: &Parts, total: &Parts) -> (share: Share)
    requires
        1 <= part.den <= 0x40_0000_0000_0000,
        1 <= total.den <= 0x40_0000_0000_0000,
        total.num >= 1,
        part.num <= 0x20_0000_0000,
        total.num <= 0x200_0000_0000_0000,
        total.den == 1 || total.num <= SIGNIFICAND_LIMIT,
    ensures
        share == share_of(part.number(), total.number()),
        share.wf(),
{
    proof {
        let (pn, pd) = (part.num as int, part.den as int);
        let (tn, td) = (total.num as int, total.den as int);
        assert(pn * td <= 0x20_0000_0000 * 0x40_0000_0000_0000) by (nonlinear_arith)
            requires
                0 <= pn <= 0x20_0000_0000,
                0 <= td <= 0x40_0000_0000_0000,
        ;
        assert(1 <= tn * pd <= 0x200_0000_0000_0000 * 0x40_0000_0000_0000) by (nonlinear_arith)
            requires
                1 <= tn <= 0x200_0000_0000_0000,
                1 <= pd <= 0x40_0000_0000_0000,
        ;
        if td == 1 {
            assert(pn * td == pn) by (nonlinear_arith)
                requires
                    td == 1,
            ;
        } else {
            assert(tn * pd <= 0x100_0000 * 0x40_0000_0000_0000) by (nonlinear_arith)
                requires
                    0 <= tn <= 0x100_0000,
                    0 <= pd <= 0x40_0000_0000_0000,
            ;
        }
    }
    let a: u128 = part.num * total.den;
    let b: u128 = total.num * part.den;
    if a * 0x1_0000_0000 < b {
        proof {
            power_of_two_one();
        }
        return Share { num: 0, den: 1 };
    }
    let (den, num) = quotient(a, b);
    proof {
        single::quotient_scale_is_power(a as nat, b as nat);
        assert(share::two_to(55) == 0x80_0000_0000_0000) by {
            reveal_with_fuel(share::two_to, 56);
        }
        scale_bound(a as nat, b as nat, 55);
        power_of_two_one();
    }
    if num >= den {
        Share { num: 1, den: 1 }
    } else {
        Share { num: num as u32, den: den as u64 }
    }
}

proof fn power_of_two_one()
    ensures
        single::power_of_two(1),
{
}

/// The share of its way that a fade has come.
pub fn progress_of(elapsed: u64, duration: u128) -> (share: Share)
    requires
        1 <= duration <= LONGEST,
    ensures
        share == progress(elapsed as nat, duration as nat),
        share.wf(),
{
    let part = seconds_of(elapsed as u128);
    let total = seconds_of(duration);
    let ghost (x, y) = (unrounded(elapsed as nat), unrounded(duration as nat));
    proof {
        rounded_is_single(x);
        rounded_is_single(y);
    }
    let part_low = lowest(
        part,
        Ghost(single::nearest(x, single::spacing(x))),
        Ghost(single::spacing(x)),
    );
    let total_low = lowest(
        total,
        Ghost(single::nearest(y, single::spacing(y))),
        Ghost(single::spacing(y)),
    );
    proof {
        let g = choose|g: nat| #[trigger] enlarges(part_low, part, g);
        let h = choose|h: nat| #[trigger] enlarges(total_low, total, h);
        numerator_bound(part_low, part, g, elapsed as nat);
        numerator_bound(total_low, total, h, duration as nat);
        share_in_lowest_terms(part, total, part_low, total_low, g, h);
    }
    share_between(&part_low, &total_low)
}

/// The numerator of a time in seconds before it is rounded.
spec fn unrounded(nanos: nat) -> nat {
    let rest = single::single(nanos % 1_000_000_000);
    single::single(nanos / 1_000_000_000) * single::quotient_scale(rest, 1_000_000_000)
        + single::quotient_significand(rest, 1_000_000_000)
}

/// In lowest terms, the numerator is no larger than the denominator allows.
proof fn numerator_bound(low: Parts, large: Parts, g: nat, nanos: nat)
    requires
        enlarges(low, large, g),
        large.num <= (4 * (nanos / 1_000_000_000) + 6) * large.den,
        low.den >= 1,
        low.den == 1 || low.num <= SIGNIFICAND_LIMIT,
    ensures
        low.num <= SIGNIFICAND_LIMIT || low.num <= 4 * (nanos / 1_000_000_000) + 6,
        large.num > 0 ==> low.num > 0,
{
    let n = low.num as nat;
    let m = (4 * (nanos / 1_000_000_000) + 6) as nat;
    if low.den == 1 {
        assert(1 * g == g);
        assert(n <= m) by (nonlinear_arith)
            requires
                n * g <= m * g,
                g >= 1,
        ;
    }
    assert(n == 0 ==> n * g == 0) by (nonlinear_arith);
}

proof fn spacing_grows(x: nat, y: nat)
    requires
        x <= y,
    ensures
        single::spacing(x) <= single::spacing(y),
    decreases y,
{
    single::spacing_bounds(y);
    if x >= SIGNIFICAND_LIMIT {
        spacing_grows(x / 2, y / 2);
    }
}

/// A larger power of two is at least twice as large.
proof fn powers_are_apart(small: nat, large: nat)
    requires
        single::power_of_two(small),
        single::power_of_two(large),
        small < large,
    ensures
        2 * small <= large,
    decreases large,
{
    if small > 1 {
        powers_are_apart(small / 2, large / 2);
    }
}

proof fn nearest_grows(x: nat, y: nat, den: nat)
    requires
        x <= y,
        den >= 1,
    ensures
        single::nearest(x, den) <= single::nearest(y, den),
{
    let (q, r) = (x / den, x % den);
    let (p, t) = (y / den, y % den);
    assert(x == q * den + r && r < den && y == p * den + t && t < den) by (nonlinear_arith)
        requires
            q == x / den,
            r == x % den,
            p == y / den,
            t == y % den,
            den >= 1,
    ;
    assert(q <= p) by (nonlinear_arith)
        requires
            q * den + r <= p * den + t,
            0 <= r,
            t < den,
            den >= 1,
    ;
}

/// Rounding keeps the order.
pub proof fn rounding_keeps_order(x: nat, y: nat)
    requires
        x <= y,
    ensures
        single::single(x) <= single::single(y),
{
    let (s, t) = (single::spacing(x), single::spacing(y));
    spacing_grows(x, y);
    share::spacing_is_power(x);
    share::spacing_is_power(y);
    single::spacing_bounds(x);
    single::spacing_bounds(y);
    if s == t {
        nearest_grows(x, y, s);
        let (n, m) = (single::nearest(x, s), single::nearest(y, s));
        assert(n * s <= m * s) by (nonlinear_arith)
            requires
                n <= m,
        ;
    } else {
        powers_are_apart(s, t);
        rounded_is_single(x);
        let n = single::nearest(x, s);
        assert(n * s <= SIGNIFICAND_LIMIT * s) by (nonlinear_arith)
            requires
                n <= SIGNIFICAND_LIMIT,
        ;
        assert(t > 1 ==> y >= SIGNIFICAND_LIMIT);
        let q = y / t;
        assert(q >= 0x80_0000) by (nonlinear_arith)
            requires
                q == y / t,
                t * 0x100_0000 <= 2 * y,
                t >= 1,
        ;
        let m = single::nearest(y, t);
        assert(m * t >= 0x80_0000 * t) by (nonlinear_arith)
            requires
                m >= 0x80_0000,
        ;
    }
}

/// Rounding does not depend on a power of two.
proof fn rounding_scales(x: nat, k: nat)
    requires
        single::power_of_two(k),
    ensures
        single::single(x * k) == single::single(x) * k,
    decreases k,
{
    if k == 1 {
        assert(x * 1 == x && single::single(x) * 1 == single::single(x));
    } else {
        let h = k / 2;
        rounding_scales(x, h);
        let y = x * h;
        let z = single::single(x);
        assert(x * k == 2 * y && z * k == 2 * (z * h)) by (nonlinear_arith)
            requires
                k == 2 * h,
                y == x * h,
        ;
        single::single_is_near(y);
        single::single_is_near(2 * y);
        if 2 * y >= SIGNIFICAND_LIMIT {
            let s = single::spacing(y);
            single::spacing_bounds(y);
            assert((2 * y) / 2 == y);
            nearest_of_multiples(y, s, 2);
            assert(y * 2 == 2 * y && s * 2 == 2 * s);
            let n = single::nearest(y, s);
            assert(n * (2 * s) == 2 * (n * s)) by (nonlinear_arith);
        }
    }
}

/// A single-precision number is not rounded any more.
proof fn single_is_fixed(number: nat, significand: nat, power: nat)
    requires
        is_single(number, significand, power),
    ensures
        single::single(number) == number,
{
    rounding_scales(significand, power);
    single::single_is_near(significand);
    if significand == SIGNIFICAND_LIMIT {
        assert(single::spacing(0x100_0000) == 2) by {
            reveal_with_fuel(single::spacing, 2);
        }
    }
}

/// Where a number of seconds is rounded up, less than one second more does not lead
/// beyond.
proof fn second_is_absorbed(whole: nat, rounded: nat)
    requires
        rounded == single::single(whole),
        rounded > whole,
    ensures
        single::single(rounded + 1) == rounded,
{
    let s = single::spacing(whole);
    let n = single::nearest(whole, s);
    single::single_is_near(whole);
    rounded_is_single(whole);
    single::spacing_bounds(whole);
    let (q, r) = (whole / s, whole % s);
    assert(whole == q * s + r && r < s) by (nonlinear_arith)
        requires
            q == whole / s,
            r == whole % s,
            s >= 1,
    ;
    assert(n == q + 1);
    assert(s > 1);
    assert((q + 1) * s == q * s + s) by (nonlinear_arith);
    powers_are_apart(1, s);
    let t = single::spacing(rounded + 1);
    spacing_grows(whole, rounded + 1);
    share::spacing_is_power(rounded + 1);
    single::spacing_bounds(rounded + 1);
    assert(t * 0x100_0000 <= 2 * (rounded + 1));
    if t == s {
        vstd::arithmetic::div_mod::lemma_fundamental_div_mod_converse(
            (rounded + 1) as int,
            t as int,
            n as int,
            1,
        );
        if s == 2 {
            assert(r == 1);
            assert(q % 2 == 1);
        } else {
            single::power_of_two_doubles(1);
            powers_are_apart(2, s);
        }
    } else {
        powers_are_apart(s, t);
        assert(n == 0x100_0000) by (nonlinear_arith)
            requires
                (2 * s) * 0x100_0000 <= 2 * (n * s + 1),
                n <= 0x100_0000,
                s >= 2,
        ;
        assert(rounded == 0x100_0000 * s);
        assert(t == 2 * s);
        vstd::arithmetic::div_mod::lemma_fundamental_div_mod_converse(
            (rounded + 1) as int,
            t as int,
            0x80_0000,
            1,
        );
    }
}

/// A longer rest is a larger number, and none is more than a second.
proof fn rest_grows(x: nat, y: nat)
    requires
        x <= y <= 1_000_000_000,
    ensures
        single::quotient_significand(x, 1_000_000_000) * single::quotient_scale(y, 1_000_000_000)
            <= single::quotient_significand(y, 1_000_000_000) * single::quotient_scale(
            x,
            1_000_000_000,
        ),
        single::quotient_significand(y, 1_000_000_000) <= single::quotient_scale(
            y,
            1_000_000_000,
        ),
{
    let b: nat = 1_000_000_000;
    let (s, t) = (single::quotient_scale(x, b), single::quotient_scale(y, b));
    let (m, n) = (single::quotient_significand(x, b), single::quotient_significand(y, b));
    single::quotient_scale_is_power(x, b);
    single::quotient_scale_is_power(y, b);
    assert(y * t <= b * t) by (nonlinear_arith)
        requires
            y <= b,
    ;
    nearest_grows(y * t, b * t, b);
    nearest_of_multiples(t, 1, b);
    assert(1 * b == b && t * b == b * t) by (nonlinear_arith);
    assert(single::nearest(t, 1) == t) by {
        assert(t / 1 == t && t % 1 == 0);
    }
    if x == 0 {
        assert(m == 0);
        assert(0 * t == 0 && n * s >= 0) by (nonlinear_arith);
    } else {
        scale_reaches(y, b);
        if s == t {
            assert(x * s <= y * s) by (nonlinear_arith)
                requires
                    x <= y,
            ;
            nearest_grows(x * s, y * s, b);
            assert(m * t <= n * s) by (nonlinear_arith)
                requires
                    m <= n,
                    s == t,
            ;
        } else {
            scale_shrinks(x, y, b);
            powers_are_apart(t, s);
            scaled_stays_below(x, b);
            let q = (x * s) / b;
            assert(m <= q + 1);
            assert(n >= (y * t) / b);
            assert(m * t <= n * s) by (nonlinear_arith)
                requires
                    m <= 0x100_0000,
                    n >= 0x80_0000,
                    2 * t <= s,
            ;
        }
    }
}

/// A larger quotient is scaled less.
proof fn scale_shrinks(x: nat, y: nat, b: nat)
    requires
        0 < x <= y,
    ensures
        single::quotient_scale(y, b) <= single::quotient_scale(x, b),
    decreases SIGNIFICAND_LIMIT * b - x,
{
    single::quotient_scale_is_power(x, b);
    if 2 * y < SIGNIFICAND_LIMIT * b {
        scale_shrinks(2 * x, 2 * y, b);
    }
}

/// Scaled up, a quotient has at most 24 bits before the point.
proof fn scaled_stays_below(a: nat, b: nat)
    requires
        b >= 1,
        a < SIGNIFICAND_LIMIT * b,
    ensures
        a * single::quotient_scale(a, b) < SIGNIFICAND_LIMIT * b,
    decreases SIGNIFICAND_LIMIT * b - a,
{
    if a == 0 || 2 * a >= SIGNIFICAND_LIMIT * b {
        assert(a * 1 == a);
    } else {
        scaled_stays_below(2 * a, b);
        let s = single::quotient_scale(2 * a, b);
        assert((2 * a) * s == a * (2 * s)) by (nonlinear_arith);
    }
}

/// Rounded numbers that are written with different powers of two keep their order.
proof fn rounded_numbers_keep_order(a: nat, s: nat, b: nat, t: nat)
    requires
        single::power_of_two(s),
        single::power_of_two(t),
        a * t <= b * s,
    ensures
        single::single(a) * t <= single::single(b) * s,
{
    rounding_keeps_order(a * t, b * s);
    rounding_scales(a, t);
    rounding_scales(b, s);
}

/// A longer time is not less seconds.
pub proof fn seconds_keep_order(shorter: nat, longer: nat)
    requires
        shorter <= longer,
    ensures
        seconds(shorter).num * seconds(longer).den <= seconds(longer).num * seconds(shorter).den,
{
    let b: nat = 1_000_000_000;
    let (v, w) = (shorter / b, longer / b);
    let (x, y) = (single::single(shorter % b), single::single(longer % b));
    let (s, t) = (single::quotient_scale(x, b), single::quotient_scale(y, b));
    let (m, n) = (single::quotient_significand(x, b), single::quotient_significand(y, b));
    let (rv, rw) = (single::single(v), single::single(w));
    single::quotient_scale_is_power(x, b);
    single::quotient_scale_is_power(y, b);
    rest_is_at_most_a_second(shorter % b);
    rest_is_at_most_a_second(longer % b);
    rest_grows(x, x);
    rest_grows(y, y);
    rounding_keeps_order(v, w);
    if v == w {
        rounding_keeps_order(shorter % b, longer % b);
        rest_grows(x, y);
        assert((rv * s + m) * t <= (rv * t + n) * s) by (nonlinear_arith)
            requires
                m * t <= n * s,
        ;
        rounded_numbers_keep_order(rv * s + m, s, rw * t + n, t);
    } else if rv + 1 <= rw {
        assert((rv * s + m) * t <= (rw * t + n) * s) by (nonlinear_arith)
            requires
                m <= s,
                rv + 1 <= rw,
        ;
        rounded_numbers_keep_order(rv * s + m, s, rw * t + n, t);
    } else {
        assert(rv == rw);
        // The whole seconds are so many that they are rounded to the same number.
        rounded_is_single(w);
        single_is_fixed(rw, single::nearest(w, single::spacing(w)), single::spacing(w));
        let (p, q) = (single::single(rv * s + m), single::single(rw * t + n));
        assert(rw * t <= q) by {
            assert(rw * t + n >= rw * t);
            rounding_keeps_order(rw * t, rw * t + n);
            rounding_scales(rw, t);
        }
        assert(p <= rw * s) by {
            assert(rv * s + m <= (rv + 1) * s) by (nonlinear_arith)
                requires
                    m <= s,
            ;
            rounding_keeps_order(rv * s + m, (rv + 1) * s);
            rounding_scales(rv + 1, s);
            if rv + 1 <= w {
                rounding_keeps_order(rv + 1, w);
            } else {
                second_is_absorbed(v, rv);
            }
            let c = single::single(rv + 1);
            assert(c * s <= rw * s) by (nonlinear_arith)
                requires
                    c <= rw,
            ;
        }
        assert(p * t <= q * s) by (nonlinear_arith)
            requires
                rw * t <= q,
                p <= rw * s,
        ;
    }
}

proof fn rest_is_at_most_a_second(rest: nat)
    requires
        rest <= 1_000_000_000,
    ensures
        single::single(rest) <= 1_000_000_000,
{
    rounding_keeps_order(rest, 1_000_000_000);
    assert(single::power_of_two(64)) by {
        reveal_with_fuel(single::power_of_two, 7);
    }
    single_is_fixed(1_000_000_000, 15_625_000, 64);
}

/// A fade starts at nothing of its way, and when its time is over, it has come all of it.
pub proof fn fade_takes_its_time(elapsed: nat, duration: nat)
    requires
        duration > 0,
    ensures
        progress(0, duration) == (Share { num: 0, den: 1 }),
        elapsed >= duration ==> progress(elapsed, duration) == (Share { num: 1, den: 1 }),
{
    seconds_are_positive(duration);
    seconds_are_positive(elapsed);
    let (none, part, total) = (seconds(0), seconds(elapsed), seconds(duration));
    assert(none.num == 0 && none.den == 1) by {
        single::single_is_near(0);
    }
    assert(0 * total.den == 0 && total.num * 1 == total.num);
    if elapsed >= duration {
        seconds_keep_order(duration, elapsed);
        let (a, b) = (part.num * total.den, total.num * part.den);
        assert(b > 0) by (nonlinear_arith)
            requires
                b == total.num * part.den,
                total.num > 0,
                part.den > 0,
        ;
        let den = single::quotient_scale(a, b);
        let q = (a * den) / b;
        single::quotient_scale_is_power(a, b);
        assert(q >= den) by (nonlinear_arith)
            requires
                q == (a * den) / b,
                a >= b,
                b > 0,
        ;
    }
}

proof fn seconds_are_positive(nanos: nat)
    ensures
        seconds(nanos).den >= 1,
        nanos > 0 ==> seconds(nanos).num > 0,
{
    let b: nat = 1_000_000_000;
    let (whole, rest) = (nanos / b, single::single(nanos % b));
    single::single_is_near(whole);
    single::single_is_near(nanos % b);
    single::quotient_scale_is_power(rest, b);
    rest_is_at_most_a_second(nanos % b);
    let den = single::quotient_scale(rest, b);
    significand_bound(rest, den, single::quotient_significand(rest, b));
    let rounded = single::single(whole);
    if whole > 0 {
        assert(rounded * den > 0) by (nonlinear_arith)
            requires
                rounded > 0,
                den > 0,
        ;
    }
    single::single_is_near(unrounded(nanos));
}

proof fn scaled(x: int, y: int, k: int)
    requires
        x <= y,
        k >= 0,
    ensures
        x * k <= y * k,
{
    assert(x * k <= y * k) by (nonlinear_arith)
        requires
            x <= y,
            k >= 0,
    ;
}

/// A time in seconds is that time, up to five parts in sixteen million.
proof fn seconds_are_near(nanos: nat)
    ensures
        ({
            let (num, den) = (seconds(nanos).num as int, seconds(nanos).den as int);
            &&& den >= 1
            &&& 0x100_0000 * (num * 1_000_000_000 - nanos * den) <= 5 * (nanos * den)
            &&& 0x100_0000 * (nanos * den - num * 1_000_000_000) <= 5 * (nanos * den)
        }),
{
    let b: nat = 1_000_000_000;
    let (w, r) = (nanos / b, nanos % b);
    let (rw, rr) = (single::single(w), single::single(r));
    let s = single::quotient_scale(rr, b);
    let m = single::quotient_significand(rr, b);
    single::rounding_is_slight(w);
    single::rounding_is_slight(r);
    single::significand_is_near(rr, b);
    let (whole, rest) = (w * s, r * s);
    assert(nanos * s == b * whole + rest) by (nonlinear_arith)
        requires
            nanos == b * w + r,
            whole == w * s,
            rest == r * s,
    ;
    let (rounded_whole, rounded_rest) = (rw * s, rr * s);
    scaled(0x100_0000 * (rw - w), w as int, s as int);
    scaled(0x100_0000 * (w - rw), w as int, s as int);
    scaled(0x100_0000 * (rr - r), r as int, s as int);
    scaled(0x100_0000 * (r - rr), r as int, s as int);
    assert(0x100_0000 * (rw - w) * s == 0x100_0000 * (rounded_whole - whole) && 0x100_0000 * (w
        - rw) * s == 0x100_0000 * (whole - rounded_whole) && 0x100_0000 * (rr - r) * s
        == 0x100_0000 * (rounded_rest - rest) && 0x100_0000 * (r - rr) * s == 0x100_0000 * (rest
        - rounded_rest)) by (nonlinear_arith)
        requires
            whole == w * s,
            rest == r * s,
            rounded_whole == rw * s,
            rounded_rest == rr * s,
    ;
    if rr > 0 {
        single::scaled_quotient_is_large(rr, b);
        assert(2 * rr * s == 2 * rounded_rest) by (nonlinear_arith)
            requires
                rounded_rest == rr * s,
        ;
    } else {
        assert(rounded_rest == 0) by (nonlinear_arith)
            requires
                rounded_rest == rr * s,
                rr == 0,
        ;
        assert(m == 0);
    }
    single::rounding_is_slight(rounded_whole + m);
}

/// The share of its way that a fade has come is the share of its time that has passed, up to
/// a millionth of the way: it moves evenly.
pub proof fn fade_moves_evenly(elapsed: nat, duration: nat)
    requires
        0 < duration,
        elapsed <= duration,
    ensures
        ({
            let share = progress(elapsed, duration);
            &&& share.den >= 1
            &&& 0x10_0000 * (share.num * duration - elapsed * share.den) <= duration * share.den
            &&& 0x10_0000 * (elapsed * share.den - share.num * duration) <= duration * share.den
        }),
{
    let (e, d) = (elapsed as int, duration as int);
    let (part, total) = (seconds(elapsed), seconds(duration));
    seconds_are_near(elapsed);
    seconds_are_near(duration);
    seconds_are_positive(duration);
    let (pn, pd, tn, td) = (part.num as int, part.den as int, total.num as int, total.den as int);
    let (a, b) = (pn * td, tn * pd);
    assert(b > 0) by (nonlinear_arith)
        requires
            b == tn * pd,
            tn > 0,
            pd >= 1,
    ;
    let (ad, eb) = (a * d, e * b);
    quotients_are_near(e, d, pn, pd, tn, td);
    assert(eb >= 0) by (nonlinear_arith)
        requires
            eb == e * b,
            e >= 0,
            b > 0,
    ;
    let (num, den) = (
        single::quotient_significand(a as nat, b as nat) as int,
        single::quotient_scale(a as nat, b as nat) as int,
    );
    single::significand_is_near(a as nat, b as nat);
    let ed = e * den;
    assert(0x100_0000 * (num * d - ed) <= 13 * ed && 0x100_0000 * (ed - num * d) <= 13 * ed) by {
        share_is_near(a, b, e, d, num, den);
    }
    assert(ed <= d * den) by (nonlinear_arith)
        requires
            ed == e * den,
            0 <= e <= d,
            den >= 1,
    ;
    assert(ed >= 0) by (nonlinear_arith)
        requires
            ed == e * den,
            0 <= e,
            den >= 1,
    ;
    let share = progress(elapsed, duration);
    if a * 0x1_0000_0000 < b {
        assert(0x10_0000 * e <= d) by {
            scaled(a * 0x1_0000_0000, b, d);
            assert(a * 0x1_0000_0000 * d == 0x1_0000_0000 * ad) by (nonlinear_arith)
                requires
                    ad == a * d,
            ;
            assert(0x10_0000 * eb <= b * d);
            assert(0x10_0000 * e <= d) by (nonlinear_arith)
                requires
                    0x10_0000 * (e * b) <= b * d,
                    b > 0,
            ;
        }
        assert(share.num == 0 && share.den == 1);
        assert(share.num * duration == 0) by (nonlinear_arith)
            requires
                share.num == 0,
        ;
    } else if num >= den {
        assert(den * d <= num * d) by (nonlinear_arith)
            requires
                den <= num,
                d > 0,
        ;
        let gap = d - e;
        assert(gap * den == den * d - ed) by (nonlinear_arith)
            requires
                gap == d - e,
                ed == e * den,
        ;
        assert(d * den == den * d) by (nonlinear_arith);
        assert(0x10_0000 * (gap * den) <= d * den);
        assert(0x10_0000 * gap <= d) by (nonlinear_arith)
            requires
                0x10_0000 * (gap * den) <= d * den,
                den >= 1,
        ;
        assert(share.num == 1 && share.den == 1);
    } else {
        assert(den < 0x100_0000_0000_0000 && num <= 0x100_0000) by {
            share_has_room(a, b, num, den);
        }
        assert(share.num == num && share.den == den);
    }
}

/// Two times in seconds stand to each other as the times do, up to eleven parts in sixteen
/// million.
proof fn quotients_are_near(e: int, d: int, pn: int, pd: int, tn: int, td: int)
    requires
        e >= 0,
        d > 0,
        pd >= 1,
        td >= 1,
        pn >= 0,
        tn >= 0,
        0x100_0000 * (pn * 1_000_000_000 - e * pd) <= 5 * (e * pd),
        0x100_0000 * (e * pd - pn * 1_000_000_000) <= 5 * (e * pd),
        0x100_0000 * (tn * 1_000_000_000 - d * td) <= 5 * (d * td),
        0x100_0000 * (d * td - tn * 1_000_000_000) <= 5 * (d * td),
    ensures
        0x100_0000 * ((pn * td) * d - e * (tn * pd)) <= 11 * (e * (tn * pd)),
        0x100_0000 * (e * (tn * pd) - (pn * td) * d) <= 11 * (e * (tn * pd)),
{
    let (x, y) = (e * pd, d * td);
    let (p, t) = (pn * 1_000_000_000, tn * 1_000_000_000);
    let z = x * y;
    assert(x >= 0 && y >= 0) by (nonlinear_arith)
        requires
            x == e * pd,
            y == d * td,
            e >= 0,
            d > 0,
            pd >= 1,
            td >= 1,
    ;
    let (py, xt) = (p * y, x * t);
    scaled(0x100_0000 * (p - x), 5 * x, y);
    scaled(0x100_0000 * (x - p), 5 * x, y);
    scaled(0x100_0000 * (t - y), 5 * y, x);
    scaled(0x100_0000 * (y - t), 5 * y, x);
    assert(0x100_0000 * (p - x) * y == 0x100_0000 * (py - z) && 0x100_0000 * (x - p) * y
        == 0x100_0000 * (z - py) && 5 * x * y == 5 * z && 0x100_0000 * (t - y) * x == 0x100_0000 * (
    xt - z) && 0x100_0000 * (y - t) * x == 0x100_0000 * (z - xt) && 5 * y * x == 5 * z)
        by (nonlinear_arith)
        requires
            z == x * y,
            py == p * y,
            xt == x * t,
    ;
    let (ad, eb) = ((pn * td) * d, e * (tn * pd));
    assert(py == 1_000_000_000 * ad && xt == 1_000_000_000 * eb) by (nonlinear_arith)
        requires
            py == p * y,
            xt == x * t,
            p == pn * 1_000_000_000,
            t == tn * 1_000_000_000,
            x == e * pd,
            y == d * td,
            ad == (pn * td) * d,
            eb == e * (tn * pd),
    ;
}

/// The rounded quotient of two numbers that stand to each other as `e` to `d` does so, too.
proof fn share_is_near(a: int, b: int, e: int, d: int, num: int, den: int)
    requires
        a >= 0,
        b > 0,
        e >= 0,
        d > 0,
        num == single::quotient_significand(a as nat, b as nat),
        den == single::quotient_scale(a as nat, b as nat),
        0x100_0000 * (a * d - e * b) <= 11 * (e * b),
        0x100_0000 * (e * b - a * d) <= 11 * (e * b),
    ensures
        0x100_0000 * (num * d - e * den) <= 13 * (e * den),
        0x100_0000 * (e * den - num * d) <= 13 * (e * den),
{
    single::significand_is_near(a as nat, b as nat);
    let (nb, aden) = (num * b, a * den);
    if a > 0 {
        single::scaled_quotient_is_large(a as nat, b as nat);
        assert(2 * a * den == 2 * aden) by (nonlinear_arith)
            requires
                aden == a * den,
        ;
    } else {
        assert(aden == 0) by (nonlinear_arith)
            requires
                aden == a * den,
                a == 0,
        ;
        assert(num == 0) by (nonlinear_arith)
            requires
                2 * (num * b) <= b,
                b > 0,
                num >= 0,
        ;
        assert(nb == 0) by (nonlinear_arith)
            requires
                nb == num * b,
                num == 0,
        ;
    }
    assert(0x100_0000 * (nb - aden) <= aden && 0x100_0000 * (aden - nb) <= aden);
    let (ad, eb) = (a * d, e * b);
    let (nbd, adend, ebden) = (nb * d, aden * d, eb * den);
    scaled(0x100_0000 * (nb - aden), aden, d);
    scaled(0x100_0000 * (aden - nb), aden, d);
    scaled(0x100_0000 * (ad - eb), 11 * eb, den);
    scaled(0x100_0000 * (eb - ad), 11 * eb, den);
    assert(0x100_0000 * (nb - aden) * d == 0x100_0000 * (nbd - adend) && 0x100_0000 * (aden - nb)
        * d == 0x100_0000 * (adend - nbd)) by (nonlinear_arith)
        requires
            nbd == nb * d,
            adend == aden * d,
    ;
    assert(ad * den == adend) by (nonlinear_arith)
        requires
            ad == a * d,
            aden == a * den,
            adend == aden * d,
    ;
    assert(0x100_0000 * (ad - eb) * den == 0x100_0000 * (ad * den - ebden) && 0x100_0000 * (eb - ad)
        * den == 0x100_0000 * (ebden - ad * den) && 11 * eb * den == 11 * ebden)
        by (nonlinear_arith)
        requires
            ebden == eb * den,
    ;
    let (nd, ed) = (num * d, e * den);
    assert(nbd == b * nd && ebden == b * ed) by (nonlinear_arith)
        requires
            nbd == nb * d,
            nb == num * b,
            nd == num * d,
            ebden == eb * den,
            eb == e * b,
            ed == e * den,
    ;
    assert(0x100_0000 * (nbd - ebden) <= 13 * ebden && 0x100_0000 * (ebden - nbd) <= 13 * ebden);
    assert(0x100_0000 * (nd - ed) <= 13 * ed) by (nonlinear_arith)
        requires
            0x100_0000 * (b * nd - b * ed) <= 13 * (b * ed),
            b > 0,
    ;
    assert(0x100_0000 * (ed - nd) <= 13 * ed) by (nonlinear_arith)
        requires
            0x100_0000 * (b * ed - b * nd) <= 13 * (b * ed),
            b > 0,
    ;
}

/// A quotient below one that is not too small has room in its fields.
proof fn share_has_room(a: int, b: int, num: int, den: int)
    requires
        a >= 0,
        b > 0,
        a * 0x1_0000_0000 >= b,
        num == single::quotient_significand(a as nat, b as nat),
        den == single::quotient_scale(a as nat, b as nat),
        num < den,
    ensures
        den < 0x100_0000_0000_0000,
        num <= 0x100_0000,
{
    single::significand_is_near(a as nat, b as nat);
    if a >= 0x100_0000 * b {
        assert(den == 1);
        assert(num == 0);
        assert(a * den == a) by (nonlinear_arith)
            requires
                den == 1,
        ;
        assert(num * b == 0) by (nonlinear_arith)
            requires
                num == 0,
        ;
    }
    single::scaled_quotient_is_small(a as nat, b as nat);
    assert(den < 0x100_0000_0000_0000) by (nonlinear_arith)
        requires
            a * den < 0x100_0000 * b,
            a * 0x1_0000_0000 >= b,
            b > 0,
            den >= 1,
    ;
    assert(num <= 0x100_0000) by (nonlinear_arith)
        requires
            2 * (num * b) <= 2 * (a * den) + b,
            a * den < 0x100_0000 * b,
            b > 0,
    ;
}

} // verus!
