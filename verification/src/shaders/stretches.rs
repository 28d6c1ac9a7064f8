//! How an edge of the screen is shared out among its LEDs, as single-precision
//! arithmetic gives it.

use vstd::prelude::*;

use crate::single;
use crate::single::{quotient, round_single, SIGNIFICAND_LIMIT};

verus! {

/// The longest edge that is shared out.
pub const EDGE_LIMIT: usize = 0x20_0000;

/// Where the LED with number `nth` begins on an edge of `size` pixels that `leds` LEDs
/// share: `size` is divided by `leds`, the quotient is multiplied by `nth`, each is
/// rounded to single precision, and the product is cut off.
pub open spec fn edge_position(size: nat, leds: nat, nth: nat) -> nat {
    single::single(single::quotient_significand(size, leds) * nth) / single::quotient_scale(
        size,
        leds,
    )
}

proof fn nearest_is_near(num: nat, den: nat)
    requires
        den > 0,
    ensures
        2 * (single::nearest(num, den) * den) <= 2 * num + den,
        2 * num <= 2 * (single::nearest(num, den) * den) + den,
{
    let q = num / den;
    let r = num % den;
    assert(num == q * den + r && 0 <= r < den) by (nonlinear_arith)
        requires
            q == num / den,
            r == num % den,
            den > 0,
    ;
    assert((q + 1) * den == q * den + den) by (nonlinear_arith);
}

proof fn scale_reaches(a: nat, b: nat)
    requires
        a > 0,
        b > 0,
    ensures
        2 * (a * single::quotient_scale(a, b)) >= SIGNIFICAND_LIMIT * b,
        2 * a < SIGNIFICAND_LIMIT * b ==> a * single::quotient_scale(a, b) < SIGNIFICAND_LIMIT * b,
    decreases SIGNIFICAND_LIMIT * b - a,
{
    let scale = single::quotient_scale(a, b);
    if 2 * a >= SIGNIFICAND_LIMIT * b {
        assert(a * 1 == a);
    } else {
        scale_reaches(2 * a, b);
        let half = single::quotient_scale(2 * a, b);
        assert(a * (2 * half) == (2 * a) * half) by (nonlinear_arith);
        if 2 * (2 * a) >= SIGNIFICAND_LIMIT * b {
            assert(half == 1);
            assert((2 * a) * 1 == 2 * a);
        }
    }
}

/// What is needed of a product of the quotient.
proof fn product_bounds(size: nat, leds: nat, nth: nat)
    requires
        0 < size <= EDGE_LIMIT,
        0 < leds <= 100,
        nth <= leds,
    ensures
        ({
            let significand = single::quotient_significand(size, leds);
            let scale = single::quotient_scale(size, leds);
            let product = significand * nth;
            &&& SIGNIFICAND_LIMIT <= 2 * significand <= 2 * SIGNIFICAND_LIMIT
            &&& scale >= 1
            &&& single::single(product) <= product + 200
            &&& product <= single::single(product) + 200
            &&& single::single(product) < (size + 1) * scale
        }),
{
    let scale = single::quotient_scale(size, leds);
    let whole = size * scale;
    let significand = single::quotient_significand(size, leds);
    let product = significand * nth;
    single::quotient_scale_is_power(size, leds);
    scale_reaches(size, leds);
    nearest_is_near(whole, leds);
    assert(2 * size < SIGNIFICAND_LIMIT * leds);
    assert(significand * leds == single::nearest(whole, leds) * leds);
    assert(2 * significand >= SIGNIFICAND_LIMIT) by (nonlinear_arith)
        requires
            2 * (significand * leds) + leds >= 2 * whole,
            2 * whole >= 0x100_0000 * leds,
            leds > 0,
            SIGNIFICAND_LIMIT == 0x100_0000,
    ;
    assert(significand <= SIGNIFICAND_LIMIT) by (nonlinear_arith)
        requires
            2 * (significand * leds) <= 2 * whole + leds,
            whole < 0x100_0000 * leds,
            leds > 0,
            SIGNIFICAND_LIMIT == 0x100_0000,
    ;
    assert(product <= significand * leds) by (nonlinear_arith)
        requires
            product == significand * nth,
            nth <= leds,
    ;
    single::single_is_near(product);
    single::spacing_bounds(product);
    let spacing = single::spacing(product);
    assert(significand * leds <= 0x100_0000 * leds) by (nonlinear_arith)
        requires
            significand <= 0x100_0000,
    ;
    assert(spacing <= 200) by {
        if 2 * product < SIGNIFICAND_LIMIT {
            assert(spacing == 1);
        }
    }
    assert(2 * single::single(product) <= 2 * product + spacing);
    assert(0x100_0000 * leds <= 2 * whole);
    assert(whole <= 0x20_0000 * scale) by (nonlinear_arith)
        requires
            whole == size * scale,
            size <= 0x20_0000,
    ;
    assert((size + 1) * scale == whole + scale) by (nonlinear_arith)
        requires
            whole == size * scale,
    ;
    if 2 * product >= SIGNIFICAND_LIMIT {
        assert(spacing * 0x100_0000 <= 2 * product);
        assert(2 * product <= 2 * whole + leds);
    } else {
        assert(spacing == 1);
        assert(2 * whole >= 0x100_0000);
    }
}

/// The LEDs' stretches follow each other along the edge and do not leave it.
pub proof fn stretches_follow_each_other(size: nat, leds: nat, nth: nat)
    requires
        0 < size <= EDGE_LIMIT,
        0 < leds <= 100,
        nth < leds,
    ensures
        edge_position(size, leds, 0) == 0,
        edge_position(size, leds, nth) <= edge_position(size, leds, nth + 1) <= size,
{
    let significand = single::quotient_significand(size, leds);
    let scale = single::quotient_scale(size, leds);
    product_bounds(size, leds, nth);
    product_bounds(size, leds, nth + 1);
    let (a, b) = (significand * nth, significand * (nth + 1));
    assert(b == a + significand) by (nonlinear_arith)
        requires
            a == significand * nth,
            b == significand * (nth + 1),
    ;
    let (lower, upper) = (single::single(a), single::single(b));
    assert(lower <= upper);
    vstd::arithmetic::div_mod::lemma_div_is_ordered(lower as int, upper as int, scale as int);
    assert(upper / scale <= size) by (nonlinear_arith)
        requires
            upper < (size + 1) * scale,
            scale >= 1,
    ;
    assert(significand * 0 == 0);
    single::single_is_near(0);
    assert(0nat / scale == 0) by (nonlinear_arith)
        requires
            scale >= 1,
    ;
}

/// No LED gets much more than its share of the edge.
pub proof fn stretches_are_even(size: nat, leds: nat, nth: nat)
    requires
        0 < size <= EDGE_LIMIT,
        0 < leds <= 100,
        nth < leds,
    ensures
        edge_position(size, leds, nth + 1) - edge_position(size, leds, nth) <= (size + 101) / leds
            + 1,
{
    let significand = single::quotient_significand(size, leds);
    let scale = single::quotient_scale(size, leds);
    let whole = size * scale;
    product_bounds(size, leds, nth);
    product_bounds(size, leds, nth + 1);
    scale_reaches(size, leds);
    nearest_is_near(whole, leds);
    let (a, b) = (significand * nth, significand * (nth + 1));
    assert(b == a + significand) by (nonlinear_arith)
        requires
            a == significand * nth,
            b == significand * (nth + 1),
    ;
    let (lower, upper) = (single::single(a), single::single(b));
    let length = upper - lower;
    assert(0 <= length <= significand + 400);
    assert(whole <= 0x20_0000 * scale) by (nonlinear_arith)
        requires
            whole == size * scale,
            size <= 0x20_0000,
    ;
    assert(leds * 4 <= scale);
    let share = (size + 101) / leds;
    assert(length < (share + 1) * scale) by {
        assert(length * leds <= significand * leds + 400 * leds) by (nonlinear_arith)
            requires
                length <= significand + 400,
                leds > 0,
        ;
        assert(significand * leds == single::nearest(whole, leds) * leds);
        assert((size + 101) * scale == whole + 101 * scale) by (nonlinear_arith)
            requires
                whole == size * scale,
        ;
        assert(length * leds <= (size + 101) * scale);
        assert(size + 101 < (share + 1) * leds) by (nonlinear_arith)
            requires
                share == (size + 101) / leds,
                leds > 0,
        ;
        assert((size + 101) * scale < ((share + 1) * leds) * scale) by (nonlinear_arith)
            requires
                size + 101 < (share + 1) * leds,
                scale >= 1,
        ;
        assert(((share + 1) * leds) * scale == ((share + 1) * scale) * leds) by (nonlinear_arith);
        assert(length < (share + 1) * scale) by (nonlinear_arith)
            requires
                length * leds < ((share + 1) * scale) * leds,
                leds > 0,
        ;
    }
    let (low, high) = (lower / scale, upper / scale);
    assert(high - low <= share + 1) by (nonlinear_arith)
        requires
            low == lower / scale,
            high == upper / scale,
            upper - lower < (share + 1) * scale,
            scale >= 1,
    ;
}

/// Where the LED with number `nth` begins.
pub fn edge_of(size: usize, leds: usize, nth: usize) -> (position: usize)
    requires
        0 < size <= EDGE_LIMIT,
        0 < leds <= 100,
        nth <= leds,
    ensures
        position == edge_position(size as nat, leds as nat, nth as nat),
        position <= size,
{
    proof {
        product_bounds(size as nat, leds as nat, nth as nat);
        if nth > 0 {
            stretches_follow_each_other(size as nat, leds as nat, (nth - 1) as nat);
        } else {
            stretches_follow_each_other(size as nat, leds as nat, 0);
        }
    }
    let (scale, significand) = quotient(size as u128, leds as u128);
    assert(significand * nth <= 0x100_0000 * 100) by (nonlinear_arith)
        requires
            0 <= significand <= 0x100_0000,
            0 <= nth <= 100,
    ;
    let product: u128 = round_single(significand * (nth as u128));
    (product / scale) as usize
}

/// An LED's stretch starts at its share of the edge, at most a pixel and a half before it and
/// half a pixel behind it; so does the end of the last one.
pub proof fn stretches_start_at_their_share(size: nat, leds: nat, nth: nat)
    requires
        0 < size <= EDGE_LIMIT,
        0 < leds <= 100,
        nth <= leds,
    ensures
        2 * (leds * edge_position(size, leds, nth) - nth * size) <= leds,
        2 * (nth * size - leds * edge_position(size, leds, nth)) <= 3 * leds,
{
    let m = single::quotient_significand(size, leds) as int;
    let s = single::quotient_scale(size, leds) as int;
    let (a, b, n) = (size as int, leds as int, nth as int);
    single::significand_is_near(size, leds);
    single::scaled_quotient_is_large(size, leds);
    let whole = a * s;
    assert(2 * a * s == 2 * whole) by (nonlinear_arith)
        requires
            whole == a * s,
    ;
    let mb = m * b;
    assert(0x100_0000 * (mb - whole) <= whole && 0x100_0000 * (whole - mb) <= whole);
    let product = m * n;
    let rounded = single::single((m * n) as nat) as int;
    assert(product >= 0) by (nonlinear_arith)
        requires
            product == m * n,
            m >= 0,
            n >= 0,
    ;
    single::rounding_is_slight((m * n) as nat);
    let p = edge_position(size, leds, nth) as int;
    assert(p * s <= rounded < p * s + s) by (nonlinear_arith)
        requires
            p == rounded / s,
            s >= 1,
            rounded >= 0,
    ;
    let (rb, pb, mbn, wn) = (rounded * b, product * b, mb * n, whole * n);
    assert(pb == mbn) by (nonlinear_arith)
        requires
            pb == product * b,
            product == m * n,
            mbn == mb * n,
            mb == m * b,
    ;
    assert(0x100_0000 * (rb - pb) <= pb && 0x100_0000 * (pb - rb) <= pb) by (nonlinear_arith)
        requires
            0x100_0000 * (rounded - product) <= product,
            0x100_0000 * (product - rounded) <= product,
            rb == rounded * b,
            pb == product * b,
            b > 0,
    ;
    assert(0x100_0000 * (mbn - wn) <= wn && 0x100_0000 * (wn - mbn) <= wn) by (nonlinear_arith)
        requires
            0x100_0000 * (mb - whole) <= whole,
            0x100_0000 * (whole - mb) <= whole,
            mbn == mb * n,
            wn == whole * n,
            n >= 0,
    ;
    let bs = b * s;
    assert(wn <= 0x20_0000 * bs) by (nonlinear_arith)
        requires
            wn == whole * n,
            whole == a * s,
            bs == b * s,
            0 <= a <= 0x20_0000,
            0 <= n <= b,
            s >= 1,
    ;
    let pbs = (b * p) * s;
    assert(pbs <= rb && rb <= pbs + bs) by (nonlinear_arith)
        requires
            p * s <= rounded < p * s + s,
            pbs == (b * p) * s,
            rb == rounded * b,
            bs == b * s,
            b > 0,
    ;
    let ns = (n * a) * s;
    assert(wn == ns) by (nonlinear_arith)
        requires
            wn == whole * n,
            whole == a * s,
            ns == (n * a) * s,
    ;
    assert(2 * (pbs - ns) <= bs && 2 * (ns - pbs) <= 3 * bs);
    assert(2 * (b * p - n * a) <= b) by (nonlinear_arith)
        requires
            2 * ((b * p) * s - (n * a) * s) <= b * s,
            s >= 1,
    ;
    assert(2 * (n * a - b * p) <= 3 * b) by (nonlinear_arith)
        requires
            2 * ((n * a) * s - (b * p) * s) <= 3 * (b * s),
            s >= 1,
    ;
}

} // verus!
