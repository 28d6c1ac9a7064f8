//! Hue, saturation and value to red, green and blue, as single-precision arithmetic
//! gives it.

use vstd::prelude::*;

use crate::ledcomm::Pixel;
use crate::single;
use crate::single::{quotient, round_single};

verus! {

/// A single-precision number from zero to one, or a small multiple of one: `num`
/// parts of `den`, which is a power of two.
pub struct Number {
    pub num: nat,
    pub den: nat,
}

impl Number {
    pub open spec fn rounded(self) -> Number {
        Number { num: single::single(self.num), ..self }
    }

    /// A byte divided by 255.
    pub open spec fn of_byte(b: u8) -> Number {
        Number {
            num: single::quotient_significand(b as nat, 255),
            den: single::quotient_scale(b as nat, 255),
        }
    }

    pub open spec fn times(self, factor: nat) -> Number {
        Number { num: self.num * factor, ..self }.rounded()
    }

    pub open spec fn product(self, other: Number) -> Number {
        Number { num: self.num * other.num, den: self.den * other.den }.rounded()
    }

    pub open spec fn one_minus(self) -> Number {
        Number { num: (self.den - self.num) as nat, ..self }.rounded()
    }

    pub open spec fn whole(self) -> nat {
        self.num / self.den
    }

    pub open spec fn fraction(self) -> Number {
        Number { num: self.num % self.den, ..self }
    }

    /// The number as a channel value: scaled to 255 and rounded, up where two values
    /// are equally near.
    pub open spec fn channel(self) -> nat {
        let scaled = self.times(255);
        let rounded = (2 * scaled.num + scaled.den) / (2 * scaled.den);
        if rounded <= 255 {
            rounded
        } else {
            255
        }
    }

    pub open spec fn wf(self) -> bool {
        self.den >= 1 && single::power_of_two(self.den)
    }

    /// Between zero and one.
    pub open spec fn is_share(self) -> bool {
        self.wf() && self.num <= self.den
    }
}

/// The colour's channels.
pub open spec fn rgb(hue: u8, sat: u8, val: u8) -> Seq<nat> {
    let h = Number::of_byte(hue).times(6);
    let s = Number::of_byte(sat);
    let v = Number::of_byte(val);
    let f = h.fraction();
    let p = v.product(s.one_minus());
    let q = v.product(s.product(f).one_minus());
    let t = v.product(s.product(f.one_minus()).one_minus());
    let sector = h.whole() % 6;
    if sat == 0 {
        seq![val as nat, val as nat, val as nat]
    } else if sector == 0 {
        seq![v.channel(), t.channel(), p.channel()]
    } else if sector == 1 {
        seq![q.channel(), v.channel(), p.channel()]
    } else if sector == 2 {
        seq![p.channel(), v.channel(), t.channel()]
    } else if sector == 3 {
        seq![p.channel(), q.channel(), v.channel()]
    } else if sector == 4 {
        seq![t.channel(), p.channel(), v.channel()]
    } else {
        seq![v.channel(), p.channel(), q.channel()]
    }
}

/// [`Number`] in fixed width.
#[derive(Clone, Copy)]
struct Parts {
    num: u128,
    den: u128,
}

impl View for Parts {
    type V = Number;

    closed spec fn view(&self) -> Number {
        Number { num: self.num as nat, den: self.den as nat }
    }
}

/// A byte divided by 255.
fn byte_share(b: u8) -> (parts: Parts)
    ensures
        parts@ == Number::of_byte(b),
        parts@.is_share(),
        parts.den <= 0x1_0000_0000,
{
    let (den, num) = quotient(b as u128, 255);
    let parts = Parts { num, den };
    proof {
        single::quotient_scale_is_power(b as nat, 255);
        scale_of_byte(b as nat);
        let p = den as nat;
        let x = b as nat * p;
        assert(x <= 255 * p) by (nonlinear_arith)
            requires
                x == b as nat * p,
                b <= 255,
        ;
        assert(num <= den);
    }
    parts
}

/// The scale of a byte over 255 fits 33 bits.
proof fn scale_of_byte(b: nat)
    requires
        b <= 255,
    ensures
        single::quotient_scale(b, 255) <= 0x1_0000_0000,
{
    if b > 0 {
        scale_steps(b, 1);
        assert(1 * single::quotient_scale(b, 255) == single::quotient_scale(b, 255));
    }
}

proof fn scale_steps(a: nat, done: nat)
    requires
        a >= done,
        done >= 1,
        2 * a < 2 * 0x100_0000 * 255,
    ensures
        done * single::quotient_scale(a, 255) <= 0x1_0000_0000,
    decreases 0x100_0000 * 255 - a,
{
    if 2 * a >= single::SIGNIFICAND_LIMIT * 255 {
        assert(single::quotient_scale(a, 255) == 1);
    } else {
        assert(done * (2 * single::quotient_scale(2 * a, 255)) == (2 * done)
            * single::quotient_scale(2 * a, 255)) by (nonlinear_arith);
        scale_steps(2 * a, 2 * done);
    }
}

fn times(a: Parts, factor: u128) -> (parts: Parts)
    requires
        a.num * factor < single::ROUNDING_LIMIT,
    ensures
        parts@ == a@.times(factor as nat),
        parts.den == a.den,
        parts.num <= 2 * (a.num * factor),
{
    Parts { num: round_single(a.num * factor), den: a.den }
}

fn product(a: Parts, b: Parts) -> (parts: Parts)
    requires
        a@.is_share(),
        b@.is_share(),
        a.den * b.den < single::ROUNDING_LIMIT,
    ensures
        parts@ == a@.product(b@),
        parts@.is_share(),
        parts.den == a.den * b.den,
{
    proof {
        assert(a.num * b.num <= a.den * b.den) by (nonlinear_arith)
            requires
                0 <= a.num <= a.den,
                0 <= b.num <= b.den,
        ;
        single::power_of_two_product(a.den as nat, b.den as nat);
        single::single_below_power((a.num * b.num) as nat, (a.den * b.den) as nat);
        assert(1 <= a.den * b.den) by (nonlinear_arith)
            requires
                1 <= a.den,
                1 <= b.den,
        ;
    }
    Parts { num: round_single(a.num * b.num), den: a.den * b.den }
}

fn one_minus(a: Parts) -> (parts: Parts)
    requires
        a@.is_share(),
        a.den < single::ROUNDING_LIMIT,
    ensures
        parts@ == a@.one_minus(),
        parts@.is_share(),
        parts.den == a.den,
{
    proof {
        single::single_below_power((a.den - a.num) as nat, a.den as nat);
    }
    Parts { num: round_single(a.den - a.num), den: a.den }
}

fn channel(a: Parts) -> (value: u8)
    requires
        a@.is_share(),
        a.den <= 0x1_0000_0000_0000_0000_0000_0000,
    ensures
        value == a@.channel(),
{
    let scaled = times(a, 255);
    let rounded: u128 = (2 * scaled.num + scaled.den) / (2 * scaled.den);
    if rounded > 255 {
        255
    } else {
        rounded as u8
    }
}

proof fn products_fit(a: int, b: int, c: int)
    requires
        1 <= a <= 0x1_0000_0000,
        1 <= b <= 0x1_0000_0000,
        1 <= c <= 0x1_0000_0000,
    ensures
        1 <= c * a <= 0x1_0000_0000_0000_0000,
        1 <= a * b <= 0x1_0000_0000_0000_0000,
        1 <= c * (a * b) <= 0x1_0000_0000_0000_0000_0000_0000,
{
    assert(1 <= a * b <= 0x1_0000_0000_0000_0000) by (nonlinear_arith)
        requires
            1 <= a <= 0x1_0000_0000,
            1 <= b <= 0x1_0000_0000,
    ;
    assert(1 <= c * a <= 0x1_0000_0000_0000_0000) by (nonlinear_arith)
        requires
            1 <= a <= 0x1_0000_0000,
            1 <= c <= 0x1_0000_0000,
    ;
    let ab = a * b;
    assert(1 <= c * ab <= 0x1_0000_0000_0000_0000_0000_0000) by (nonlinear_arith)
        requires
            1 <= ab <= 0x1_0000_0000_0000_0000,
            1 <= c <= 0x1_0000_0000,
    ;
}

/// The colour with this hue, saturation and value.
pub fn hsv_to_rgb(hue: u8, sat: u8, val: u8) -> (pixel: Pixel)
    ensures
        forall|c: int| 0 <= c < 3 ==> #[trigger] pixel@[c] == rgb(hue, sat, val)[c],
{
    if sat == 0 {
        return [val, val, val];
    }
    let h = times(byte_share(hue), 6);
    let s = byte_share(sat);
    let v = byte_share(val);
    let sector: u128 = h.num / h.den;
    let f = Parts { num: h.num % h.den, den: h.den };
    assert(f@ == h@.fraction());
    proof {
        products_fit(s.den as int, f.den as int, v.den as int);
    }
    let p = product(v, one_minus(s));
    let q = product(v, one_minus(product(s, f)));
    let t = product(v, one_minus(product(s, one_minus(f))));
    match sector % 6 {
        0 => [channel(v), channel(t), channel(p)],
        1 => [channel(q), channel(v), channel(p)],
        2 => [channel(p), channel(v), channel(t)],
        3 => [channel(p), channel(q), channel(v)],
        4 => [channel(t), channel(p), channel(v)],
        _ => [channel(v), channel(p), channel(q)],
    }
}

/// What a byte divided by 255 is, up to rounding.
proof fn byte_is_near(b: nat)
    requires
        0 < b <= 255,
    ensures
        ({
            let s = single::quotient_scale(b, 255) as int;
            let m = single::quotient_significand(b, 255) as int;
            &&& s >= 0x80_0000
            &&& single::power_of_two(s as nat)
            &&& 2 * (m * 255) <= 2 * (b * s) + 255
            &&& 2 * (b * s) <= 2 * (m * 255) + 255
            &&& 0 <= m <= 0x100_0000
        }),
{
    let s = single::quotient_scale(b, 255) as int;
    single::quotient_scale_is_power(b, 255);
    single::significand_is_near(b, 255);
    single::scaled_quotient_is_large(b, 255);
    single::scaled_quotient_is_small(b, 255);
    assert(s >= 0x80_0000) by (nonlinear_arith)
        requires
            2 * b * s >= 0x100_0000 * 255,
            0 < b <= 255,
    ;
}

/// The whole of a byte is exactly one.
proof fn full_byte_is_one()
    ensures
        single::quotient_scale(255, 255) == 0x80_0000,
        single::quotient_significand(255, 255) == 0x80_0000,
{
    reveal_with_fuel(single::quotient_scale, 25);
}

proof fn quotient_is(n: int, d: int, q: int)
    requires
        d > 0,
        q * d <= n < (q + 1) * d,
    ensures
        n / d == q,
{
    assert(n / d == q) by (nonlinear_arith)
        requires
            d > 0,
            q * d <= n < (q + 1) * d,
    ;
}

/// A number near to so many 255ths is that channel value.
proof fn near_number_is_channel(number: Number, value: nat)
    requires
        number.den >= 1,
        value <= 255,
        16 * (255 * number.num - value * number.den) <= 7 * number.den,
        16 * (value * number.den - 255 * number.num) <= 7 * number.den,
    ensures
        number.channel() == value,
{
    let (num, den) = (number.num as int, number.den as int);
    let goal = value * den;
    let c = single::single(number.num * 255) as int;
    single::rounding_is_slight(number.num * 255);
    assert(goal <= 255 * den) by (nonlinear_arith)
        requires
            goal == value * den,
            value <= 255,
            den >= 1,
    ;
    assert(2 * (c - goal) < den && 2 * (goal - c) <= den);
    assert(value * (2 * den) == 2 * goal && (value + 1) * (2 * den) == 2 * goal + 2 * den)
        by (nonlinear_arith)
        requires
            goal == value * den,
    ;
    quotient_is(2 * c + den, 2 * den, value as int);
}

/// A byte as a share of 255 is that byte again as a channel value.
pub proof fn byte_is_kept(b: u8)
    ensures
        Number::of_byte(b).channel() == b,
{
    let number = Number::of_byte(b);
    if b == 0 {
        assert(single::quotient_scale(0, 255) == 1);
        assert(number.num == 0 && number.den == 1);
        near_number_is_channel(number, 0);
    } else {
        byte_is_near(b as nat);
        near_number_is_channel(number, b as nat);
    }
}

/// A third and two thirds of the circle, which are rounded, are whole parts of it again once
/// they are multiplied.
proof fn third_is_exact()
    ensures
        single::quotient_scale(85, 255) == 0x200_0000,
        single::quotient_scale(170, 255) == 0x100_0000,
        Number::of_byte(85).times(6).num == 0x400_0000,
        Number::of_byte(170).times(6).num == 0x400_0000,
{
    assert(single::quotient_scale(85, 255) == 0x200_0000) by {
        reveal_with_fuel(single::quotient_scale, 27);
    }
    assert(single::quotient_scale(170, 255) == 0x100_0000) by {
        reveal_with_fuel(single::quotient_scale, 26);
    }
    let product: nat = 2_852_126_720;
    assert(85 * single::quotient_scale(85, 255) == product);
    assert(170 * single::quotient_scale(170, 255) == product);
    assert(product / 255 == 11_184_810 && product % 255 == 170);
    assert(single::nearest(product, 255) == 11_184_811);
    let third: nat = 67_108_866;
    assert(single::spacing(third) == 8) by {
        reveal_with_fuel(single::spacing, 5);
    }
    assert(third / 8 == 8_388_608 && third % 8 == 2);
    assert(single::nearest(third, 8) == 8_388_608);
    assert(single::single(third) == 0x400_0000);
    assert(Number::of_byte(85).num == 11_184_811 && Number::of_byte(170).num == 11_184_811);
    assert(Number::of_byte(85).num * 6 == third && Number::of_byte(170).num * 6 == third);
}

/// The whole circle is exact.
proof fn whole_circle_is_exact()
    ensures
        single::quotient_scale(255, 255) == 0x80_0000,
        Number::of_byte(255).times(6).num == 0x300_0000,
{
    full_byte_is_one();
    let circle: nat = 0x300_0000;
    assert(single::spacing(circle) == 4) by {
        reveal_with_fuel(single::spacing, 4);
    }
    assert(circle / 4 == 0xc0_0000 && circle % 4 == 0);
    assert(single::nearest(circle, 4) == 0xc0_0000);
    assert(single::single(circle) == 0x300_0000);
    assert(Number::of_byte(255).num * 6 == circle);
}

proof fn nothing_is_left(num: int, s: int, r: int)
    requires
        r == 0,
        (s == 0x200_0000 && num == 0x400_0000) || (s == 0x100_0000 && num == 0x400_0000) || (s
            == 0x80_0000 && num == 0x300_0000),
    ensures
        num % s == 0,
        r * s == 0,
{
    assert(r * s == 0) by (nonlinear_arith)
        requires
            r == 0,
    ;
}

/// The part of the circle that a hue lies in, and how far it has come there: exactly up to
/// a small part of the scale.
proof fn hue_is_near(hue: u8)
    ensures
        ({
            let h = Number::of_byte(hue).times(6);
            let k = (6 * hue) / 255;
            let f = h.fraction().num as int;
            &&& h.den >= 1
            &&& single::power_of_two(h.den)
            &&& h.whole() == k
            &&& 0 <= f < h.den
            &&& 16 * (255 * f - (6 * hue - 255 * k) * h.den) <= h.den
            &&& 16 * ((6 * hue - 255 * k) * h.den - 255 * f) <= h.den
        }),
{
    let number = Number::of_byte(hue);
    let h = number.times(6);
    let k = (6 * hue) / 255;
    let r = 6 * hue - 255 * k;
    let (num, s) = (h.num as int, h.den as int);
    if hue == 0 {
        assert(single::quotient_scale(0, 255) == 1);
        assert(number.num == 0 && number.den == 1);
        single::rounding_is_slight(0);
        assert(num == 0 && r * s == 0);
    } else if hue == 85 {
        third_is_exact();
        single::quotient_scale_is_power(85, 255);
        assert(s == 0x200_0000 && num == 0x400_0000);
        quotient_is(num, s, 2);
        nothing_is_left(num, s, r);
    } else if hue == 170 {
        third_is_exact();
        single::quotient_scale_is_power(170, 255);
        assert(s == 0x100_0000 && num == 0x400_0000);
        quotient_is(num, s, 4);
        nothing_is_left(num, s, r);
    } else if hue == 255 {
        whole_circle_is_exact();
        single::quotient_scale_is_power(255, 255);
        assert(s == 0x80_0000 && num == 0x300_0000);
        quotient_is(num, s, 6);
        nothing_is_left(num, s, r);
    } else {
        byte_is_near(hue as nat);
        let m = number.num as int;
        single::rounding_is_slight((m * 6) as nat);
        assert(3 <= r <= 252);
        let whole = hue * s;
        assert(-2295 <= 255 * num - 6 * whole <= 2295);
        assert(6 * whole == 255 * (k * s) + r * s) by (nonlinear_arith)
            requires
                whole == hue * s,
                6 * hue == 255 * k + r,
        ;
        assert(3 * s <= r * s <= 252 * s) by (nonlinear_arith)
            requires
                3 <= r <= 252,
                s >= 0,
        ;
        assert((k + 1) * s == k * s + s) by (nonlinear_arith);
        quotient_is(num, s, k);
        assert(num == k * s + num % s) by (nonlinear_arith)
            requires
                num / s == k,
                s > 0,
        ;
    }
}

/// What a full colour's rising or falling channel is, up to rounding: `g` is the share of
/// the circle's part that is taken away.
proof fn moving_channel_is(g: Number, value: nat)
    requires
        g.is_share(),
        value <= 255,
        8 * (255 * (g.den - g.num) - value * g.den) <= g.den,
        8 * (value * g.den - 255 * (g.den - g.num)) <= g.den,
    ensures
        Number::of_byte(255).product(Number::of_byte(255).product(g).one_minus()).channel()
            == value,
{
    full_byte_is_one();
    let one = Number::of_byte(255);
    let (d, s) = (0x80_0000int, g.den as int);
    let taken = one.product(g);
    let sf = taken.num as int;
    single::quotient_scale_is_power(255, 255);
    single::power_of_two_product(0x80_0000, g.den);
    assert(0x80_0000 * g.num <= 0x80_0000 * g.den);
    single::single_below_power(0x80_0000 * g.num, 0x80_0000 * g.den);
    single::rounding_is_slight(0x80_0000 * g.num);
    assert(taken.den == d * s);
    let left = taken.one_minus();
    let o = left.num as int;
    single::rounding_is_slight((d * s - sf) as nat);
    single::single_below_power((d * s - sf) as nat, 0x80_0000 * g.den);
    let shown = one.product(left);
    single::rounding_is_slight(0x80_0000 * left.num);
    assert(shown.den == 0x4000_0000_0000 * s);
    let goal = value * s;
    assert(value * shown.den == 0x4000_0000_0000 * goal) by (nonlinear_arith)
        requires
            shown.den == 0x4000_0000_0000 * s,
            goal == value * s,
    ;
    near_number_is_channel(shown, value);
}

/// Nothing of a colour is left where all of it is taken away.
proof fn dark_channel(v: Number)
    requires
        v.den >= 1,
    ensures
        v.product(Number::of_byte(255).one_minus()).channel() == 0,
{
    full_byte_is_one();
    single::rounding_is_slight(0);
    let none = Number::of_byte(255).one_minus();
    assert(none.num == 0);
    let p = v.product(none);
    assert(v.num * none.num == 0) by (nonlinear_arith)
        requires
            none.num == 0,
    ;
    assert(v.den * none.den >= 1) by (nonlinear_arith)
        requires
            v.den >= 1,
            none.den >= 1,
    ;
    assert(p.num == 0);
    near_number_is_channel(p, 0);
}

/// The full colours are a circle of six parts: red, yellow, green, cyan, blue, magenta and
/// back to red. In each part one channel is full, one is dark, and the third moves by six
/// steps with each hue.
pub proof fn full_colors_are_a_circle(hue: u8)
    ensures
        rgb(hue, 255, 255) == (if hue <= 42 {
            seq![255nat, (6 * hue) as nat, 0nat]
        } else if hue <= 84 {
            seq![(510 - 6 * hue) as nat, 255nat, 0nat]
        } else if hue <= 127 {
            seq![0nat, 255nat, (6 * hue - 510) as nat]
        } else if hue <= 169 {
            seq![0nat, (1020 - 6 * hue) as nat, 255nat]
        } else if hue <= 212 {
            seq![(6 * hue - 1020) as nat, 0nat, 255nat]
        } else if hue <= 254 {
            seq![255nat, 0nat, (1530 - 6 * hue) as nat]
        } else {
            seq![255nat, 0nat, 0nat]
        }),
{
    hue_is_near(hue);
    byte_is_kept(255);
    full_byte_is_one();
    let one = Number::of_byte(255);
    dark_channel(one);
    let h = Number::of_byte(hue).times(6);
    let f = h.fraction();
    let k = (6 * hue) / 255;
    let r = (6 * hue - 255 * k) as nat;
    let s = f.den as int;
    assert((255 - r) * s == 255 * s - r * s) by (nonlinear_arith);
    moving_channel_is(f, (255 - r) as nat);
    let g = f.one_minus();
    single::rounding_is_slight((f.den - f.num) as nat);
    single::single_below_power((f.den - f.num) as nat, f.den);
    moving_channel_is(g, r);
}

/// Whatever the saturation, one channel has the value itself: red, green or blue, whichever
/// is nearest to the hue.
pub proof fn nearest_channel_has_the_value(hue: u8, sat: u8, val: u8)
    ensures
        hue <= 42 || hue >= 213 ==> rgb(hue, sat, val)[0] == val,
        43 <= hue <= 127 ==> rgb(hue, sat, val)[1] == val,
        128 <= hue <= 212 ==> rgb(hue, sat, val)[2] == val,
{
    hue_is_near(hue);
    byte_is_kept(val);
}

/// Without saturation every hue is the same grey, and at full saturation the channel that is
/// farthest from the hue is dark.
pub proof fn saturation_takes_grey_away(hue: u8, val: u8)
    ensures
        rgb(hue, 0, val) == seq![val as nat, val as nat, val as nat],
        hue <= 84 || hue == 255 ==> rgb(hue, 255, val)[2] == 0,
        85 <= hue <= 169 ==> rgb(hue, 255, val)[0] == 0,
        170 <= hue <= 254 ==> rgb(hue, 255, val)[1] == 0,
{
    hue_is_near(hue);
    single::quotient_scale_is_power(val as nat, 255);
    dark_channel(Number::of_byte(val));
}

} // verus!
