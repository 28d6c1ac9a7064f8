//! Brightness and the passage between colours, as single-precision arithmetic gives
//! them.

use vstd::prelude::*;

use crate::ledcomm::{Pixel, StateFrame, NUM_LEDS};
use crate::single;
use crate::single::{round_single, SIGNIFICAND_LIMIT};

verus! {

/// A single-precision number from zero to one: `num` parts of `den`, which is a power of
/// two.
#[derive(Debug, Clone, Copy, PartialEq, Eq, Structural)]
pub struct Share {
    pub num: u32,
    pub den: u64,
}

/// Two to the power of `k`.
pub open spec fn two_to(k: nat) -> nat
    decreases k,
{
    if k == 0 {
        1
    } else {
        2 * two_to((k - 1) as nat)
    }
}

/// The number with this representation, if it lies between zero and one. One that is
/// smaller than a part in four billion counts as zero.
pub open spec fn share_of(bits: u32) -> Option<Share> {
    let exponent = bits / 0x80_0000;
    let fraction = bits % 0x80_0000;
    if bits > 0x3f80_0000 {
        None
    } else if bits == 0x3f80_0000 {
        Some(Share { num: 1, den: 1 })
    } else if exponent < 95 {
        Some(Share { num: 0, den: 1 })
    } else {
        Some(
            Share {
                num: (0x80_0000 + fraction) as u32,
                den: two_to((150 - exponent) as nat) as u64,
            },
        )
    }
}

impl Share {
    pub open spec fn wf(self) -> bool {
        &&& self.num <= self.den <= 0x80_0000_0000_0000
        &&& self.num <= SIGNIFICAND_LIMIT
        &&& self.den >= 1
        &&& single::power_of_two(self.den as nat)
    }

    /// Whether this is one.
    pub open spec fn is_whole(self) -> bool {
        self.num == self.den
    }

    /// Reads a number from its representation.
    pub fn from_bits(bits: u32) -> (share: Option<Share>)
        ensures
            share == share_of(bits),
            share is Some ==> share->Some_0.wf(),
            share is Some ==> share->Some_0.is_whole() == (bits == 0x3f80_0000),
    {
        if bits > 0x3f80_0000 {
            return None;
        }
        if bits == 0x3f80_0000 {
            return Some(Share { num: 1, den: 1 });
        }
        let exponent: u32 = bits / 0x80_0000;
        let fraction: u32 = bits % 0x80_0000;
        if exponent < 95 {
            return Some(Share { num: 0, den: 1 });
        }
        let mut den: u64 = 1;
        let mut k: u32 = 0;
        while k < 150 - exponent
            invariant
                95 <= exponent <= 126,
                k <= 150 - exponent,
                den == two_to(k as nat),
                den >= 1,
                single::power_of_two(den as nat),
            decreases 150 - exponent - k,
        {
            proof {
                two_to_bound(k as nat, 54);
                single::power_of_two_doubles(den as nat);
            }
            den = 2 * den;
            k += 1;
        }
        proof {
            two_to_bound(24, (150 - exponent) as nat);
            two_to_bound((150 - exponent) as nat, 55);
        }
        Some(Share { num: 0x80_0000 + fraction, den })
    }
}

proof fn two_to_bound(a: nat, b: nat)
    requires
        a <= b <= 55,
    ensures
        two_to(a) <= two_to(b) <= 0x80_0000_0000_0000,
        two_to(24) == 0x100_0000,
    decreases b,
{
    reveal_with_fuel(two_to, 56);
    if a < b {
        two_to_bound(a, (b - 1) as nat);
    } else if b > 0 {
        two_to_bound((b - 1) as nat, (b - 1) as nat);
    }
}

/// The distance between two channel values.
pub open spec fn distance(start: u8, end: u8) -> nat {
    if end >= start {
        (end - start) as nat
    } else {
        (start - end) as nat
    }
}

/// The place between two channel values that a share of the way leads to, in parts of
/// the share's denominator.
pub open spec fn place(start: u8, end: u8, share: Share) -> nat {
    let moved = single::single(distance(start, end) * share.num as nat);
    let from = start as nat * share.den as nat;
    single::single(
        if end >= start {
            from + moved
        } else {
            (from - moved) as nat
        },
    )
}

/// The channel value nearest to that many parts of `den`, the larger one of two that are
/// equally near.
pub open spec fn nearest_channel(parts: nat, den: nat) -> nat {
    (2 * parts + den) / (2 * den)
}

/// The channel value at a share of the way from one to another.
pub open spec fn lerped(start: u8, end: u8, share: Share) -> nat {
    nearest_channel(place(start, end, share), share.den as nat)
}

/// A share of a channel value.
pub open spec fn dimmed(value: u8, share: Share) -> nat {
    nearest_channel(single::single(value as nat * share.num as nat), share.den as nat)
}

pub proof fn spacing_is_power(x: nat)
    ensures
        single::power_of_two(single::spacing(x)),
        single::spacing(x) >= 1,
        x < SIGNIFICAND_LIMIT * single::spacing(x),
    decreases x,
{
    if x >= SIGNIFICAND_LIMIT {
        spacing_is_power(x / 2);
        single::power_of_two_doubles(single::spacing(x / 2));
    }
}

pub proof fn smaller_power_divides(a: nat, b: nat)
    requires
        single::power_of_two(a),
        single::power_of_two(b),
        1 <= a <= b,
    ensures
        b % a == 0,
    decreases b,
{
    if a > 1 {
        smaller_power_divides(a / 2, b / 2);
        let (x, y) = (a / 2, b / 2);
        let c = y / x;
        assert(2 * y == c * (2 * x)) by (nonlinear_arith)
            requires
                y % x == 0,
                c == y / x,
                x >= 1,
        ;
        vstd::arithmetic::div_mod::lemma_mod_multiples_basic(c as int, 2 * x as int);
    }
}

/// Rounding does not pass a small multiple of a power of two.
proof fn single_stays_beside(x: nat, m: nat, den: nat)
    requires
        single::power_of_two(den),
        den >= 1,
        m <= 0x1_0000,
        x <= 0x1_0000 * den,
    ensures
        x <= m * den ==> single::single(x) <= m * den,
        x >= m * den ==> single::single(x) >= m * den,
{
    let s = single::spacing(x);
    spacing_is_power(x);
    single::spacing_bounds(x);
    if 2 * x < SIGNIFICAND_LIMIT {
        assert(s == 1);
    }
    assert(s <= den || s == 1);
    smaller_power_divides(s, if s <= den {
        den
    } else {
        s
    });
    assert(den % s == 0) by {
        if s == 1 {
            assert(den % 1 == 0) by (nonlinear_arith);
        }
    }
    let c = den / s;
    assert(den == c * s) by (nonlinear_arith)
        requires
            den % s == 0,
            c == den / s,
            s >= 1,
    ;
    assert(m * den == (m * c) * s) by (nonlinear_arith)
        requires
            den == c * s,
    ;
    let bound = m * c;
    let (q, r) = (x / s, x % s);
    assert(x == q * s + r && 0 <= r < s) by (nonlinear_arith)
        requires
            q == x / s,
            r == x % s,
            s >= 1,
    ;
    if x <= m * den {
        assert(q <= bound) by (nonlinear_arith)
            requires
                q * s + r <= bound * s,
                r >= 0,
                s >= 1,
        ;
        if r > 0 {
            assert(q + 1 <= bound) by (nonlinear_arith)
                requires
                    q * s + r <= bound * s,
                    r > 0,
                    s >= 1,
            ;
        }
        assert(single::nearest(x, s) <= bound);
        assert(single::nearest(x, s) * s <= bound * s) by (nonlinear_arith)
            requires
                single::nearest(x, s) <= bound,
                s >= 1,
        ;
    }
    if x >= m * den {
        assert(q >= bound) by (nonlinear_arith)
            requires
                q * s + r >= bound * s,
                r < s,
                s >= 1,
        ;
        assert(single::nearest(x, s) * s >= bound * s) by (nonlinear_arith)
            requires
                single::nearest(x, s) >= bound,
                s >= 1,
        ;
    }
}

/// What was moved is at most the whole way.
proof fn moved_bounds(way: nat, share: Share)
    requires
        share.wf(),
        way <= 255,
    ensures
        single::single(way * share.num as nat) <= way * share.den as nat,
        share.is_whole() ==> single::single(way * share.num as nat) == way * share.den as nat,
        share.num == 0 ==> single::single(way * share.num as nat) == 0,
        way * share.den as nat <= 255 * share.den as nat,
{
    let (num, den) = (share.num as nat, share.den as nat);
    assert(way * num <= way * den && way * den <= 255 * den) by (nonlinear_arith)
        requires
            num <= den,
            way <= 255,
    ;
    single_stays_beside(way * num, way, den);
    if num == 0 {
        assert(way * num == 0) by (nonlinear_arith)
            requires
                num == 0,
        ;
        single::single_is_near(0);
    }
}

/// The place on the way lies between where it starts and where it ends.
proof fn place_bounds(start: u8, end: u8, share: Share)
    requires
        share.wf(),
    ensures
        end >= start ==> start * share.den <= place(start, end, share) <= end * share.den,
        end <= start ==> end * share.den <= place(start, end, share) <= start * share.den,
        share.is_whole() ==> place(start, end, share) == end * share.den,
        share.num == 0 ==> place(start, end, share) == start * share.den,
        distance(start, end) * share.num <= 0xff00_0000,
        start * share.den + distance(start, end) * share.den <= 0x1_0000 * share.den,
{
    let (num, den) = (share.num as nat, share.den as nat);
    let way = distance(start, end);
    moved_bounds(way, share);
    let moved = single::single(way * num);
    let from = start as nat * den;
    assert(way * num <= 255 * 0x100_0000) by (nonlinear_arith)
        requires
            way <= 255,
            num <= 0x100_0000,
    ;
    assert(from <= 255 * den) by (nonlinear_arith)
        requires
            from == start as nat * den,
            start <= 255,
    ;
    if end >= start {
        assert(end * den == from + way * den) by (nonlinear_arith)
            requires
                from == start * den,
                way == end - start,
        ;
        single_stays_beside(from + moved, start as nat, den);
        single_stays_beside(from + moved, end as nat, den);
    } else {
        assert(end * den == from - way * den) by (nonlinear_arith)
            requires
                from == start * den,
                way == start - end,
        ;
        single_stays_beside((from - moved) as nat, start as nat, den);
        single_stays_beside((from - moved) as nat, end as nat, den);
    }
}

proof fn nearest_channel_between(parts: nat, den: nat, low: nat, high: nat)
    requires
        den >= 1,
        low * den <= parts <= high * den,
    ensures
        low <= nearest_channel(parts, den) <= high,
{
    let value = nearest_channel(parts, den);
    assert(low <= value <= high) by (nonlinear_arith)
        requires
            den >= 1,
            low * den <= parts,
            parts <= high * den,
            value == (2 * parts + den) / (2 * den),
    ;
}

/// On the way from one channel value to another none is passed that does not lie between
/// them; it starts at the one and ends at the other.
pub proof fn way_leads_from_start_to_end(start: u8, end: u8, share: Share)
    requires
        share.wf(),
    ensures
        start <= end ==> start <= lerped(start, end, share) <= end,
        end <= start ==> end <= lerped(start, end, share) <= start,
        share.num == 0 ==> lerped(start, end, share) == start,
        share.is_whole() ==> lerped(start, end, share) == end,
{
    place_bounds(start, end, share);
    let parts = place(start, end, share);
    let den = share.den as nat;
    if start <= end {
        nearest_channel_between(parts, den, start as nat, end as nat);
    } else {
        nearest_channel_between(parts, den, end as nat, start as nat);
    }
    if share.num == 0 {
        nearest_channel_between(parts, den, start as nat, start as nat);
    }
    if share.is_whole() {
        nearest_channel_between(parts, den, end as nat, end as nat);
    }
}

/// A dimmed value is at most the value, nothing of it is zero and all of it is itself.
pub proof fn dimming_only_darkens(value: u8, share: Share)
    requires
        share.wf(),
    ensures
        dimmed(value, share) <= value,
        share.num == 0 ==> dimmed(value, share) == 0,
        share.is_whole() ==> dimmed(value, share) == value,
        value * share.num <= 0xff00_0000,
{
    moved_bounds(value as nat, share);
    let parts = single::single(value as nat * share.num as nat);
    let den = share.den as nat;
    nearest_channel_between(parts, den, 0, value as nat);
    assert(value * share.num <= 255 * 0x100_0000) by (nonlinear_arith)
        requires
            value <= 255,
            share.num <= 0x100_0000,
    ;
    if share.num == 0 {
        nearest_channel_between(parts, den, 0, 0);
    }
    if share.is_whole() {
        nearest_channel_between(parts, den, value as nat, value as nat);
    }
}

/// The channel value at a share of the way from one to another.
pub fn lerp(start: u8, end: u8, share: Share) -> (value: u8)
    requires
        share.wf(),
    ensures
        value == lerped(start, end, share),
{
    proof {
        place_bounds(start, end, share);
        moved_bounds(distance(start, end), share);
        way_leads_from_start_to_end(start, end, share);
    }
    let (num, den): (u128, u128) = (share.num as u128, share.den as u128);
    let way: u128 = if end >= start {
        (end - start) as u128
    } else {
        (start - end) as u128
    };
    assert(way * num <= 0xff00_0000);
    let moved: u128 = round_single(way * num);
    assert(start * den <= 255 * 0x80_0000_0000_0000) by (nonlinear_arith)
        requires
            start <= 255,
            den <= 0x80_0000_0000_0000,
    ;
    let from: u128 = (start as u128) * den;
    let parts: u128 = if end >= start {
        round_single(from + moved)
    } else {
        assert(moved <= from) by {
            assert(start * den >= distance(start, end) * den) by (nonlinear_arith)
                requires
                    start >= distance(start, end),
            ;
        }
        round_single(from - moved)
    };
    ((2 * parts + den) / (2 * den)) as u8
}

/// A share of a channel value.
pub fn scale_channel(value: u8, share: Share) -> (scaled: u8)
    requires
        share.wf(),
    ensures
        scaled == dimmed(value, share),
{
    proof {
        dimming_only_darkens(value, share);
    }
    let den: u128 = share.den as u128;
    let parts: u128 = round_single((value as u128) * (share.num as u128));
    ((2 * parts + den) / (2 * den)) as u8
}

fn lerp_pixel(start: Pixel, end: Pixel, share: Share) -> (pixel: Pixel)
    requires
        share.wf(),
    ensures
        pixel_between(start, end, share, pixel),
{
    [
        lerp(start[0], end[0], share),
        lerp(start[1], end[1], share),
        lerp(start[2], end[2], share),
    ]
}

/// Whether the pixel is the one at a share of the way between two others.
pub open spec fn pixel_between(start: Pixel, end: Pixel, share: Share, pixel: Pixel) -> bool {
    forall|c: int|
        0 <= c < 3 ==> #[trigger] pixel@[c] == lerped(start@[c], end@[c], share)
}

/// The frame at a share of the way from one frame to another.
pub fn lerp_frame(start: &StateFrame, end: &StateFrame, share: Share) -> (frame: StateFrame)
    requires
        share.wf(),
    ensures
        forall|i: int|
            0 <= i < NUM_LEDS ==> pixel_between(
                start@[i],
                end@[i],
                share,
                #[trigger] frame@[i],
            ),
{
    let mut frame: StateFrame = *start;
    let mut i: usize = 0;
    while i < NUM_LEDS
        invariant
            i <= NUM_LEDS,
            share.wf(),
            forall|j: int|
                0 <= j < i ==> pixel_between(start@[j], end@[j], share, #[trigger] frame@[j]),
        decreases NUM_LEDS - i,
    {
        frame[i] = lerp_pixel(start[i], end[i], share);
        i += 1;
    }
    frame
}

/// A colour at a share of its brightness.
pub fn dim_color(color: Pixel, share: Share) -> (dim: Pixel)
    requires
        share.wf(),
    ensures
        forall|c: int| 0 <= c < 3 ==> #[trigger] dim@[c] == dimmed(color@[c], share),
{
    [
        scale_channel(color[0], share),
        scale_channel(color[1], share),
        scale_channel(color[2], share),
    ]
}

proof fn nearest_channel_is_near(parts: nat, den: nat)
    requires
        den >= 1,
    ensures
        2 * (nearest_channel(parts, den) * den - parts) <= den,
        2 * (parts - nearest_channel(parts, den) * den) <= den,
{
    let value = nearest_channel(parts, den);
    assert(2 * (value * den) <= 2 * parts + den && 2 * parts + den < 2 * (value * den) + 2 * den)
        by (nonlinear_arith)
        requires
            den >= 1,
            value == (2 * parts + den) / (2 * den),
    ;
}

/// A dimmed value is the value's share, rounded to the nearest channel value: it is off by
/// half a step at most, and by no more than a 65536th of a step beyond that.
pub proof fn dimming_is_proportional(value: u8, share: Share)
    requires
        share.wf(),
    ensures
        0x1_0000 * (dimmed(value, share) * share.den - value * share.num) <= 0x8001 * share.den,
        0x1_0000 * (value * share.num - dimmed(value, share) * share.den) <= 0x8001 * share.den,
{
    let exact = value as nat * share.num as nat;
    single::rounding_is_slight(exact);
    nearest_channel_is_near(single::single(exact), share.den as nat);
    assert(exact <= 255 * share.den) by (nonlinear_arith)
        requires
            exact == value as nat * share.num as nat,
            value <= 255,
            share.num <= share.den,
    ;
}

/// The way from one channel value to another is straight: a share of the way leads to the
/// channel value nearest to that share of the distance. It is off by half a step at most,
/// and by no more than a 32768th of a step beyond that.
pub proof fn way_is_straight(start: u8, end: u8, share: Share)
    requires
        share.wf(),
    ensures
        ({
            let reached = lerped(start, end, share) * share.den;
            let exact = start * (share.den - share.num) + end * share.num;
            &&& 0x8000 * (reached - exact) <= 0x4001 * share.den
            &&& 0x8000 * (exact - reached) <= 0x4001 * share.den
        }),
{
    let (num, den) = (share.num as nat, share.den as nat);
    let way = distance(start, end);
    let from = start as nat * den;
    let moved = single::single(way * num);
    single::rounding_is_slight(way * num);
    moved_bounds(way, share);
    assert(way * num <= 255 * den) by (nonlinear_arith)
        requires
            way <= 255,
            num <= den,
    ;
    assert(from <= 255 * den) by (nonlinear_arith)
        requires
            from == start as nat * den,
            start <= 255,
    ;
    assert(way * den <= 255 * den) by (nonlinear_arith)
        requires
            way <= 255,
    ;
    let exact = start * (den - num) + end * num;
    if end >= start {
        assert(exact == from + way * num) by (nonlinear_arith)
            requires
                exact == start * (den - num) + end * num,
                from == start * den,
                way == end - start,
        ;
        assert(from + way * den <= 255 * den) by (nonlinear_arith)
            requires
                from == start * den,
                start + way <= 255,
        ;
        single::rounding_is_slight(from + moved);
    } else {
        assert(exact == from - way * num) by (nonlinear_arith)
            requires
                exact == start * (den - num) + end * num,
                from == start * den,
                way == start - end,
        ;
        assert(moved <= from) by {
            assert(way * den <= from) by (nonlinear_arith)
                requires
                    from == start * den,
                    way <= start,
            ;
        }
        single::rounding_is_slight((from - moved) as nat);
    }
    nearest_channel_is_near(place(start, end, share), den);
}

} // verus!
