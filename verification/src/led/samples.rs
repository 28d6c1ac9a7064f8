//! Frames for trying out a strip.

use vstd::prelude::*;

use super::effects;
use super::hsv::hsv_to_rgb;
use super::mystic::hid;
use crate::ledcomm::{Frame, Pixel, MAGIC, NUM_LEDS};
use crate::text;

verus! {

/// How far apart the hues of neighbouring LEDs are, and those of consecutive frames.
pub const HUE_STEP: u8 = 10;

/// How many LEDs the first colour is shown on.
pub const HEAD_LEDS: usize = 7;

/// The hue of the LED at `idx` when the first has `base`.
pub open spec fn sample_hue(base: u8, idx: int) -> u8 {
    ((base + idx * 10) % 256) as u8
}

fn hue_of(base: u8, idx: usize) -> (hue: u8)
    requires
        idx < NUM_LEDS,
    ensures
        hue == sample_hue(base, idx as int),
{
    let offset: u8 = ((idx * 10) % 256) as u8;
    let hue: u8 = base.wrapping_add(offset);
    proof {
        vstd::arithmetic::div_mod::lemma_add_mod_noop_right(base as int, idx * 10, 256);
        let sum = base + offset;
        assert(hue == sum % 256) by {
            if sum < 256 {
                vstd::arithmetic::div_mod::lemma_small_mod(sum as nat, 256);
            } else {
                vstd::arithmetic::div_mod::lemma_mod_add_multiples_vanish(sum - 256, 256);
                vstd::arithmetic::div_mod::lemma_small_mod((sum - 256) as nat, 256);
            }
        }
    }
    hue
}

/// A frame of a rainbow whose first LED has the hue `base`.
pub fn rainbow_frame(base: u8) -> (frame: Frame)
    ensures
        frame.magic@ == MAGIC@,
        frame.len == 900,
        forall|i: int|
            0 <= i < NUM_LEDS ==> effects::has_hue(#[trigger] frame.data@[i], sample_hue(base, i)),
{
    let mut frame = Frame::new(MAGIC, 900);
    let mut i: usize = 0;
    while i < NUM_LEDS
        invariant
            i <= NUM_LEDS,
            frame.magic@ == MAGIC@,
            frame.len == 900,
            forall|j: int|
                0 <= j < i ==> effects::has_hue(#[trigger] frame.data@[j], sample_hue(base, j)),
        decreases NUM_LEDS - i,
    {
        frame.data[i] = hsv_to_rgb(hue_of(base, i), 255, 255);
        i += 1;
    }
    frame
}

/// The hue that the next frame starts with.
pub fn next_hue(base: u8) -> (next: u8)
    ensures
        next == (base + HUE_STEP) % 256,
{
    base.wrapping_add(HUE_STEP)
}

/// A frame whose first LEDs are blue and whose others are yellow.
pub fn two_tone_frame() -> (frame: Frame)
    ensures
        frame.magic@ == MAGIC@,
        frame.len == 900,
        forall|i: int|
            0 <= i < NUM_LEDS ==> #[trigger] frame.data@[i] == (if i < HEAD_LEDS {
                [0u8, 0u8, 255u8]
            } else {
                [255u8, 255u8, 0u8]
            }),
{
    let mut frame = Frame::new(MAGIC, 900);
    let mut i: usize = 0;
    while i < NUM_LEDS
        invariant
            i <= NUM_LEDS,
            frame.magic@ == MAGIC@,
            frame.len == 900,
            forall|j: int|
                0 <= j < i ==> #[trigger] frame.data@[j] == (if j < HEAD_LEDS {
                    [0u8, 0u8, 255u8]
                } else {
                    [255u8, 255u8, 0u8]
                }),
        decreases NUM_LEDS - i,
    {
        let color: Pixel = if i < HEAD_LEDS {
            [0u8, 0u8, 255u8]
        } else {
            [255u8, 255u8, 0u8]
        };
        frame.data[i] = color;
        i += 1;
    }
    frame
}

/// A packet as hexadecimal digits.
pub fn packet_text(packet: &[u8]) -> (digits: String)
    ensures
        digits@ == hid::hex_text(packet@),
{
    let mut digits = String::new();
    let mut i: usize = 0;
    assert(digits@ =~= hid::hex_text(packet@.take(0)));
    while i < packet.len()
        invariant
            i <= packet@.len(),
            digits@ == hid::hex_text(packet@.take(i as int)),
        decreases packet@.len() - i,
    {
        text::push_hex_byte(&mut digits, packet[i]);
        assert(packet@.take(i + 1).drop_last() =~= packet@.take(i as int));
        i += 1;
    }
    assert(packet@.take(i as int) =~= packet@);
    digits
}

/// The rainbow moves along the strip: each LED of the next frame has the hue that its
/// neighbour has in this one.
pub proof fn sample_moves_by_one(base: u8, idx: int)
    requires
        0 <= idx < NUM_LEDS - 1,
    ensures
        sample_hue(((base + HUE_STEP) % 256) as u8, idx) == sample_hue(base, idx + 1),
{
    vstd::arithmetic::div_mod::lemma_add_mod_noop_right(idx * 10, base + HUE_STEP, 256);
    assert(idx * 10 + (base + HUE_STEP) == base + (idx + 1) * 10);
}

} // verus!
