//! Strip encoding and the rainbow test pattern.

use vstd::prelude::*;

use crate::ledcomm;
use crate::ledcomm::{zero_state_frame, Pixel, StateFrame, NUM_LEDS};

verus! {

const START_FRAME_BYTES: usize = 4;

const BYTES_PER_APA102_PIXEL: usize = 4;

/// Bytes of a full strip's frame: the start, four per LED, the latch, and one
/// for every sixteen LEDs at the end.
pub const SK9822_FRAME_BYTES: usize = 1227;

/// The same, rounded up to whole words.
pub const SK9822_FRAME_ALIGNED_BYTES: usize = 1228;

pub const SPI_DMA_TRANSFER_BYTES: usize = 1228;

/// What each encoded LED opens with: three set bits and full brightness.
pub const LED_HEADER: u8 = 0xff;

/// The first multiple of four that is at least `n`.
pub open spec fn word_aligned(n: int) -> int {
    (n + 3) / 4 * 4
}

pub fn align_to_word(n: usize) -> (aligned: usize)
    requires
        n + 3 <= usize::MAX,
    ensures
        aligned == word_aligned(n as int),
{
    let m: usize = n + 3;
    assert(m & !3usize == m / 4 * 4) by (bit_vector);
    m & !3
}

pub fn align4(n: usize) -> (aligned: usize)
    requires
        n + 3 <= usize::MAX,
    ensures
        aligned == word_aligned(n as int),
{
    align_to_word(n)
}

/// The LEDs' part of the strip's frame: for each a header byte, then blue, green
/// and red.
pub open spec fn encoded_leds(pixels: Seq<Pixel>) -> Seq<u8> {
    Seq::new(
        4 * pixels.len(),
        |i: int|
            if i % 4 == 0 {
                LED_HEADER
            } else {
                pixels[i / 4][3 - i % 4]
            },
    )
}

/// The frame for the strip: a start of zeros, the LEDs, the latch and the end.
pub open spec fn encoded(pixels: Seq<Pixel>) -> Seq<u8> {
    ledcomm::zeros(4) + encoded_leds(pixels) + ledcomm::zeros(23)
}

/// The pixels that reach the strip.
pub open spec fn on_strip(pixels: Seq<Pixel>) -> Seq<Pixel> {
    if pixels.len() <= NUM_LEDS {
        pixels
    } else {
        pixels.take(NUM_LEDS as int)
    }
}

/// The transfer buffer of the strip.
pub struct LedDriver {
    pub frame: [u8; SK9822_FRAME_ALIGNED_BYTES],
}

impl LedDriver {
    pub fn new() -> (driver: Self)
        ensures
            driver.frame@ == ledcomm::zeros(1228),
    {
        let frame = [0u8; SK9822_FRAME_ALIGNED_BYTES];
        assert(frame@ =~= ledcomm::zeros(1228));
        LedDriver { frame }
    }

    /// Encodes the pixels and returns the bytes to put on the bus.
    pub fn write_pixels(&mut self, pixels: &[Pixel]) -> (bytes: Vec<u8>)
        ensures
            bytes@ == encoded(on_strip(pixels@)),
            final(self).frame@ == bytes@ + ledcomm::zeros((1228 - bytes@.len()) as nat),
    {
        let len: usize = Self::encode_pixels(&mut self.frame, pixels);
        let (head, _tail) = self.frame.as_slice().split_at(len);
        let mut bytes: Vec<u8> = Vec::new();
        bytes.extend_from_slice(head);
        assert(bytes@ =~= encoded(on_strip(pixels@)));
        bytes
    }

    pub fn encode_pixels(
        frame: &mut [u8; SK9822_FRAME_ALIGNED_BYTES],
        pixels: &[Pixel],
    ) -> (len: usize)
        ensures
            len == encoded(on_strip(pixels@)).len(),
            final(frame)@ == encoded(on_strip(pixels@)) + ledcomm::zeros((1228 - len) as nat),
    {
        let count: usize = if pixels.len() < NUM_LEDS {
            pixels.len()
        } else {
            NUM_LEDS
        };
        *frame = [0u8; SK9822_FRAME_ALIGNED_BYTES];
        let mut i: usize = 0;
        while i < count
            invariant
                i <= count,
                count <= NUM_LEDS,
                count <= pixels@.len(),
                forall|j: int| 0 <= j < 4 ==> frame@[j] == 0,
                forall|j: int|
                    4 <= j < 4 + 4 * i ==> frame@[j] == (if j % 4 == 0 {
                        LED_HEADER
                    } else {
                        pixels@[j / 4 - 1][3 - j % 4]
                    }),
                forall|j: int| 4 + 4 * i <= j < 1228 ==> frame@[j] == 0,
            decreases count - i,
        {
            let offset: usize = START_FRAME_BYTES + i * BYTES_PER_APA102_PIXEL;
            let pixel = pixels[i];
            frame[offset] = LED_HEADER;
            frame[offset + 1] = pixel[2];
            frame[offset + 2] = pixel[1];
            frame[offset + 3] = pixel[0];
            i += 1;
        }
        let len: usize = 27 + count * BYTES_PER_APA102_PIXEL;
        assert(frame@ =~= encoded(on_strip(pixels@)) + ledcomm::zeros((1228 - len) as nat));
        len
    }
}

/// A frame for the strip always fits the transfer buffer, and a full strip's
/// frame has the size that the bus is set up for.
pub proof fn encoded_frame_fits(pixels: Seq<Pixel>)
    ensures
        encoded(on_strip(pixels)).len() <= SK9822_FRAME_BYTES,
        pixels.len() >= NUM_LEDS ==> encoded(on_strip(pixels)).len() == SK9822_FRAME_BYTES,
{
}

/// A part of the value: all of it at a saturation of zero, none of it at full saturation.
pub open spec fn dulled(val: u8, sat: int) -> u8 {
    (val * (255 - sat) / 255) as u8
}

/// The colour with a hue, a saturation and a value: red, green and blue. The hues are a
/// circle of six parts; within a part one channel rises or falls.
pub open spec fn hsv_rgb(hue: u8, sat: u8, val: u8) -> Seq<u8> {
    let f = (hue * 2 % 85) * 3;
    let p = dulled(val, sat as int);
    let q = dulled(val, sat * f / 255);
    let t = dulled(val, sat * (255 - f) / 255);
    if hue <= 42 || hue == 255 {
        seq![val, t, p]
    } else if hue <= 84 {
        seq![q, val, p]
    } else if hue <= 127 {
        seq![p, val, t]
    } else if hue <= 169 {
        seq![p, q, val]
    } else if hue <= 212 {
        seq![t, p, val]
    } else {
        seq![val, p, q]
    }
}

/// Calls `smart_leds::hsv::hsv2rgb`, which computes the channels in 16-bit integers; none
/// of its intermediate results is too large for them.
#[verifier::external_body]
fn hsv2rgb(hue: u8, sat: u8, val: u8) -> (pixel: Pixel)
    ensures
        pixel@ == hsv_rgb(hue, sat, val),
{
    let rgb = smart_leds::hsv::hsv2rgb(smart_leds::hsv::Hsv { hue, sat, val });
    [rgb.r, rgb.g, rgb.b]
}

/// The hue of the LED at `idx` when the first LED has `hue`: ten steps on per
/// LED, around the circle.
pub open spec fn led_hue(hue: u8, idx: int) -> u8 {
    ((hue + 10 * idx) % 256) as u8
}

pub fn rainbow_hue(hue: u8, idx: usize) -> (pixel_hue: u8)
    requires
        idx < NUM_LEDS,
    ensures
        pixel_hue == led_hue(hue, idx as int),
{
    ((hue as usize + idx * 10) % 256) as u8
}

/// The rainbow over the whole strip, starting at `hue`.
pub fn rainbow_frame(hue: u8) -> (pixels: StateFrame)
    ensures
        forall|i: int| 0 <= i < NUM_LEDS ==> (#[trigger] pixels@[i])@ == hsv_rgb(
            led_hue(hue, i),
            255,
            255,
        ),
{
    let mut pixels = zero_state_frame();
    let mut i: usize = 0;
    while i < NUM_LEDS
        invariant
            i <= NUM_LEDS,
            forall|j: int| 0 <= j < i ==> (#[trigger] pixels@[j])@ == hsv_rgb(
                led_hue(hue, j),
                255,
                255,
            ),
        decreases NUM_LEDS - i,
    {
        pixels[i] = hsv2rgb(rainbow_hue(hue, i), 255, 255);
        i += 1;
    }
    pixels
}

/// The start hue of the next frame of the on-device emulator.
pub fn emulator_next_hue(hue: u8) -> (next: u8)
    ensures
        next == (hue + 3) % 256,
{
    hue.wrapping_add(3)
}

/// The start hue of the next frame of the rainbow animation.
pub fn rainbow_next_hue(hue: u8) -> (next: u8)
    ensures
        next == (hue + 10) % 256,
{
    hue.wrapping_add(10)
}

/// Stepping the rainbow moves it along the strip by one LED: each LED takes the
/// hue that its neighbour had.
pub proof fn rainbow_step_shifts_by_one(hue: u8, idx: int)
    requires
        0 <= idx < NUM_LEDS - 1,
    ensures
        led_hue(((hue + 10) % 256) as u8, idx) == led_hue(hue, idx + 1),
{
    vstd::arithmetic::div_mod::lemma_add_mod_noop_right(10 * idx, hue + 10, 256);
    assert(10 * idx + (hue + 10) == hue + 10 * (idx + 1));
}

/// On the bus each LED is four bytes: full brightness, then blue, green and red. Four zeros
/// stand before the first LED and 23 behind the last; LEDs past the strip's end are left out.
pub proof fn leds_lie_on_bus_in_order(pixels: Seq<Pixel>, led: int, i: int)
    requires
        0 <= led < pixels.len(),
        led < 300,
        0 <= i < 23,
    ensures
        ({
            let bytes = encoded(on_strip(pixels));
            let n = on_strip(pixels).len();
            &&& n == (if pixels.len() <= 300 {
                pixels.len()
            } else {
                300
            })
            &&& bytes.len() == 27 + 4 * n
            &&& bytes[4 + 4 * led] == 0xff
            &&& bytes[5 + 4 * led] == pixels[led]@[2]
            &&& bytes[6 + 4 * led] == pixels[led]@[1]
            &&& bytes[7 + 4 * led] == pixels[led]@[0]
            &&& bytes[0] == 0 && bytes[1] == 0 && bytes[2] == 0 && bytes[3] == 0
            &&& bytes[4 + 4 * n + i] == 0
        }),
{
    let leds = encoded_leds(on_strip(pixels));
    let at = 4 * led;
    assert(at / 4 == led && (at + 1) / 4 == led && (at + 2) / 4 == led && (at + 3) / 4 == led);
    assert(at % 4 == 0 && (at + 1) % 4 == 1 && (at + 2) % 4 == 2 && (at + 3) % 4 == 3);
    let bytes = encoded(on_strip(pixels));
    assert(bytes[4 + at] == leds[at]);
    assert(bytes[5 + at] == leds[at + 1]);
    assert(bytes[6 + at] == leds[at + 2]);
    assert(bytes[7 + at] == leds[at + 3]);
}

/// A colour without saturation is grey; every channel is at most the value, and one of them
/// is the value.
pub proof fn hues_keep_their_value(hue: u8, sat: u8, val: u8)
    ensures
        hsv_rgb(hue, sat, val).len() == 3,
        hsv_rgb(hue, 0, val) == seq![val, val, val],
        exists|c: int| 0 <= c < 3 && #[trigger] hsv_rgb(hue, sat, val)[c] == val,
        forall|c: int| 0 <= c < 3 ==> #[trigger] hsv_rgb(hue, sat, val)[c] <= val,
{
    let f = (hue * 2 % 85) * 3;
    assert(0 <= f <= 252);
    assert(0 <= sat * f / 255 <= 255) by (nonlinear_arith)
        requires
            0 <= f <= 252,
            0 <= sat <= 255,
    ;
    assert(0 <= sat * (255 - f) / 255 <= 255) by (nonlinear_arith)
        requires
            0 <= f <= 252,
            0 <= sat <= 255,
    ;
    dulled_is_at_most(val, sat as int);
    dulled_is_at_most(val, sat * f / 255);
    dulled_is_at_most(val, sat * (255 - f) / 255);
    assert(0 * f / 255 == 0 && 0 * (255 - f) / 255 == 0) by (nonlinear_arith);
    dulled_is_at_most(val, 0);
    let rgb = hsv_rgb(hue, sat, val);
    if hue <= 42 || hue > 212 {
        assert(rgb[0] == val);
    } else if hue <= 127 {
        assert(rgb[1] == val);
    } else {
        assert(rgb[2] == val);
    }
    assert(hsv_rgb(hue, 0, val) =~= seq![val, val, val]);
}

proof fn dulled_is_at_most(val: u8, sat: int)
    requires
        0 <= sat <= 255,
    ensures
        dulled(val, sat) <= val,
        sat == 0 ==> dulled(val, sat) == val,
{
    assert(0 <= val * (255 - sat) / 255 <= val) by (nonlinear_arith)
        requires
            0 <= sat <= 255,
            0 <= val,
    ;
    assert(sat == 0 ==> val * (255 - sat) / 255 == val) by (nonlinear_arith);
}

} // verus!
