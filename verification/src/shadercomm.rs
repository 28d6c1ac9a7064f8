//! Data shared between the border kernel and the daemon.

use vstd::prelude::*;

use crate::average;
use crate::average::average_truncated;

verus! {

/// LEDs on the left and on the right of the screen, each.
pub const SIDE_LEDS: usize = 47;

/// LEDs on top of the screen and below it, each.
pub const TOP_LEDS: usize = 85;

/// Pixels by which a block reaches into its neighbours.
pub const PADDING: usize = 10;

/// Pixels that a block goes into the screen; must be less than its height.
pub const DEPTH: usize = 500;

/// LEDs all around the screen.
pub const BORDER_LEDS: usize = 264;

/// Channel bytes for all of them.
pub const BORDER_BYTES: usize = 792;

/// Threads of a workgroup.
pub const WORKGROUP_SIZE: usize = 1024;

#[derive(Debug, Clone, Copy)]
pub struct AverageBuffer {
    pub sum_r: [u32; BORDER_LEDS],
    pub sum_g: [u32; BORDER_LEDS],
    pub sum_b: [u32; BORDER_LEDS],
    pub pixel_count: [u32; BORDER_LEDS],
}

impl Default for AverageBuffer {
    fn default() -> (buffer: Self)
        ensures
            forall|i: int|
                0 <= i < BORDER_LEDS ==> buffer.sum_r@[i] == 0 && buffer.sum_g@[i] == 0
                    && buffer.sum_b@[i] == 0 && buffer.pixel_count@[i] == 0,
    {
        AverageBuffer {
            sum_r: [0; BORDER_LEDS],
            sum_g: [0; BORDER_LEDS],
            sum_b: [0; BORDER_LEDS],
            pixel_count: [0; BORDER_LEDS],
        }
    }
}

impl AverageBuffer {
    /// The sum of channel `c` at LED `i`.
    pub open spec fn sum(&self, i: int, c: int) -> u32 {
        if c == 0 {
            self.sum_r@[i]
        } else if c == 1 {
            self.sum_g@[i]
        } else {
            self.sum_b@[i]
        }
    }

    /// The channel value of channel `c` at LED `i`.
    pub open spec fn average(&self, i: int, c: int) -> nat {
        if self.pixel_count@[i] == 0 {
            0
        } else {
            average::truncated_average(self.sum(i, c) as nat, self.pixel_count@[i] as nat)
        }
    }

    fn average_at(&self, i: usize, sum: u32) -> (value: u8)
        requires
            i < BORDER_LEDS,
        ensures
            self.pixel_count@[i as int] == 0 ==> value == 0,
            self.pixel_count@[i as int] != 0 ==> value == average::truncated_average(
                sum as nat,
                self.pixel_count@[i as int] as nat,
            ),
    {
        if self.pixel_count[i] == 0 {
            0
        } else {
            average_truncated(sum, self.pixel_count[i])
        }
    }

    /// The average of every LED's block: red, green and blue of the first LED, of
    /// the second and so on. An LED without pixels is dark.
    pub fn average_rgb_u8(&self) -> (colors: Option<[u8; BORDER_BYTES]>)
        ensures
            colors is Some,
            forall|i: int|
                0 <= i < BORDER_BYTES ==> #[trigger] colors->Some_0@[i] == self.average(
                    i / 3,
                    i % 3,
                ),
    {
        let mut colors: [u8; BORDER_BYTES] = [0; BORDER_BYTES];
        let mut i: usize = 0;
        while i < BORDER_LEDS
            invariant
                i <= BORDER_LEDS,
                forall|j: int| 0 <= j < 3 * i ==> #[trigger] colors@[j] == self.average(j / 3, j % 3),
            decreases BORDER_LEDS - i,
        {
            colors[i * 3] = self.average_at(i, self.sum_r[i]);
            colors[i * 3 + 1] = self.average_at(i, self.sum_g[i]);
            colors[i * 3 + 2] = self.average_at(i, self.sum_b[i]);
            i += 1;
        }
        Some(colors)
    }
}

#[derive(Debug, Clone, Copy, PartialEq, Eq, Structural)]
pub struct PixelSum {
    pub r: u32,
    pub g: u32,
    pub b: u32,
    pub count: u32,
}

impl Default for PixelSum {
    fn default() -> (sum: Self)
        ensures
            sum == (PixelSum { r: 0, g: 0, b: 0, count: 0 }),
    {
        PixelSum { r: 0, g: 0, b: 0, count: 0 }
    }
}

/// What the threads of a workgroup share.
#[derive(Debug, Clone, Copy)]
pub struct WorkgroupSums {
    pub data: [PixelSum; WORKGROUP_SIZE],
}

/// The image that a kernel runs on.
#[derive(Debug, Clone, Copy, PartialEq, Eq, Structural)]
pub struct DispatchParams {
    pub width: u32,
    pub height: u32,
    pub stride: u32,
    pub bytes_per_pixel: u32,
}

impl Default for DispatchParams {
    fn default() -> (params: Self)
        ensures
            params == (DispatchParams { width: 0, height: 0, stride: 0, bytes_per_pixel: 0 }),
    {
        DispatchParams { width: 0, height: 0, stride: 0, bytes_per_pixel: 0 }
    }
}

/// An LED whose block has one colour shows that colour, and one without pixels is dark.
pub proof fn uniform_block_shows_its_color(buffer: AverageBuffer, i: int, c: int, value: nat)
    requires
        0 <= i < BORDER_LEDS,
        0 <= c < 3,
        value <= 255,
        buffer.sum(i, c) == value * buffer.pixel_count@[i],
        buffer.pixel_count@[i] < 0x100_0000,
        value * buffer.pixel_count@[i] < 0x100_0000,
    ensures
        buffer.pixel_count@[i] == 0 ==> buffer.average(i, c) == 0,
        buffer.pixel_count@[i] > 0 ==> buffer.average(i, c) == value,
{
    if buffer.pixel_count@[i] > 0 {
        average::uniform_average(value, buffer.pixel_count@[i] as nat);
    }
}

/// The channels of an LED are red, green and blue.
pub proof fn channels_are_red_green_blue(buffer: AverageBuffer, i: int)
    ensures
        buffer.sum(i, 0) == buffer.sum_r@[i],
        buffer.sum(i, 1) == buffer.sum_g@[i],
        buffer.sum(i, 2) == buffer.sum_b@[i],
{
}

} // verus!
