//! The kernel that sums up the colours of the screen.

use vstd::prelude::*;

use super::ImageInfo;
use crate::average;
use crate::average::average_rounded;

pub use crate::shadercomm::DispatchParams;

verus! {

/// What the kernel writes.
#[derive(Debug, Clone, Copy, PartialEq, Eq, Structural)]
pub struct ReturnBuffer {
    pub sum_r: i64,
    pub sum_g: i64,
    pub sum_b: i64,
    pub pixel_count: i64,
    pub padding: i64,
}

/// The sums of the channels over some pixels.
#[derive(Debug, Clone, Copy, PartialEq, Eq, Structural)]
pub struct Output {
    pub sum_r: i64,
    pub sum_g: i64,
    pub sum_b: i64,
    pub pixel_count: i64,
}

impl Default for ReturnBuffer {
    fn default() -> (buffer: Self)
        ensures
            buffer == (ReturnBuffer { sum_r: 0, sum_g: 0, sum_b: 0, pixel_count: 0, padding: 0 }),
    {
        ReturnBuffer { sum_r: 0, sum_g: 0, sum_b: 0, pixel_count: 0, padding: 0 }
    }
}

impl Default for Output {
    fn default() -> (output: Self)
        ensures
            output == (Output { sum_r: 0, sum_g: 0, sum_b: 0, pixel_count: 0 }),
    {
        Output { sum_r: 0, sum_g: 0, sum_b: 0, pixel_count: 0 }
    }
}

impl ReturnBuffer {
    /// The sums in the buffer.
    pub open spec fn output(self) -> Output {
        Output {
            sum_r: self.sum_r,
            sum_g: self.sum_g,
            sum_b: self.sum_b,
            pixel_count: self.pixel_count,
        }
    }
}

impl From<ReturnBuffer> for Output {
    fn from(value: ReturnBuffer) -> (output: Self) {
        Output {
            sum_r: value.sum_r,
            sum_g: value.sum_g,
            sum_b: value.sum_b,
            pixel_count: value.pixel_count,
        }
    }
}

impl vstd::std_specs::convert::FromSpecImpl<ReturnBuffer> for Output {
    open spec fn obeys_from_spec() -> bool {
        true
    }

    open spec fn from_spec(value: ReturnBuffer) -> Self {
        value.output()
    }
}

/// The rounded average of a channel. A sum below zero counts as zero.
pub open spec fn channel_average(sum: i64, count: i64) -> u8 {
    if sum <= 0 {
        0
    } else {
        average::rounded_average(sum as nat, count as nat) as u8
    }
}

fn channel_of(sum: i64, count: i64) -> (value: u8)
    requires
        count > 0,
    ensures
        value == channel_average(sum, count),
{
    if sum <= 0 {
        0
    } else {
        average_rounded(sum as u64, count as u64)
    }
}

impl Output {
    /// The average colour.
    pub open spec fn average(self) -> Seq<u8> {
        seq![
            channel_average(self.sum_r, self.pixel_count),
            channel_average(self.sum_g, self.pixel_count),
            channel_average(self.sum_b, self.pixel_count),
        ]
    }

    /// The average colour, if there was any pixel.
    pub fn average_rgb_u8(&self) -> (average: Option<[u8; 3]>)
        ensures
            match average {
                Some(rgb) => self.pixel_count > 0 && rgb@ == self.average(),
                None => self.pixel_count <= 0,
            },
    {
        if self.pixel_count <= 0 {
            return None;
        }
        let rgb: [u8; 3] = [
            channel_of(self.sum_r, self.pixel_count),
            channel_of(self.sum_g, self.pixel_count),
            channel_of(self.sum_b, self.pixel_count),
        ];
        assert(rgb@ =~= self.average());
        Some(rgb)
    }
}

/// The parameters for an image.
pub open spec fn params_of(image: ImageInfo) -> DispatchParams {
    DispatchParams {
        width: image.width,
        height: image.height,
        stride: image.stride,
        bytes_per_pixel: image.bytes_per_pixel,
    }
}

/// The parameters as the words that the kernel is given.
pub open spec fn param_words(params: DispatchParams) -> Seq<u32> {
    seq![params.width, params.height, params.stride, params.bytes_per_pixel]
}

/// Puts the image into the parameters, which come out as words.
pub fn prepare(scratch: &mut DispatchParams, image: ImageInfo) -> (words: [u32; 4])
    ensures
        *final(scratch) == params_of(image),
        words@ == param_words(params_of(image)),
{
    *scratch = DispatchParams {
        width: image.width,
        height: image.height,
        stride: image.stride,
        bytes_per_pixel: image.bytes_per_pixel,
    };
    let words: [u32; 4] = [
        scratch.width,
        scratch.height,
        scratch.stride,
        scratch.bytes_per_pixel,
    ];
    assert(words@ =~= param_words(params_of(image)));
    words
}

/// Pixels of one colour have that colour on average, as long as their sums are exact in
/// single precision.
pub proof fn one_colour_averages_to_itself(value: u8, count: i64)
    requires
        0 < count < 0x100_0000,
        value * count < 0x100_0000,
    ensures
        channel_average((value * count) as i64, count) == value,
{
    average::uniform_average(value as nat, count as nat);
    let sum = (value * count) as i64;
    assert(value as nat * count as nat == value * count);
    if sum <= 0 {
        assert(value == 0) by (nonlinear_arith)
            requires
                value * count <= 0,
                count > 0,
        ;
    }
}

} // verus!
