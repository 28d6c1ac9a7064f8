//! The kernels that run on the screen, and what they give back.

use vstd::prelude::*;

use self::border_colors::{DispatchParams, Output, ReturnBuffer};

pub mod border_colors;

verus! {

#[derive(Debug, Clone, Copy, PartialEq, Eq, Structural)]
pub enum ShaderKind {
    BorderColors,
}

/// The image that a kernel is run on.
#[derive(Debug, Clone, Copy, PartialEq, Eq, Structural)]
pub struct ImageInfo {
    pub width: u32,
    pub height: u32,
    pub stride: u32,
    pub bytes_per_pixel: u32,
}

/// Room for the parameters of any kernel.
#[derive(Debug)]
pub struct DispatchScratch {
    border_colors: DispatchParams,
}

impl View for DispatchScratch {
    type V = DispatchParams;

    closed spec fn view(&self) -> DispatchParams {
        self.border_colors
    }
}

impl Default for DispatchScratch {
    fn default() -> (scratch: Self)
        ensures
            scratch@ == (DispatchParams { width: 0, height: 0, stride: 0, bytes_per_pixel: 0 }),
    {
        DispatchScratch { border_colors: DispatchParams::default() }
    }
}

impl DispatchScratch {
    pub(crate) fn border_colors_mut(&mut self) -> (params: &mut DispatchParams)
        ensures
            *params == old(self)@,
            final(self)@ == *final(params),
    {
        &mut self.border_colors
    }
}

/// What a kernel gives back.
#[derive(Debug, Clone, Copy)]
pub enum ShaderResult {
    BorderColors(Output),
}

impl ShaderResult {
    /// The average colour, if there was any pixel.
    pub fn average_rgb_u8(&self) -> (average: Option<[u8; 3]>)
        ensures
            match *self {
                ShaderResult::BorderColors(output) => match average {
                    Some(rgb) => output.pixel_count > 0 && rgb@ == output.average(),
                    None => output.pixel_count <= 0,
                },
            },
    {
        match self {
            ShaderResult::BorderColors(output) => output.average_rgb_u8(),
        }
    }

    /// What the kernel left in its buffer.
    pub fn readback(shader: ShaderKind, buffer: ReturnBuffer) -> (result: Self)
        ensures
            result == ShaderResult::BorderColors(buffer.output()),
    {
        match shader {
            ShaderKind::BorderColors => ShaderResult::from(Output::from(buffer)),
        }
    }
}

impl Default for ShaderResult {
    fn default() -> (result: Self)
        ensures
            result == ShaderResult::BorderColors(
                (Output { sum_r: 0, sum_g: 0, sum_b: 0, pixel_count: 0 }),
            ),
    {
        ShaderResult::BorderColors(Output::default())
    }
}

impl From<Output> for ShaderResult {
    fn from(value: Output) -> (result: Self) {
        ShaderResult::BorderColors(value)
    }
}

impl vstd::std_specs::convert::FromSpecImpl<Output> for ShaderResult {
    open spec fn obeys_from_spec() -> bool {
        true
    }

    open spec fn from_spec(value: Output) -> Self {
        ShaderResult::BorderColors(value)
    }
}

/// Puts the image into the parameters of the kernel, which come out as the four words
/// that it is given.
pub fn prepare(shader: ShaderKind, scratch: &mut DispatchScratch, image: ImageInfo) -> (words: [u32;
    4])
    ensures
        final(scratch)@ == border_colors::params_of(image),
        words@ == border_colors::param_words(border_colors::params_of(image)),
{
    match shader {
        ShaderKind::BorderColors => border_colors::prepare(scratch.border_colors_mut(), image),
    }
}

} // verus!
