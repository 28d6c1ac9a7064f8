//! The compute device: what is asked of it, in which order, and what comes back.

use vstd::prelude::*;

use self::shader::border_colors;
use self::shader::border_colors::{Output, ReturnBuffer};
use crate::text;
use crate::text::joined;

pub mod compute;
pub mod drm;
pub mod pixels;
pub mod import;
pub mod memory;
pub mod plans;
pub mod setup;
pub mod shader;

verus! {

#[derive(Debug)]
pub enum ComputeError {
    VkLibrary,
    /// A call failed with this code.
    VkResult(i32),
    ShaderRead,
    PipelineCreation,
    DescriptorAllocation,
    NoPhysicalDevice,
    NoComputeQueue,
    NoHostVisibleMemory,
    NoSuitableMemory,
    NoDmabuf,
    EmptyDmabuf,
    DmabufSize,
    MissingPlaneMetadata,
    DmabufTooSmall { required: u64, available: u64 },
    DispatchInFlight,
    /// Storage images cannot be read without a format.
    MissingFeature,
    /// The format as text.
    UnsupportedFormat(String),
}

impl ComputeError {
    /// The error as text. Where another error lies beneath, `cause` is its text.
    pub open spec fn text(&self, cause: Seq<char>) -> Seq<char> {
        match *self {
            ComputeError::VkLibrary => "failed to load Vulkan library: "@ + cause,
            ComputeError::VkResult(_) => "Vulkan error: "@ + cause,
            ComputeError::ShaderRead => "failed to read shader module: "@ + cause,
            ComputeError::PipelineCreation => "failed to create compute pipeline"@,
            ComputeError::DescriptorAllocation => "failed to allocate descriptor set"@,
            ComputeError::NoPhysicalDevice => "no Vulkan physical device available"@,
            ComputeError::NoComputeQueue => "no compute-capable queue family found"@,
            ComputeError::NoHostVisibleMemory => "no host-visible memory type available"@,
            ComputeError::NoSuitableMemory => "no device-local memory type available"@,
            ComputeError::NoDmabuf => "no DMA-BUF available"@,
            ComputeError::EmptyDmabuf => "DMA-BUF has zero size"@,
            ComputeError::DmabufSize => "failed to query DMA-BUF size: "@ + cause,
            ComputeError::MissingPlaneMetadata => "missing DMA-BUF plane metadata"@,
            ComputeError::DmabufTooSmall { required, available } => {
                "DMA-BUF smaller than image requirements (need "@ + text::decimal(required as nat)
                    + " bytes, have "@ + text::decimal(available as nat) + " bytes)"@
            },
            ComputeError::DispatchInFlight => "command buffer already in flight"@,
            ComputeError::MissingFeature => {
                "required device feature not supported: shaderStorageImageReadWithoutFormat"@
            },
            ComputeError::UnsupportedFormat(format) => "unsupported DRM format: "@ + format@,
        }
    }

    /// The error as text. Where another error lies beneath, `cause` is its text.
    pub fn message(&self, cause: &str) -> (message: String)
        ensures
            message@ == self.text(cause@),
    {
        match self {
            ComputeError::VkLibrary => joined("failed to load Vulkan library: ", cause),
            ComputeError::VkResult(_) => joined("Vulkan error: ", cause),
            ComputeError::ShaderRead => joined("failed to read shader module: ", cause),
            ComputeError::PipelineCreation => String::from_str("failed to create compute pipeline"),
            ComputeError::DescriptorAllocation => String::from_str(
                "failed to allocate descriptor set",
            ),
            ComputeError::NoPhysicalDevice => String::from_str(
                "no Vulkan physical device available",
            ),
            ComputeError::NoComputeQueue => String::from_str(
                "no compute-capable queue family found",
            ),
            ComputeError::NoHostVisibleMemory => String::from_str(
                "no host-visible memory type available",
            ),
            ComputeError::NoSuitableMemory => String::from_str(
                "no device-local memory type available",
            ),
            ComputeError::NoDmabuf => String::from_str("no DMA-BUF available"),
            ComputeError::EmptyDmabuf => String::from_str("DMA-BUF has zero size"),
            ComputeError::DmabufSize => joined("failed to query DMA-BUF size: ", cause),
            ComputeError::MissingPlaneMetadata => String::from_str(
                "missing DMA-BUF plane metadata",
            ),
            ComputeError::DmabufTooSmall { required, available } => {
                let mut message = String::from_str(
                    "DMA-BUF smaller than image requirements (need ",
                );
                text::push_decimal(&mut message, *required);
                message.append(" bytes, have ");
                text::push_decimal(&mut message, *available);
                message.append(" bytes)");
                message
            },
            ComputeError::DispatchInFlight => String::from_str("command buffer already in flight"),
            ComputeError::MissingFeature => String::from_str(
                "required device feature not supported: shaderStorageImageReadWithoutFormat",
            ),
            ComputeError::UnsupportedFormat(format) => joined(
                "unsupported DRM format: ",
                format.as_str(),
            ),
        }
    }
}

/// The sums that a kernel came to.
#[derive(Debug, Clone, Copy, PartialEq, Eq, Structural)]
pub struct ComputeOutput {
    pub sum_r: i64,
    pub sum_g: i64,
    pub sum_b: i64,
    pub pixel_count: i64,
}

impl Default for ComputeOutput {
    fn default() -> (output: Self)
        ensures
            output == (ComputeOutput { sum_r: 0, sum_g: 0, sum_b: 0, pixel_count: 0 }),
    {
        ComputeOutput { sum_r: 0, sum_g: 0, sum_b: 0, pixel_count: 0 }
    }
}

impl ComputeOutput {
    /// The average colour.
    pub open spec fn average(self) -> Seq<u8> {
        seq![
            border_colors::channel_average(self.sum_r, self.pixel_count),
            border_colors::channel_average(self.sum_g, self.pixel_count),
            border_colors::channel_average(self.sum_b, self.pixel_count),
        ]
    }

    /// The average colour, if there was any pixel.
    pub fn average_rgb_u8(&self) -> (average: Option<[u8; 3]>)
        ensures
            match average {
                Some(rgb) => self.pixel_count > 0 && rgb@ == self.average(),
                None => self.pixel_count <= 0,
            },
    {
        let output = Output {
            sum_r: self.sum_r,
            sum_g: self.sum_g,
            sum_b: self.sum_b,
            pixel_count: self.pixel_count,
        };
        output.average_rgb_u8()
    }
}

impl From<ReturnBuffer> for ComputeOutput {
    fn from(value: ReturnBuffer) -> (output: Self) {
        ComputeOutput {
            sum_r: value.sum_r,
            sum_g: value.sum_g,
            sum_b: value.sum_b,
            pixel_count: value.pixel_count,
        }
    }
}

impl vstd::std_specs::convert::FromSpecImpl<ReturnBuffer> for ComputeOutput {
    open spec fn obeys_from_spec() -> bool {
        true
    }

    open spec fn from_spec(value: ReturnBuffer) -> Self {
        ComputeOutput {
            sum_r: value.sum_r,
            sum_g: value.sum_g,
            sum_b: value.sum_b,
            pixel_count: value.pixel_count,
        }
    }
}

} // verus!
