//! The compute kernels, written for one workgroup: what each thread adds up and
//! how the workgroup's sums are put together.

pub mod border_colors;
pub mod color;
pub mod led_border;
pub mod stretches;
pub mod sums;
