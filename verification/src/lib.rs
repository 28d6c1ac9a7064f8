//! Verified core of the ambient light system: the LED wire format, the
//! daemon's state machines, the screen-border kernel and the control client.

pub mod average;
pub mod bindings;
pub mod bridge;
pub mod cec;
pub mod cli;
pub mod client;
pub mod daemoncomm;
pub mod espled;
pub mod gpu;
pub mod ids;
pub mod kinect;
pub mod led;
pub mod ledcomm;
pub mod shadercomm;
pub mod shaders;
pub mod single;
pub mod text;
pub mod wayland;
