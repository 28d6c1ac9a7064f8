//! The LED controller's firmware logic: cutting frames out of the serial byte
//! stream and encoding them for the strip.

pub mod deframer;
pub mod led;
pub mod receiver;
pub mod usb;
