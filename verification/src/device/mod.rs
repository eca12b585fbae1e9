//! Removable storage devices: what is known of one, which of them may be
//! wiped, and how the platforms' descriptions of them are read.

pub mod diskutil;
pub mod info;
pub mod platform;
pub mod windows;

pub use info::Device;
