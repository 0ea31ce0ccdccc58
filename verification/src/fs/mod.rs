//! The file system's block device.
pub mod sd;
