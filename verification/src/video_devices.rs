//! The device model shared by every backend, and the backends themselves.
//! One backend serves a platform: `linux` where Video for Linux is to be
//! had, `windows` where Media Foundation is.

pub mod device;
pub mod error;
pub mod linux;
pub mod order;
pub mod windows;

pub use self::device::Device;
pub use self::device::FrameSizeType;
pub use self::error::DiscoveryError;
