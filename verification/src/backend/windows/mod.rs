//! The Windows backend: devices that the setup API lists and WinUSB opens.

pub mod control;
pub mod device;
pub mod enumeration;
pub mod opening;
pub mod pipes;
pub mod policy;
pub mod properties;
pub mod transfer;

pub use self::opening::WindowsBackend;
