//! The macOS backend: devices that IOKit lists and IOUSBLib opens.

pub mod codes;
pub mod device;
pub mod interfaces;
pub mod path;

pub use self::device::MacOsBackend;
