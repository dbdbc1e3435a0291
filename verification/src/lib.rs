//! Verified logic of a cross-platform USB device library.

pub mod api;
pub mod backend;
pub mod error;
pub mod hotplug;
pub mod numeral;
pub mod protocol;
pub mod text;
pub mod utf16;

pub use crate::api::context::UsbContext;
pub use crate::api::device_handle::DeviceHandle;
pub use crate::error::UsbError;
pub use crate::hotplug::{HotplugEvent, HotplugHandle};
pub use crate::protocol::{
    BosDescriptor, ConfigDescriptor, ControlSetup, DeviceDescriptor, DeviceInfo, EndpointInfo,
    HubDescriptor, InterfaceDescriptor, PipePolicy, PipePolicyKind,
};
