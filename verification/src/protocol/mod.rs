//! The data of the USB protocol: descriptors, control requests and pipe policies.

pub mod control;
pub mod descriptor;
pub mod device_info;
pub mod pipe_policy;
pub mod reading;

pub use self::control::ControlSetup;
pub use self::descriptor::{
    BosCapability, BosDescriptor, ConfigDescriptor, DeviceDescriptor, EndpointInfo, HubDescriptor,
    InterfaceDescriptor,
};
pub use self::device_info::DeviceInfo;
pub use self::pipe_policy::{PipePolicy, PipePolicyKind};
