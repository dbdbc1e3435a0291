//! What the platform backends have in common.

pub mod linux;
pub mod macos;
pub mod mock;
pub mod windows;

use vstd::prelude::*;
use std::time::Duration;

use crate::error::{outcome, ErrorView, UsbError};
use crate::protocol::{
    BosDescriptor, ConfigDescriptor, ControlSetup, DeviceDescriptor, DeviceInfo, EndpointInfo,
    HubDescriptor, PipePolicy, PipePolicyKind,
};

verus! {

/// How a device is opened.
#[derive(Debug, Clone, Copy, PartialEq, Eq, Structural)]
pub enum Access {
    ReadWrite,
    ReadOnly,
}

/// Trait implemented by each platform backend.
/// The backend is responsible for enumeration and opening devices.
pub trait UsbBackend: Send + Sync {
    /// What the backend opens.
    type Device: UsbDevice;

    /// Enumerate all connected USB devices visible to this backend.
    fn enumerate(&self) -> Result<Vec<DeviceInfo>, UsbError>;

    /// Open a device by its platform path.
    fn open(&self, path: &str) -> Result<Self::Device, UsbError>;
}

/// Trait representing an open USB device capable of descriptor reads and transfers.
///
/// A device that does not implement one of the optional operations refuses it as unsupported.
/// A read keeps the length of its buffer, as every function does that gets a slice.
pub trait UsbDevice: Send + Sized {
    fn read_device_descriptor(&self) -> Result<DeviceDescriptor, UsbError>;

    fn read_config_descriptor(&self, index: u8) -> Result<ConfigDescriptor, UsbError>;

    /// Read a USB string descriptor.
    /// `lang` should be 0x0409 (English) for normal strings, or 0x0000 (index 0)
    /// to enumerate supported language IDs.
    fn read_string_descriptor(&self, index: u8, lang: u16) -> Result<String, UsbError>;

    fn claim_interface(&mut self, interface: u8) -> Result<(), UsbError>;

    fn release_interface(&mut self, interface: u8) -> Result<(), UsbError>;

    fn control_transfer(
        &self,
        setup: ControlSetup,
        data: Option<&mut [u8]>,
        timeout: Duration,
    ) -> (r: Result<usize, UsbError>)
        ensures
            data matches Some(b) ==> final(b)@.len() == (*b)@.len(),
    ;

    /// Read bytes from a bulk IN endpoint.
    /// `endpoint` is the full USB endpoint address (e.g. `0x81` for EP1-IN).
    fn bulk_read(
        &self,
        endpoint: u8,
        buf: &mut [u8],
        timeout: Duration,
    ) -> (r: Result<usize, UsbError>)
        ensures
            final(buf)@.len() == old(buf)@.len(),
        default_ensures
            outcome(r) == Err::<usize, ErrorView>(ErrorView::Unsupported),
            final(buf)@ == old(buf)@,
    {
        Err(UsbError::Unsupported)
    }

    /// Write bytes to a bulk OUT endpoint.
    /// `endpoint` is the full USB endpoint address (e.g. `0x01` for EP1-OUT).
    fn bulk_write(
        &self,
        endpoint: u8,
        buf: &[u8],
        timeout: Duration,
    ) -> (r: Result<usize, UsbError>)
        default_ensures
            outcome(r) == Err::<usize, ErrorView>(ErrorView::Unsupported),
    {
        Err(UsbError::Unsupported)
    }

    /// Read bytes from an interrupt IN endpoint.
    fn interrupt_read(
        &self,
        endpoint: u8,
        buf: &mut [u8],
        timeout: Duration,
    ) -> (r: Result<usize, UsbError>)
        ensures
            final(buf)@.len() == old(buf)@.len(),
        default_ensures
            outcome(r) == Err::<usize, ErrorView>(ErrorView::Unsupported),
            final(buf)@ == old(buf)@,
    {
        Err(UsbError::Unsupported)
    }

    /// Write bytes to an interrupt OUT endpoint.
    fn interrupt_write(
        &self,
        endpoint: u8,
        buf: &[u8],
        timeout: Duration,
    ) -> (r: Result<usize, UsbError>)
        default_ensures
            outcome(r) == Err::<usize, ErrorView>(ErrorView::Unsupported),
    {
        Err(UsbError::Unsupported)
    }

    /// Clear a halted (stalled) pipe and reset the endpoint data toggle.
    fn reset_pipe(&self, endpoint: u8) -> (r: Result<(), UsbError>)
        default_ensures
            outcome(r) == Err::<(), ErrorView>(ErrorView::Unsupported),
    {
        Err(UsbError::Unsupported)
    }

    /// Abort all pending I/O on a pipe without resetting the data toggle.
    fn abort_pipe(&self, endpoint: u8) -> (r: Result<(), UsbError>)
        default_ensures
            outcome(r) == Err::<(), ErrorView>(ErrorView::Unsupported),
    {
        Err(UsbError::Unsupported)
    }

    /// Cycle the device through a bus reset.
    fn reset_device(&self) -> (r: Result<(), UsbError>)
        default_ensures
            outcome(r) == Err::<(), ErrorView>(ErrorView::Unsupported),
    {
        Err(UsbError::Unsupported)
    }

    /// Return the active alternate setting for an interface (must be claimed).
    fn get_alternate_setting(&self, interface: u8) -> (r: Result<u8, UsbError>)
        default_ensures
            outcome(r) == Err::<u8, ErrorView>(ErrorView::Unsupported),
    {
        Err(UsbError::Unsupported)
    }

    /// Select an alternate setting for an interface (must be claimed first).
    fn set_alternate_setting(&mut self, interface: u8, alt: u8) -> (r: Result<(), UsbError>)
        default_ensures
            outcome(r) == Err::<(), ErrorView>(ErrorView::Unsupported),
            *final(self) == *old(self),
    {
        Err(UsbError::Unsupported)
    }

    /// Query the runtime pipe information for a given endpoint address.
    /// Returns an [`EndpointInfo`] populated from the driver's pipe descriptor.
    fn get_pipe_info(&self, endpoint: u8) -> (r: Result<EndpointInfo, UsbError>)
        default_ensures
            outcome(r) == Err::<EndpointInfo, ErrorView>(ErrorView::Unsupported),
    {
        Err(UsbError::Unsupported)
    }

    /// Read the current value of a pipe policy.
    fn get_pipe_policy(
        &self,
        endpoint: u8,
        kind: PipePolicyKind,
    ) -> (r: Result<PipePolicy, UsbError>)
        default_ensures
            outcome(r) == Err::<PipePolicy, ErrorView>(ErrorView::Unsupported),
    {
        Err(UsbError::Unsupported)
    }

    /// Write a pipe policy value.
    fn set_pipe_policy(&self, endpoint: u8, policy: PipePolicy) -> (r: Result<(), UsbError>)
        default_ensures
            outcome(r) == Err::<(), ErrorView>(ErrorView::Unsupported),
    {
        Err(UsbError::Unsupported)
    }

    /// Read the Binary Object Store (BOS) descriptor from the device.
    ///
    /// Only available on USB 2.0+ devices with a BOS descriptor.
    fn read_bos_descriptor(&self) -> (r: Result<BosDescriptor, UsbError>)
        default_ensures
            outcome(r) == Err::<BosDescriptor, ErrorView>(ErrorView::Unsupported),
    {
        Err(UsbError::Unsupported)
    }

    /// Read the Hub descriptor via a class-specific GET_DESCRIPTOR request.
    ///
    /// Only succeeds on USB hub devices (bDeviceClass = 0x09).
    fn read_hub_descriptor(&self) -> (r: Result<HubDescriptor, UsbError>)
        default_ensures
            outcome(r) == Err::<HubDescriptor, ErrorView>(ErrorView::Unsupported),
    {
        Err(UsbError::Unsupported)
    }

    /// Submit a bulk IN transfer using overlapped I/O and wait up to `timeout`.
    ///
    /// The overlapped operations use the I/O mechanism of the operating system to submit a
    /// transfer and to wait for its completion. The other ones set a timeout policy on the pipe
    /// and issue a synchronous transfer.
    fn async_bulk_read(
        &self,
        endpoint: u8,
        buf: &mut [u8],
        timeout: Duration,
    ) -> (r: Result<usize, UsbError>)
        ensures
            final(buf)@.len() == old(buf)@.len(),
        default_ensures
            outcome(r) == Err::<usize, ErrorView>(ErrorView::Unsupported),
            final(buf)@ == old(buf)@,
    {
        Err(UsbError::Unsupported)
    }

    /// Submit a bulk OUT transfer using overlapped I/O and wait up to `timeout`.
    fn async_bulk_write(
        &self,
        endpoint: u8,
        buf: &[u8],
        timeout: Duration,
    ) -> (r: Result<usize, UsbError>)
        default_ensures
            outcome(r) == Err::<usize, ErrorView>(ErrorView::Unsupported),
    {
        Err(UsbError::Unsupported)
    }

    /// Submit an interrupt IN transfer using overlapped I/O and wait up to `timeout`.
    fn async_interrupt_read(
        &self,
        endpoint: u8,
        buf: &mut [u8],
        timeout: Duration,
    ) -> (r: Result<usize, UsbError>)
        ensures
            final(buf)@.len() == old(buf)@.len(),
        default_ensures
            outcome(r) == Err::<usize, ErrorView>(ErrorView::Unsupported),
            final(buf)@ == old(buf)@,
    {
        Err(UsbError::Unsupported)
    }

    /// Submit an interrupt OUT transfer using overlapped I/O and wait up to `timeout`.
    fn async_interrupt_write(
        &self,
        endpoint: u8,
        buf: &[u8],
        timeout: Duration,
    ) -> (r: Result<usize, UsbError>)
        default_ensures
            outcome(r) == Err::<usize, ErrorView>(ErrorView::Unsupported),
    {
        Err(UsbError::Unsupported)
    }

    /// Read from an isochronous IN endpoint.
    /// The length of the buffer determines the transfer size.
    fn isoch_read(&self, endpoint: u8, buf: &mut [u8]) -> (r: Result<usize, UsbError>)
        ensures
            final(buf)@.len() == old(buf)@.len(),
        default_ensures
            outcome(r) == Err::<usize, ErrorView>(ErrorView::Unsupported),
            final(buf)@ == old(buf)@,
    {
        Err(UsbError::Unsupported)
    }

    /// Write to an isochronous OUT endpoint.
    fn isoch_write(&self, endpoint: u8, buf: &[u8]) -> (r: Result<usize, UsbError>)
        default_ensures
            outcome(r) == Err::<usize, ErrorView>(ErrorView::Unsupported),
    {
        Err(UsbError::Unsupported)
    }
}

} // verus!
