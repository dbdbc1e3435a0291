//! Handles to open devices.

use vstd::prelude::*;
use std::time::Duration;

use crate::backend::UsbDevice;
use crate::error::UsbError;
use crate::protocol::{
    BosDescriptor, ConfigDescriptor, ControlSetup, DeviceDescriptor, EndpointInfo, HubDescriptor,
    PipePolicy, PipePolicyKind,
};

verus! {

/// A handle to an open USB device, providing descriptor reads and transfers.
///
/// Each operation does what the device of the handle does. The handle owns its device. To use
/// it from several threads or tasks, put it behind a lock.
pub struct DeviceHandle<D: UsbDevice> {
    inner: D,
}

impl<D: UsbDevice> DeviceHandle<D> {
    /// The device of the handle.
    pub closed spec fn device(self) -> D {
        self.inner
    }

    /// A handle to a device.
    pub fn new(dev: D) -> (h: DeviceHandle<D>)
        ensures
            h.device() == dev,
    {
        DeviceHandle { inner: dev }
    }

    pub fn read_device_descriptor(&self) -> (r: Result<DeviceDescriptor, UsbError>)
        ensures
            call_ensures(D::read_device_descriptor, (&self.device(),), r),
    {
        self.inner.read_device_descriptor()
    }

    pub fn read_config_descriptor(&self, index: u8) -> (r: Result<ConfigDescriptor, UsbError>)
        ensures
            call_ensures(D::read_config_descriptor, (&self.device(), index), r),
    {
        self.inner.read_config_descriptor(index)
    }

    pub fn read_string_descriptor(&self, index: u8, lang: u16) -> (r: Result<String, UsbError>)
        ensures
            call_ensures(D::read_string_descriptor, (&self.device(), index, lang), r),
    {
        self.inner.read_string_descriptor(index, lang)
    }

    pub fn claim_interface(&mut self, interface: u8) -> (r: Result<(), UsbError>)
        ensures
            exists|d: &mut D|
                {
                    &&& *d == old(self).device()
                    &&& *final(d) == final(self).device()
                    &&& #[trigger] call_ensures(D::claim_interface, (d, interface), r)
                },
    {
        self.inner.claim_interface(interface)
    }

    pub fn release_interface(&mut self, interface: u8) -> (r: Result<(), UsbError>)
        ensures
            exists|d: &mut D|
                {
                    &&& *d == old(self).device()
                    &&& *final(d) == final(self).device()
                    &&& #[trigger] call_ensures(D::release_interface, (d, interface), r)
                },
    {
        self.inner.release_interface(interface)
    }

    pub fn control_transfer(
        &self,
        setup: ControlSetup,
        data: Option<&mut [u8]>,
        timeout: Duration,
    ) -> (r: Result<usize, UsbError>)
        ensures
            call_ensures(D::control_transfer, (&self.device(), setup, data, timeout), r),
    {
        self.inner.control_transfer(setup, data, timeout)
    }

    pub fn bulk_read(
        &self,
        endpoint: u8,
        buf: &mut [u8],
        timeout: Duration,
    ) -> (r: Result<usize, UsbError>)
        ensures
            final(buf)@.len() == old(buf)@.len(),
            exists|b: &mut [u8]|
                {
                    &&& (*b)@ == old(buf)@
                    &&& final(b)@ == final(buf)@
                    &&& #[trigger] call_ensures(
                        D::bulk_read,
                        (&self.device(), endpoint, b, timeout),
                        r,
                    )
                },
    {
        let r: Result<usize, UsbError> = self.inner.bulk_read(endpoint, buf, timeout);
        assert(exists|b: &mut [u8]|
            (*b)@ == old(buf)@ && final(b)@ == buf@ && #[trigger] call_ensures(
                D::bulk_read,
                (&self.device(), endpoint, b, timeout),
                r,
            ));
        r
    }

    pub fn bulk_write(
        &self,
        endpoint: u8,
        buf: &[u8],
        timeout: Duration,
    ) -> (r: Result<usize, UsbError>)
        ensures
            call_ensures(D::bulk_write, (&self.device(), endpoint, buf, timeout), r),
    {
        self.inner.bulk_write(endpoint, buf, timeout)
    }

    pub fn interrupt_read(
        &self,
        endpoint: u8,
        buf: &mut [u8],
        timeout: Duration,
    ) -> (r: Result<usize, UsbError>)
        ensures
            final(buf)@.len() == old(buf)@.len(),
            exists|b: &mut [u8]|
                {
                    &&& (*b)@ == old(buf)@
                    &&& final(b)@ == final(buf)@
                    &&& #[trigger] call_ensures(
                        D::interrupt_read,
                        (&self.device(), endpoint, b, timeout),
                        r,
                    )
                },
    {
        let r: Result<usize, UsbError> = self.inner.interrupt_read(endpoint, buf, timeout);
        assert(exists|b: &mut [u8]|
            (*b)@ == old(buf)@ && final(b)@ == buf@ && #[trigger] call_ensures(
                D::interrupt_read,
                (&self.device(), endpoint, b, timeout),
                r,
            ));
        r
    }

    pub fn interrupt_write(
        &self,
        endpoint: u8,
        buf: &[u8],
        timeout: Duration,
    ) -> (r: Result<usize, UsbError>)
        ensures
            call_ensures(D::interrupt_write, (&self.device(), endpoint, buf, timeout), r),
    {
        self.inner.interrupt_write(endpoint, buf, timeout)
    }

    pub fn reset_pipe(&self, endpoint: u8) -> (r: Result<(), UsbError>)
        ensures
            call_ensures(D::reset_pipe, (&self.device(), endpoint), r),
    {
        self.inner.reset_pipe(endpoint)
    }

    pub fn abort_pipe(&self, endpoint: u8) -> (r: Result<(), UsbError>)
        ensures
            call_ensures(D::abort_pipe, (&self.device(), endpoint), r),
    {
        self.inner.abort_pipe(endpoint)
    }

    pub fn reset_device(&self) -> (r: Result<(), UsbError>)
        ensures
            call_ensures(D::reset_device, (&self.device(),), r),
    {
        self.inner.reset_device()
    }

    pub fn get_alternate_setting(&self, interface: u8) -> (r: Result<u8, UsbError>)
        ensures
            call_ensures(D::get_alternate_setting, (&self.device(), interface), r),
    {
        self.inner.get_alternate_setting(interface)
    }

    pub fn set_alternate_setting(&mut self, interface: u8, alt: u8) -> (r: Result<(), UsbError>)
        ensures
            exists|d: &mut D|
                {
                    &&& *d == old(self).device()
                    &&& *final(d) == final(self).device()
                    &&& #[trigger] call_ensures(D::set_alternate_setting, (d, interface, alt), r)
                },
    {
        self.inner.set_alternate_setting(interface, alt)
    }

    /// Query the live pipe information for `endpoint` from the host controller driver.
    pub fn get_pipe_info(&self, endpoint: u8) -> (r: Result<EndpointInfo, UsbError>)
        ensures
            call_ensures(D::get_pipe_info, (&self.device(), endpoint), r),
    {
        self.inner.get_pipe_info(endpoint)
    }

    /// Read the current value of a pipe policy.
    pub fn get_pipe_policy(
        &self,
        endpoint: u8,
        kind: PipePolicyKind,
    ) -> (r: Result<PipePolicy, UsbError>)
        ensures
            call_ensures(D::get_pipe_policy, (&self.device(), endpoint, kind), r),
    {
        self.inner.get_pipe_policy(endpoint, kind)
    }

    /// Write a pipe policy value.
    pub fn set_pipe_policy(&self, endpoint: u8, policy: PipePolicy) -> (r: Result<(), UsbError>)
        ensures
            call_ensures(D::set_pipe_policy, (&self.device(), endpoint, policy), r),
    {
        self.inner.set_pipe_policy(endpoint, policy)
    }

    /// Read the Binary Object Store (BOS) descriptor from the device.
    pub fn read_bos_descriptor(&self) -> (r: Result<BosDescriptor, UsbError>)
        ensures
            call_ensures(D::read_bos_descriptor, (&self.device(),), r),
    {
        self.inner.read_bos_descriptor()
    }

    /// Read the USB Hub descriptor (hub devices only).
    pub fn read_hub_descriptor(&self) -> (r: Result<HubDescriptor, UsbError>)
        ensures
            call_ensures(D::read_hub_descriptor, (&self.device(),), r),
    {
        self.inner.read_hub_descriptor()
    }

    /// Bulk IN transfer via overlapped I/O with a hard timeout.
    pub fn async_bulk_read(
        &self,
        endpoint: u8,
        buf: &mut [u8],
        timeout: Duration,
    ) -> (r: Result<usize, UsbError>)
        ensures
            final(buf)@.len() == old(buf)@.len(),
            exists|b: &mut [u8]|
                {
                    &&& (*b)@ == old(buf)@
                    &&& final(b)@ == final(buf)@
                    &&& #[trigger] call_ensures(
                        D::async_bulk_read,
                        (&self.device(), endpoint, b, timeout),
                        r,
                    )
                },
    {
        let r: Result<usize, UsbError> = self.inner.async_bulk_read(endpoint, buf, timeout);
        assert(exists|b: &mut [u8]|
            (*b)@ == old(buf)@ && final(b)@ == buf@ && #[trigger] call_ensures(
                D::async_bulk_read,
                (&self.device(), endpoint, b, timeout),
                r,
            ));
        r
    }

    /// Bulk OUT transfer via overlapped I/O with a hard timeout.
    pub fn async_bulk_write(
        &self,
        endpoint: u8,
        buf: &[u8],
        timeout: Duration,
    ) -> (r: Result<usize, UsbError>)
        ensures
            call_ensures(D::async_bulk_write, (&self.device(), endpoint, buf, timeout), r),
    {
        self.inner.async_bulk_write(endpoint, buf, timeout)
    }

    /// Interrupt IN transfer via overlapped I/O with a hard timeout.
    pub fn async_interrupt_read(
        &self,
        endpoint: u8,
        buf: &mut [u8],
        timeout: Duration,
    ) -> (r: Result<usize, UsbError>)
        ensures
            final(buf)@.len() == old(buf)@.len(),
            exists|b: &mut [u8]|
                {
                    &&& (*b)@ == old(buf)@
                    &&& final(b)@ == final(buf)@
                    &&& #[trigger] call_ensures(
                        D::async_interrupt_read,
                        (&self.device(), endpoint, b, timeout),
                        r,
                    )
                },
    {
        let r: Result<usize, UsbError> = self.inner.async_interrupt_read(endpoint, buf, timeout);
        assert(exists|b: &mut [u8]|
            (*b)@ == old(buf)@ && final(b)@ == buf@ && #[trigger] call_ensures(
                D::async_interrupt_read,
                (&self.device(), endpoint, b, timeout),
                r,
            ));
        r
    }

    /// Interrupt OUT transfer via overlapped I/O with a hard timeout.
    pub fn async_interrupt_write(
        &self,
        endpoint: u8,
        buf: &[u8],
        timeout: Duration,
    ) -> (r: Result<usize, UsbError>)
        ensures
            call_ensures(D::async_interrupt_write, (&self.device(), endpoint, buf, timeout), r),
    {
        self.inner.async_interrupt_write(endpoint, buf, timeout)
    }

    /// Read from an isochronous IN endpoint.
    pub fn isoch_read(&self, endpoint: u8, buf: &mut [u8]) -> (r: Result<usize, UsbError>)
        ensures
            final(buf)@.len() == old(buf)@.len(),
            exists|b: &mut [u8]|
                {
                    &&& (*b)@ == old(buf)@
                    &&& final(b)@ == final(buf)@
                    &&& #[trigger] call_ensures(
                        D::isoch_read,
                        (&self.device(), endpoint, b),
                        r,
                    )
                },
    {
        let r: Result<usize, UsbError> = self.inner.isoch_read(endpoint, buf);
        assert(exists|b: &mut [u8]|
            (*b)@ == old(buf)@ && final(b)@ == buf@ && #[trigger] call_ensures(
                D::isoch_read,
                (&self.device(), endpoint, b),
                r,
            ));
        r
    }

    /// Write to an isochronous OUT endpoint.
    pub fn isoch_write(&self, endpoint: u8, buf: &[u8]) -> (r: Result<usize, UsbError>)
        ensures
            call_ensures(D::isoch_write, (&self.device(), endpoint, buf), r),
    {
        self.inner.isoch_write(endpoint, buf)
    }
}

} // verus!
