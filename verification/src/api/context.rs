//! The entry point: listing and opening the devices of a backend.

use vstd::prelude::*;

use crate::api::device_handle::DeviceHandle;
use crate::backend::UsbBackend;
use crate::error::UsbError;
use crate::protocol::DeviceInfo;

verus! {

/// Lists and opens the devices of a backend.
pub struct UsbContext<B: UsbBackend> {
    backend: B,
}

impl<B: UsbBackend> UsbContext<B> {
    /// The backend of the context.
    pub closed spec fn backend(self) -> B {
        self.backend
    }

    /// A context with a backend.
    pub fn with_backend(backend: B) -> (c: UsbContext<B>)
        ensures
            c.backend() == backend,
    {
        UsbContext { backend }
    }

    /// The connected devices.
    pub fn devices(&self) -> (r: Result<Vec<DeviceInfo>, UsbError>)
        ensures
            call_ensures(B::enumerate, (&self.backend(),), r),
    {
        self.backend.enumerate()
    }

    /// Opens a device by its path.
    pub fn open(&self, path: &str) -> (r: Result<DeviceHandle<B::Device>, UsbError>)
        ensures
            exists|opened: Result<B::Device, UsbError>|
                {
                    &&& #[trigger] call_ensures(B::open, (&self.backend(), path), opened)
                    &&& match opened {
                        Ok(d) => r is Ok && r->Ok_0.device() == d,
                        Err(e) => r is Err && r->Err_0 == e,
                    }
                },
    {
        let opened: Result<B::Device, UsbError> = self.backend.open(path);
        assert(call_ensures(B::open, (&self.backend(), path), opened));
        match opened {
            Ok(d) => Ok(DeviceHandle::new(d)),
            Err(e) => Err(e),
        }
    }
}

} // verus!
