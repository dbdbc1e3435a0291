//! Opening a device, and reading its texts for enumeration.

use vstd::prelude::*;

use crate::backend::windows::device::{DeviceView, WinUsbDevice};
use crate::backend::windows::enumeration::{DeviceTexts, Enumeration, EnumerationView};
use crate::backend::windows::pipes::Handle;
use crate::backend::{Access, UsbDevice};
use crate::error::{hresult_meaning, HresultError, UsbError};
use crate::protocol::descriptor::DeviceDescriptor;
use crate::protocol::reading::ENGLISH_US;

verus! {

/// The `HRESULT` of a call that the rights of the user do not permit.
pub const ACCESS_DENIED: u32 = 0x8007_0005;

/// The backend for devices of the WinUSB class.
pub struct WindowsBackend;

impl WindowsBackend {
    /// Begins an enumeration, given how the device information set was obtained.
    pub fn enumerate(&self, obtained: Result<(), HresultError>) -> (r: Result<Enumeration, UsbError>)
        ensures
            match obtained {
                Ok(_) => r is Ok && r->Ok_0@ == EnumerationView::start(),
                Err(e) => r == Err::<Enumeration, UsbError>(hresult_meaning(e)),
            },
    {
        match obtained {
            Ok(_) => Ok(Enumeration::start()),
            Err(e) => Err(UsbError::from(e)),
        }
    }
}

/// How an attempt to open the file of a device ended.
#[derive(Debug)]
pub enum FileAttempt {
    Opened,
    /// The call succeeded with a handle that is not valid.
    Invalid,
    Failed(HresultError),
}

/// What follows an attempt to open the file of a device.
#[derive(Debug)]
pub enum FileStep {
    /// The file is open. WinUSB is to be initialized on it.
    Initialize,
    /// Try once more without write access.
    Retry(Access),
    /// Give up.
    Failed(UsbError),
}

/// What an attempt to open the file of a device leads to. Without write access descriptors can
/// still be read, so an attempt that is denied is followed by one without it.
pub open spec fn file_step(access: Access, attempt: FileAttempt) -> FileStep {
    match attempt {
        FileAttempt::Opened => FileStep::Initialize,
        FileAttempt::Invalid => match access {
            Access::ReadWrite => FileStep::Failed(UsbError::DeviceNotFound),
            Access::ReadOnly => FileStep::Failed(UsbError::PermissionDenied),
        },
        FileAttempt::Failed(e) => if access == Access::ReadWrite && e.code == ACCESS_DENIED {
            FileStep::Retry(Access::ReadOnly)
        } else {
            FileStep::Failed(hresult_meaning(e))
        },
    }
}

impl WinUsbDevice {
    /// The access that opening a device tries first.
    pub fn first_access() -> (a: Access)
        ensures
            a == Access::ReadWrite,
    {
        Access::ReadWrite
    }

    /// Decides what follows an attempt to open the file of a device.
    pub fn open(access: Access, attempt: FileAttempt) -> (step: FileStep)
        ensures
            step == file_step(access, attempt),
    {
        match attempt {
            FileAttempt::Opened => FileStep::Initialize,
            FileAttempt::Invalid => match access {
                Access::ReadWrite => FileStep::Failed(UsbError::DeviceNotFound),
                Access::ReadOnly => FileStep::Failed(UsbError::PermissionDenied),
            },
            FileAttempt::Failed(e) => {
                if access == Access::ReadWrite && e.code == ACCESS_DENIED {
                    FileStep::Retry(Access::ReadOnly)
                } else {
                    FileStep::Failed(UsbError::from(e))
                }
            },
        }
    }

    /// The device after WinUSB was initialized on its file. After a failure the file is to be
    /// closed.
    pub fn initialized(r: Result<Handle, HresultError>) -> (d: Result<WinUsbDevice, UsbError>)
        ensures
            match r {
                Ok(h) => d is Ok && d->Ok_0@ == DeviceView::opened(h) && d->Ok_0@.wf(),
                Err(e) => d is Err && d->Err_0 == hresult_meaning(e),
            },
    {
        match r {
            Ok(h) => Ok(WinUsbDevice::new(h)),
            Err(e) => Err(UsbError::from(e)),
        }
    }
}

/// Opening the file of a device takes at most two attempts, and the second one only where the
/// first was denied.
pub proof fn law_opening_takes_two_attempts_at_most(first: FileAttempt, second: FileAttempt)
    ensures
        file_step(Access::ReadOnly, second) !is Retry,
        file_step(Access::ReadWrite, first) is Retry <==> first is Failed && first->Failed_0.code
            == ACCESS_DENIED,
        file_step(Access::ReadWrite, first) is Retry ==> file_step(Access::ReadWrite, first)
            == FileStep::Retry(Access::ReadOnly),
{
}

// ---------------------------------------------------------------------------
// Texts
// ---------------------------------------------------------------------------

/// Whether `text` is what a device gives for the text of an index: nothing where the index is 0
/// or the device fails.
pub open spec fn is_text_of<D: UsbDevice>(d: D, index: u8, text: Option<String>) -> bool {
    if index == 0 {
        text is None
    } else {
        exists|r: Result<String, UsbError>|
            {
                &&& #[trigger] call_ensures(D::read_string_descriptor, (&d, index, ENGLISH_US), r)
                &&& text == match r {
                    Ok(s) => Some(s),
                    Err(_) => None,
                }
            }
    }
}

/// Whether `texts` are those that a device with the given descriptor gives.
pub open spec fn are_texts_of<D: UsbDevice>(
    d: D,
    dd: DeviceDescriptor,
    texts: DeviceTexts,
) -> bool {
    &&& is_text_of(d, dd.manufacturer_index, texts.manufacturer)
    &&& is_text_of(d, dd.product_index, texts.product)
    &&& is_text_of(d, dd.serial_number_index, texts.serial_number)
}

/// Whether there are no texts.
pub open spec fn no_texts(texts: DeviceTexts) -> bool {
    texts.manufacturer is None && texts.product is None && texts.serial_number is None
}

/// Reads the text of an index.
fn read_text<D: UsbDevice>(d: &D, index: u8) -> (text: Option<String>)
    ensures
        is_text_of(*d, index, text),
{
    if index == 0 {
        return None;
    }
    let r: Result<String, UsbError> = d.read_string_descriptor(index, ENGLISH_US);
    assert(call_ensures(D::read_string_descriptor, (d, index, ENGLISH_US), r));
    match r {
        Ok(s) => Some(s),
        Err(_) => None,
    }
}

/// Reads the texts of a device, given how it was opened. A device that cannot be opened, or
/// whose descriptor cannot be read, has none.
pub fn read_string_descriptors<D: UsbDevice>(opened: Result<D, UsbError>) -> (texts: DeviceTexts)
    ensures
        match opened {
            Ok(d) => exists|r: Result<DeviceDescriptor, UsbError>|
                {
                    &&& #[trigger] call_ensures(D::read_device_descriptor, (&d,), r)
                    &&& match r {
                        Ok(dd) => are_texts_of(d, dd, texts),
                        Err(_) => no_texts(texts),
                    }
                },
            Err(_) => no_texts(texts),
        },
{
    let none = DeviceTexts { manufacturer: None, product: None, serial_number: None };
    let d: D = match opened {
        Ok(d) => d,
        Err(_) => return none,
    };
    let r: Result<DeviceDescriptor, UsbError> = d.read_device_descriptor();
    assert(call_ensures(D::read_device_descriptor, (&d,), r));
    match r {
        Ok(dd) => DeviceTexts {
            manufacturer: read_text(&d, dd.manufacturer_index),
            product: read_text(&d, dd.product_index),
            serial_number: read_text(&d, dd.serial_number_index),
        },
        Err(_) => none,
    }
}

/// What an attempt to open the file leads to: a file that opens is initialized, one that is
/// denied with write access is tried without it, and any other failure is final with its own
/// meaning.
pub proof fn law_file_attempt_leads_to(access: Access, e: HresultError)
    ensures
        file_step(access, FileAttempt::Opened) is Initialize,
        file_step(Access::ReadWrite, FileAttempt::Invalid) == FileStep::Failed(
            UsbError::DeviceNotFound,
        ),
        file_step(Access::ReadOnly, FileAttempt::Invalid) == FileStep::Failed(
            UsbError::PermissionDenied,
        ),
        e.code == 0x8007_0005u32 ==> file_step(Access::ReadWrite, FileAttempt::Failed(e))
            == FileStep::Retry(Access::ReadOnly),
        e.code != 0x8007_0005u32 ==> file_step(Access::ReadWrite, FileAttempt::Failed(e))
            == FileStep::Failed(hresult_meaning(e)),
        file_step(Access::ReadOnly, FileAttempt::Failed(e)) == FileStep::Failed(hresult_meaning(e)),
{
}

/// Each text of a device is the one that the device gives in English for its own index. There is
/// none where the index is 0 or the device fails.
pub proof fn law_texts_have_their_own_indices<D: UsbDevice>(
    d: D,
    dd: DeviceDescriptor,
    texts: DeviceTexts,
)
    requires
        are_texts_of(d, dd, texts),
    ensures
        dd.manufacturer_index == 0 ==> texts.manufacturer is None,
        dd.product_index == 0 ==> texts.product is None,
        dd.serial_number_index == 0 ==> texts.serial_number is None,
        dd.manufacturer_index != 0 ==> exists|r: Result<String, UsbError>|
            #[trigger] call_ensures(
                D::read_string_descriptor,
                (&d, dd.manufacturer_index, 0x0409u16),
                r,
            ) && (r is Ok <==> texts.manufacturer is Some) && (r is Ok ==> texts.manufacturer
                == Some(r->Ok_0)),
        dd.product_index != 0 ==> exists|r: Result<String, UsbError>|
            #[trigger] call_ensures(
                D::read_string_descriptor,
                (&d, dd.product_index, 0x0409u16),
                r,
            ) && (r is Ok <==> texts.product is Some) && (r is Ok ==> texts.product == Some(
                r->Ok_0,
            )),
        dd.serial_number_index != 0 ==> exists|r: Result<String, UsbError>|
            #[trigger] call_ensures(
                D::read_string_descriptor,
                (&d, dd.serial_number_index, 0x0409u16),
                r,
            ) && (r is Ok <==> texts.serial_number is Some) && (r is Ok ==> texts.serial_number
                == Some(r->Ok_0)),
{
}

/// A device without texts has none of them.
pub proof fn law_no_texts_at_all(texts: DeviceTexts)
    requires
        no_texts(texts),
    ensures
        texts.manufacturer is None,
        texts.product is None,
        texts.serial_number is None,
{
}

} // verus!
