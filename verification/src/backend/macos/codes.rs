//! The return codes of IOKit, and the errors that they mean.

use vstd::prelude::*;
use vstd::string::StringExecFns;

use crate::error::{outcome, ErrorView, IoError, IoErrorKind, UsbError};
use crate::numeral::{
    digits_value, hex_fixed, law_hex_fixed_reads_back, lemma_numeral, numeral, write_hex_fixed,
    write_numeral,
};
use vstd::arithmetic::power::pow;
use crate::text::string_of;

verus! {

broadcast use vstd::string::group_string_axioms;

/// A return code of IOKit.
pub type IoReturn = u32;

pub const SUCCESS: IoReturn = 0;

pub const NOT_PERMITTED: IoReturn = 0xe000_02c1;

pub const UNSUPPORTED: IoReturn = 0xe000_02c5;

pub const EXCLUSIVE_ACCESS: IoReturn = 0xe000_02d5;

pub const NOT_OPEN: IoReturn = 0xe000_02d6;

pub const NO_DEVICE: IoReturn = 0xe000_02ed;

pub const PIPE_STALLED: IoReturn = 0xe000_404f;

pub const TRANSACTION_TIMEOUT: IoReturn = 0xe000_4051;

/// A text with a code behind it, in hexadecimal.
pub open spec fn code_text(front: Seq<char>, kr: IoReturn) -> Seq<char> {
    front + "0x"@ + numeral(kr as int, 16)
}

/// Puts a code behind a text, in hexadecimal.
pub fn with_code(front: &str, kr: IoReturn) -> (s: String)
    ensures
        s@ == code_text(front@, kr),
{
    let number: String = string_of(write_numeral(kr, 16).as_slice());
    front.to_owned().concat("0x").concat(number.as_str())
}

/// What a failed request to the device means.
pub open spec fn device_failure(kr: IoReturn) -> ErrorView {
    if kr == PIPE_STALLED {
        ErrorView::Stall
    } else if kr == TRANSACTION_TIMEOUT {
        ErrorView::Timeout
    } else if kr == NO_DEVICE {
        ErrorView::DeviceNotFound
    } else if kr == NOT_PERMITTED {
        ErrorView::PermissionDenied
    } else {
        ErrorView::Other(code_text("IOReturn "@, kr))
    }
}

/// Convert an IOReturn error code to a UsbError.
pub fn iokit_kr_to_usb_error(kr: IoReturn) -> (e: UsbError)
    ensures
        e@ == device_failure(kr),
{
    if kr == PIPE_STALLED {
        UsbError::Stall
    } else if kr == TRANSACTION_TIMEOUT {
        UsbError::Timeout
    } else if kr == NO_DEVICE {
        UsbError::DeviceNotFound
    } else if kr == NOT_PERMITTED {
        UsbError::PermissionDenied
    } else {
        UsbError::Other(with_code("IOReturn ", kr))
    }
}

/// What a failed call on an interface or a pipe means. It is called with failures only, and
/// says so where it is not.
pub open spec fn pipe_failure(kr: IoReturn) -> ErrorView {
    if kr == SUCCESS {
        ErrorView::Other("unexpected success code in error mapper"@)
    } else if kr == NO_DEVICE || kr == NOT_OPEN {
        ErrorView::InvalidHandle
    } else if kr == UNSUPPORTED {
        ErrorView::Unsupported
    } else {
        ErrorView::Io {
            kind: IoErrorKind::Other,
            os_code: None,
            text: "IOReturn 0x"@ + hex_fixed(kr as int, 8),
        }
    }
}

/// Convert the IOReturn error code of an interface or a pipe to a UsbError.
pub fn iokit_pipe_kr_to_usb_error(kr: IoReturn) -> (e: UsbError)
    ensures
        e@ == pipe_failure(kr),
{
    if kr == SUCCESS {
        UsbError::other("unexpected success code in error mapper")
    } else if kr == NO_DEVICE || kr == NOT_OPEN {
        UsbError::InvalidHandle
    } else if kr == UNSUPPORTED {
        UsbError::Unsupported
    } else {
        let number: String = string_of(write_hex_fixed(kr, 8).as_slice());
        UsbError::Io(
            IoError {
                kind: IoErrorKind::Other,
                os_code: None,
                text: "IOReturn 0x".to_owned().concat(number.as_str()),
            },
        )
    }
}

/// What a call on an interface or a pipe that gives a value means.
pub open spec fn pipe_outcome<T>(kr: IoReturn, value: T) -> Result<T, ErrorView> {
    if kr == SUCCESS {
        Ok(value)
    } else {
        Err(pipe_failure(kr))
    }
}

/// How many bytes a transfer over a pipe has moved.
pub fn pipe_result(kr: IoReturn, size: u32) -> (r: Result<usize, UsbError>)
    ensures
        outcome(r) == pipe_outcome(kr, size as usize),
{
    if kr == SUCCESS {
        Ok(size as usize)
    } else {
        Err(iokit_pipe_kr_to_usb_error(kr))
    }
}

/// How many bytes a request to the device has moved.
pub fn control_result(kr: IoReturn, done: u16) -> (r: Result<usize, UsbError>)
    ensures
        outcome(r) == if kr == SUCCESS {
            Ok(done as usize)
        } else {
            Err(device_failure(kr))
        },
{
    if kr == SUCCESS {
        Ok(done as usize)
    } else {
        Err(iokit_kr_to_usb_error(kr))
    }
}

/// Whether the services of the USB class could be listed.
pub fn services_result(matching: bool, kr: IoReturn) -> (r: Result<(), UsbError>)
    ensures
        outcome(r) == if !matching {
            Err(ErrorView::Other("IOServiceMatching returned NULL"@))
        } else if kr != SUCCESS {
            Err(ErrorView::Other(code_text("IOServiceGetMatchingServices err "@, kr)))
        } else {
            Ok(())
        },
{
    if !matching {
        Err(UsbError::other("IOServiceMatching returned NULL"))
    } else if kr != SUCCESS {
        Err(UsbError::Other(with_code("IOServiceGetMatchingServices err ", kr)))
    } else {
        Ok(())
    }
}

/// Whether the plug-in of a device was created.
pub fn device_plugin_result(kr: IoReturn, present: bool) -> (r: Result<(), UsbError>)
    ensures
        outcome(r) == if kr != SUCCESS || !present {
            Err(ErrorView::Other(code_text("IOCreatePlugInInterfaceForService failed: "@, kr)))
        } else {
            Ok(())
        },
{
    if kr != SUCCESS || !present {
        Err(UsbError::Other(with_code("IOCreatePlugInInterfaceForService failed: ", kr)))
    } else {
        Ok(())
    }
}

/// Whether the plug-in of a device gave its device interface.
pub fn device_query_result(kr: IoReturn, present: bool) -> (r: Result<(), UsbError>)
    ensures
        outcome(r) == if kr != SUCCESS || !present {
            Err(ErrorView::Other(code_text("QueryInterface for IOUSBDeviceInterface failed: "@, kr)))
        } else {
            Ok(())
        },
{
    if kr != SUCCESS || !present {
        Err(UsbError::Other(with_code("QueryInterface for IOUSBDeviceInterface failed: ", kr)))
    } else {
        Ok(())
    }
}

/// Whether a device counts as open. Where another process has exclusive access, descriptors can
/// be read on some versions, so this is no failure. The error of any other code is the one that
/// the system has for it.
pub fn open_result(kr: IoReturn, error: IoError) -> (r: Result<(), UsbError>)
    ensures
        r == if kr == SUCCESS || kr == EXCLUSIVE_ACCESS {
            Ok::<(), UsbError>(())
        } else {
            Err(UsbError::Io(error))
        },
{
    if kr == SUCCESS || kr == EXCLUSIVE_ACCESS {
        Ok(())
    } else {
        Err(UsbError::Io(error))
    }
}

/// What a failed request to the device means: codes with an error of their own have that, and
/// every other one is told in hexadecimal.
pub proof fn law_device_failures(kr: IoReturn)
    ensures
        device_failure(kr) is Stall <==> kr == 0xe000_404fu32,
        device_failure(kr) is Timeout <==> kr == 0xe000_4051u32,
        device_failure(kr) is DeviceNotFound <==> kr == 0xe000_02edu32,
        device_failure(kr) is PermissionDenied <==> kr == 0xe000_02c1u32,
        kr != 0xe000_404fu32 && kr != 0xe000_4051u32 && kr != 0xe000_02edu32 && kr != 0xe000_02c1u32
            ==> device_failure(kr) == ErrorView::Other("IOReturn "@ + "0x"@ + numeral(kr as int, 16)),
{
}

/// What a failed call on an interface or a pipe means.
pub proof fn law_pipe_failures(kr: IoReturn)
    ensures
        kr == 0 ==> pipe_failure(kr) == ErrorView::Other("unexpected success code in error mapper"@),
        pipe_failure(kr) is InvalidHandle <==> kr == 0xe000_02edu32 || kr == 0xe000_02d6u32,
        pipe_failure(kr) is Unsupported <==> kr == 0xe000_02c5u32,
        kr != 0 && kr != 0xe000_02edu32 && kr != 0xe000_02d6u32 && kr != 0xe000_02c5u32
            ==> pipe_failure(kr) == (ErrorView::Io {
            kind: IoErrorKind::Other,
            os_code: None,
            text: "IOReturn 0x"@ + hex_fixed(kr as int, 8),
        }),
{
}

/// A code in a text is told in full: its digits make the code.
pub proof fn law_code_is_told_in_full(front: Seq<char>, kr: IoReturn)
    ensures
        code_text(front, kr) == front + "0x"@ + numeral(kr as int, 16),
        digits_value(numeral(kr as int, 16), 16) == kr,
        digits_value(hex_fixed(kr as int, 8), 16) == kr,
        hex_fixed(kr as int, 8).len() == 8,
{
    lemma_numeral(kr as int, 16);
    reveal_with_fuel(pow, 9);
    law_hex_fixed_reads_back(kr as int, 8);
}

/// A call that succeeds gives its value, whatever that is, and any other its failure.
pub proof fn law_outcome_of_a_call<T>(kr: IoReturn, value: T)
    ensures
        kr == 0 ==> pipe_outcome(kr, value) == Ok::<T, ErrorView>(value),
        kr != 0 ==> pipe_outcome(kr, value) == Err::<T, ErrorView>(pipe_failure(kr)),
{
}

/// The codes that the library tells apart.
pub proof fn law_codes()
    ensures
        SUCCESS == 0,
        EXCLUSIVE_ACCESS == 0xe000_02d5u32,
{
}

/// A transfer that succeeds has moved as many bytes as the system told.
pub proof fn law_counting_gives_the_number(
    kr: IoReturn,
    size: u32,
    done: u16,
    piped: Result<usize, UsbError>,
    controlled: Result<usize, UsbError>,
)
    requires
        call_ensures(pipe_result, (kr, size), piped),
        call_ensures(control_result, (kr, done), controlled),
    ensures
        kr == 0 ==> piped is Ok && piped->Ok_0 == size && controlled is Ok && controlled->Ok_0
            == done,
        kr != 0 ==> piped is Err && piped->Err_0@ == pipe_failure(kr) && controlled is Err
            && controlled->Err_0@ == device_failure(kr),
{
}

} // verus!
