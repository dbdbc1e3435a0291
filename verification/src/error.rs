//! The error type of the library.

use vstd::prelude::*;
use vstd::string::StringExecFns;

verus! {

/// What the library tells apart among the failures of the operating system.
#[derive(Debug, Clone, Copy, PartialEq, Eq, Structural)]
pub enum IoErrorKind {
    PermissionDenied,
    Other,
}

/// A failure that the operating system reported: its kind, its number where it has one, and
/// its description.
#[derive(Debug)]
pub struct IoError {
    pub kind: IoErrorKind,
    pub os_code: Option<i32>,
    pub text: String,
}

/// Why a USB operation failed.
#[derive(Debug)]
pub enum UsbError {
    Io(IoError),
    InvalidDescriptor,
    DeviceNotFound,
    PermissionDenied,
    Timeout,
    Stall,
    InvalidHandle,
    Unsupported,
    Other(String),
}

/// A [`UsbError`] with its texts as character sequences.
pub enum ErrorView {
    Io { kind: IoErrorKind, os_code: Option<i32>, text: Seq<char> },
    InvalidDescriptor,
    DeviceNotFound,
    PermissionDenied,
    Timeout,
    Stall,
    InvalidHandle,
    Unsupported,
    Other(Seq<char>),
}

impl View for IoError {
    type V = ErrorView;

    open spec fn view(&self) -> ErrorView {
        ErrorView::Io { kind: self.kind, os_code: self.os_code, text: self.text@ }
    }
}

impl View for UsbError {
    type V = ErrorView;

    open spec fn view(&self) -> ErrorView {
        match *self {
            UsbError::Io(e) => e@,
            UsbError::InvalidDescriptor => ErrorView::InvalidDescriptor,
            UsbError::DeviceNotFound => ErrorView::DeviceNotFound,
            UsbError::PermissionDenied => ErrorView::PermissionDenied,
            UsbError::Timeout => ErrorView::Timeout,
            UsbError::Stall => ErrorView::Stall,
            UsbError::InvalidHandle => ErrorView::InvalidHandle,
            UsbError::Unsupported => ErrorView::Unsupported,
            UsbError::Other(text) => ErrorView::Other(text@),
        }
    }
}

/// A result with its error as an [`ErrorView`].
pub open spec fn outcome<T>(r: Result<T, UsbError>) -> Result<T, ErrorView> {
    match r {
        Ok(v) => Ok(v),
        Err(e) => Err(e@),
    }
}

/// A result with its value and its error by their views.
pub open spec fn outcome_view<T: View>(r: Result<T, UsbError>) -> Result<T::V, ErrorView> {
    match r {
        Ok(v) => Ok(v@),
        Err(e) => Err(e@),
    }
}

impl From<IoError> for UsbError {
    fn from(e: IoError) -> (r: UsbError) {
        UsbError::Io(e)
    }
}

impl vstd::std_specs::convert::FromSpecImpl<IoError> for UsbError {
    open spec fn obeys_from_spec() -> bool {
        true
    }

    open spec fn from_spec(e: IoError) -> UsbError {
        UsbError::Io(e)
    }
}

/// The text that describes an error to a user.
pub open spec fn error_text(e: ErrorView) -> Seq<char> {
    match e {
        ErrorView::Io { text, .. } => "I/O error: "@ + text,
        ErrorView::InvalidDescriptor => "invalid descriptor data"@,
        ErrorView::DeviceNotFound => "device not found"@,
        ErrorView::PermissionDenied =>
            "permission denied \u{2014} try running as administrator or check device access rules"@,
        ErrorView::Timeout => "transfer timed out"@,
        ErrorView::Stall => "endpoint stall \u{2014} call reset_pipe and retry"@,
        ErrorView::InvalidHandle =>
            "invalid handle \u{2014} device may have been disconnected"@,
        ErrorView::Unsupported => "operation not supported on this platform"@,
        ErrorView::Other(text) => "USB error: "@ + text,
    }
}

/// A failed Windows call: its `HRESULT` and the description of that.
#[derive(Debug)]
pub struct HresultError {
    pub code: u32,
    pub text: String,
}

/// What a failed Windows call means. Its `HRESULT` wraps a Win32 error code: access denied,
/// invalid handle, file not found, no such device, device not connected, semaphore timeout and
/// bad command (a stalled endpoint) have a meaning of their own.
pub open spec fn hresult_meaning(e: HresultError) -> UsbError {
    if e.code == 0x8007_0005 {
        UsbError::PermissionDenied
    } else if e.code == 0x8007_0006 {
        UsbError::InvalidHandle
    } else if e.code == 0x8007_0002 || e.code == 0x8007_01B1 || e.code == 0x8007_048F {
        UsbError::DeviceNotFound
    } else if e.code == 0x8007_0079 {
        UsbError::Timeout
    } else if e.code == 0x8007_0016 {
        UsbError::Stall
    } else {
        UsbError::Other(e.text)
    }
}

impl From<HresultError> for UsbError {
    fn from(e: HresultError) -> (r: UsbError) {
        if e.code == 0x8007_0005 {
            UsbError::PermissionDenied
        } else if e.code == 0x8007_0006 {
            UsbError::InvalidHandle
        } else if e.code == 0x8007_0002 || e.code == 0x8007_01B1 || e.code == 0x8007_048F {
            UsbError::DeviceNotFound
        } else if e.code == 0x8007_0079 {
            UsbError::Timeout
        } else if e.code == 0x8007_0016 {
            UsbError::Stall
        } else {
            UsbError::Other(e.text)
        }
    }
}

impl vstd::std_specs::convert::FromSpecImpl<HresultError> for UsbError {
    open spec fn obeys_from_spec() -> bool {
        true
    }

    open spec fn from_spec(e: HresultError) -> UsbError {
        hresult_meaning(e)
    }
}

impl UsbError {
    /// An error with a text of its own.
    pub fn other(text: &str) -> (e: UsbError)
        ensures
            e@ == ErrorView::Other(text@),
    {
        UsbError::Other(text.to_owned())
    }

    /// Describes the error to a user.
    pub fn message(&self) -> (s: String)
        ensures
            s@ == error_text(self@),
    {
        match self {
            UsbError::Io(e) => "I/O error: ".to_owned().concat(e.text.as_str()),
            UsbError::InvalidDescriptor => "invalid descriptor data".to_owned(),
            UsbError::DeviceNotFound => "device not found".to_owned(),
            UsbError::PermissionDenied =>
                "permission denied \u{2014} try running as administrator or check device access rules".to_owned(),
            UsbError::Timeout => "transfer timed out".to_owned(),
            UsbError::Stall => "endpoint stall \u{2014} call reset_pipe and retry".to_owned(),
            UsbError::InvalidHandle =>
                "invalid handle \u{2014} device may have been disconnected".to_owned(),
            UsbError::Unsupported => "operation not supported on this platform".to_owned(),
            UsbError::Other(text) => "USB error: ".to_owned().concat(text.as_str()),
        }
    }
}

/// Each error is seen as what it is, with its text.
pub proof fn law_view_tells_the_error(e: UsbError)
    ensures
        e matches UsbError::Io(io) ==> e@ == (ErrorView::Io {
            kind: io.kind,
            os_code: io.os_code,
            text: io.text@,
        }),
        e is InvalidDescriptor <==> e@ is InvalidDescriptor,
        e is DeviceNotFound <==> e@ is DeviceNotFound,
        e is PermissionDenied <==> e@ is PermissionDenied,
        e is Timeout <==> e@ is Timeout,
        e is Stall <==> e@ is Stall,
        e is InvalidHandle <==> e@ is InvalidHandle,
        e is Unsupported <==> e@ is Unsupported,
        e matches UsbError::Other(text) ==> e@ == ErrorView::Other(text@),
        e is Other <==> e@ is Other,
{
}

/// An error of its own meaning comes from the `HRESULT`s of that meaning and from no other. Every
/// other one keeps its description.
pub proof fn law_hresult_has_its_meaning(e: HresultError)
    ensures
        hresult_meaning(e) is PermissionDenied <==> e.code == 0x8007_0005u32,
        hresult_meaning(e) is InvalidHandle <==> e.code == 0x8007_0006u32,
        hresult_meaning(e) is DeviceNotFound <==> (e.code == 0x8007_0002u32 || e.code
            == 0x8007_01B1u32 || e.code == 0x8007_048Fu32),
        hresult_meaning(e) is Timeout <==> e.code == 0x8007_0079u32,
        hresult_meaning(e) is Stall <==> e.code == 0x8007_0016u32,
        hresult_meaning(e) is Other <==> !(e.code == 0x8007_0005u32 || e.code == 0x8007_0006u32
            || e.code == 0x8007_0002u32 || e.code == 0x8007_01B1u32 || e.code == 0x8007_048Fu32
            || e.code == 0x8007_0079u32 || e.code == 0x8007_0016u32),
        hresult_meaning(e) matches UsbError::Other(text) ==> text == e.text,
{
}

/// A text of its own stands whole in the message of an error, behind a label.
pub proof fn law_messages_keep_the_text(text: Seq<char>, kind: IoErrorKind, os_code: Option<i32>)
    ensures
        ({
            let m = error_text(ErrorView::Other(text));
            m.len() == 11 + text.len() && m.skip(11) == text && m.take(11) == "USB error: "@
        }),
        ({
            let m = error_text(ErrorView::Io { kind, os_code, text });
            m.len() == 11 + text.len() && m.skip(11) == text && m.take(11) == "I/O error: "@
        }),
{
    reveal_strlit("USB error: ");
    reveal_strlit("I/O error: ");
    assert(("USB error: "@ + text).skip(11) =~= text);
    assert(("USB error: "@ + text).take(11) =~= "USB error: "@);
    assert(("I/O error: "@ + text).skip(11) =~= text);
    assert(("I/O error: "@ + text).take(11) =~= "I/O error: "@);
}

/// The message of an error without a text of its own says what happened, and for which errors
/// something can be done, what.
pub proof fn law_messages_of_the_errors()
    ensures
        error_text(ErrorView::InvalidDescriptor) == "invalid descriptor data"@,
        error_text(ErrorView::DeviceNotFound) == "device not found"@,
        error_text(ErrorView::PermissionDenied)
            == "permission denied \u{2014} try running as administrator or check device access rules"@,
        error_text(ErrorView::Timeout) == "transfer timed out"@,
        error_text(ErrorView::Stall) == "endpoint stall \u{2014} call reset_pipe and retry"@,
        error_text(ErrorView::InvalidHandle)
            == "invalid handle \u{2014} device may have been disconnected"@,
        error_text(ErrorView::Unsupported) == "operation not supported on this platform"@,
{
}

/// A converted error is the one that it was made of, or what its code means.
pub proof fn law_conversions_keep_the_error(e: IoError, h: HresultError)
    ensures
        <UsbError as vstd::std_specs::convert::FromSpec<IoError>>::from_spec(e) == UsbError::Io(e),
        <UsbError as vstd::std_specs::convert::FromSpec<HresultError>>::from_spec(h)
            == hresult_meaning(h),
        <UsbError as vstd::std_specs::convert::FromSpec<IoError>>::obeys_from_spec(),
        <UsbError as vstd::std_specs::convert::FromSpec<HresultError>>::obeys_from_spec(),
{
}

/// The view of a result has its value, or its error by its view.
pub proof fn law_outcomes_keep_the_result<T: View>(v: T, e: UsbError)
    ensures
        outcome(Ok::<T, UsbError>(v)) == Ok::<T, ErrorView>(v),
        outcome(Err::<T, UsbError>(e)) == Err::<T, ErrorView>(e@),
        outcome_view(Ok::<T, UsbError>(v)) == Ok::<T::V, ErrorView>(v@),
        outcome_view(Err::<T, UsbError>(e)) == Err::<T::V, ErrorView>(e@),
{
}

} // verus!
