//! The Linux backend: devices that udev lists and usbfs opens.

use vstd::prelude::*;
use std::time::Duration;

use crate::backend::Access;
use crate::error::{
    law_view_tells_the_error, outcome, ErrorView, IoError, IoErrorKind, UsbError,
};
use crate::numeral::{
    digit_value, digits_value, law_numbers_are_digits, lemma_value_grows, parse_unsigned,
    unsigned_part, unsigned_value,
};
use crate::protocol::control::{
    clamped_millis, duration_millis, plan_transfer, planned_transfer, ControlPlan, ControlSetup,
};
use crate::protocol::device_info::{
    info_views, law_view_keeps_every_field, text_view, DeviceInfo, DeviceInfoView,
};
use crate::text::{chars_of, is_white, law_trimming_removes_white_space, trim, trimmed};

verus! {

// ---------------------------------------------------------------------------
// Enumeration
// ---------------------------------------------------------------------------

/// What udev tells about a device. A number is present where udev has it as valid UTF-8.
#[derive(Debug)]
pub struct UdevAttributes {
    /// The device node, `/dev/bus/usb/BBB/DDD`.
    pub devnode: Option<String>,
    pub id_vendor: Option<String>,
    pub id_product: Option<String>,
    pub busnum: Option<String>,
    pub devnum: Option<String>,
    pub manufacturer: Option<String>,
    pub product: Option<String>,
    pub serial: Option<String>,
}

/// The number in an attribute, with white space around it, or 0 where there is none.
pub open spec fn attr_number(value: Option<Seq<char>>, radix: int, max: int) -> int {
    match value {
        Some(s) => match unsigned_value(trimmed(s), radix, max) {
            Some(n) => n,
            None => 0,
        },
        None => 0,
    }
}

/// Reads the number in an attribute.
fn parse_attr(value: &Option<String>, radix: u32, max: u32) -> (n: u32)
    requires
        2 <= radix <= 36,
    ensures
        n == attr_number(text_view(*value), radix as int, max as int),
        n <= max,
{
    match value {
        Some(s) => {
            let chars: Vec<char> = trim(chars_of(s.as_str()).as_slice());
            match parse_unsigned(chars.as_slice(), radix, max) {
                Some(n) => n,
                None => 0,
            }
        },
        None => 0,
    }
}

/// Reads a hexadecimal attribute, such as a vendor or product number.
pub fn parse_hex_attr(value: &Option<String>) -> (n: u16)
    ensures
        n == attr_number(text_view(*value), 16, 0xFFFF),
{
    parse_attr(value, 16, 0xFFFF) as u16
}

/// Reads a decimal attribute, such as a bus number or a device address.
pub fn parse_decimal_attr(value: &Option<String>) -> (n: u8)
    ensures
        n == attr_number(text_view(*value), 10, 0xFF),
{
    parse_attr(value, 10, 0xFF) as u8
}

/// The device that udev attributes describe. One without a device node cannot be opened and is
/// left out.
pub open spec fn listed_device(a: UdevAttributes) -> Option<DeviceInfoView> {
    match a.devnode {
        Some(path) => Some(
            DeviceInfoView {
                vendor_id: attr_number(text_view(a.id_vendor), 16, 0xFFFF) as u16,
                product_id: attr_number(text_view(a.id_product), 16, 0xFFFF) as u16,
                bus_number: attr_number(text_view(a.busnum), 10, 0xFF) as u8,
                device_address: attr_number(text_view(a.devnum), 10, 0xFF) as u8,
                path: path@,
                manufacturer: text_view(a.manufacturer),
                product: text_view(a.product),
                serial_number: text_view(a.serial),
            },
        ),
        None => None,
    }
}

/// The devices of a scan, in its order.
pub open spec fn listed_devices(scan: Seq<UdevAttributes>) -> Seq<DeviceInfoView>
    decreases scan.len(),
{
    if scan.len() == 0 {
        Seq::empty()
    } else {
        let before = listed_devices(scan.drop_last());
        match listed_device(scan.last()) {
            Some(info) => before.push(info),
            None => before,
        }
    }
}

/// Lists the devices of a udev scan.
pub fn enumerate_udev_devices(scan: &[UdevAttributes]) -> (devices: Vec<DeviceInfo>)
    ensures
        info_views(devices@) == listed_devices(scan@),
        devices@.len() == scan@.filter(|a: UdevAttributes| a.devnode is Some).len(),
        forall|k: int|
            0 <= k < devices@.len() ==> (#[trigger] devices@[k]).path@ == scan@.filter(
                |a: UdevAttributes| a.devnode is Some,
            )[k].devnode->0@,
{
    let mut devices: Vec<DeviceInfo> = Vec::new();
    assert(info_views(devices@) =~= Seq::empty());
    for i in 0..scan.len()
        invariant
            info_views(devices@) == listed_devices(scan@.take(i as int)),
    {
        assert(scan@.take(i + 1).drop_last() =~= scan@.take(i as int));
        let a: &UdevAttributes = &scan[i];
        let ghost before = devices@;
        if let Some(path) = &a.devnode {
            let info = DeviceInfo {
                vendor_id: parse_hex_attr(&a.id_vendor),
                product_id: parse_hex_attr(&a.id_product),
                bus_number: parse_decimal_attr(&a.busnum),
                device_address: parse_decimal_attr(&a.devnum),
                path: path.clone(),
                manufacturer: a.manufacturer.clone(),
                product: a.product.clone(),
                serial_number: a.serial.clone(),
            };
            assert(listed_device(*a) == Some(info@));
            devices.push(info);
            assert(info_views(devices@) =~= info_views(before).push(info@));
        }
    }
    assert(scan@.take(scan@.len() as int) =~= scan@);
    proof {
        law_list_has_every_device_node(scan@);
        assert forall|k: int| 0 <= k < devices@.len() implies (#[trigger] devices@[k]).path@
            == scan@.filter(|a: UdevAttributes| a.devnode is Some)[k].devnode->0@ by {
            assert(info_views(devices@)[k] == devices@[k]@);
        }
    }
    devices
}

/// The backend for devices that udev lists.
pub struct LinuxBackend;

impl LinuxBackend {
    /// Lists the connected devices, given how the udev scan ended.
    pub fn enumerate(&self, scan: Result<Vec<UdevAttributes>, IoError>) -> (r: Result<
        Vec<DeviceInfo>,
        UsbError,
    >)
        ensures
            match scan {
                Ok(scan) => r is Ok && info_views(r->Ok_0@) == listed_devices(scan@),
                Err(e) => r is Err && r->Err_0@ == e@,
            },
    {
        match scan {
            Ok(scan) => Ok(enumerate_udev_devices(scan.as_slice())),
            Err(e) => Err(UsbError::Io(e)),
        }
    }
}

// ---------------------------------------------------------------------------
// Opening
// ---------------------------------------------------------------------------

/// What to do after an attempt to open a device node.
#[derive(Debug)]
pub enum OpenStep {
    /// The device is open.
    Opened,
    /// Try once more without write access.
    Retry(Access),
    /// Give up.
    Failed(UsbError),
}

/// What an attempt to open a device node leads to. Without write access descriptors can still
/// be read, so a first failure is followed by an attempt without it. The second one counts:
/// missing rights have an error of their own.
pub open spec fn open_decision(step: OpenStep, access: Access, failure: Option<IoError>) -> bool {
    match failure {
        None => step == OpenStep::Opened,
        Some(e) => match access {
            Access::ReadWrite => step == OpenStep::Retry(Access::ReadOnly),
            Access::ReadOnly => step is Failed && step->Failed_0@ == if e.kind
                == IoErrorKind::PermissionDenied {
                ErrorView::PermissionDenied
            } else {
                e@
            },
        },
    }
}

/// An open usbfs node, as far as its requests and replies go.
pub struct LinuxDevice;

impl LinuxDevice {
    /// The access that opening a device tries first.
    pub fn first_access() -> (a: Access)
        ensures
            a == Access::ReadWrite,
    {
        Access::ReadWrite
    }

    /// Decides what follows an attempt to open a device node.
    pub fn open(access: Access, failure: Option<IoError>) -> (step: OpenStep)
        ensures
            open_decision(step, access, failure),
    {
        match failure {
            None => OpenStep::Opened,
            Some(e) => match access {
                Access::ReadWrite => OpenStep::Retry(Access::ReadOnly),
                Access::ReadOnly => if e.kind == IoErrorKind::PermissionDenied {
                    OpenStep::Failed(UsbError::PermissionDenied)
                } else {
                    OpenStep::Failed(UsbError::Io(e))
                },
            },
        }
    }
}

/// Opening a device node takes at most two attempts: whatever the second one leads to, it is no
/// further attempt. Only a failure leads to a second one, and that has less access.
pub proof fn law_opening_takes_two_attempts_at_most(
    first: OpenStep,
    second: OpenStep,
    failures: (Option<IoError>, Option<IoError>),
)
    requires
        open_decision(first, Access::ReadWrite, failures.0),
        open_decision(second, Access::ReadOnly, failures.1),
    ensures
        first == OpenStep::Opened || first == OpenStep::Retry(Access::ReadOnly),
        first is Retry <==> failures.0 is Some,
        second !is Retry,
{
}

// ---------------------------------------------------------------------------
// Replies of the kernel
// ---------------------------------------------------------------------------

/// What the backend tells apart among the error numbers of the kernel.
#[derive(Debug, Clone, Copy, PartialEq, Eq, Structural)]
pub enum ErrnoKind {
    /// `EPIPE`
    Pipe,
    /// `ETIMEDOUT`
    TimedOut,
    /// `ENODEV`
    NoDevice,
    /// `EBUSY`
    Busy,
    Other,
}

/// The error numbers up to this one are the same on every architecture of Linux. Some of the
/// larger ones, that of a timeout among them, are not.
pub const LAST_COMMON_ERRNO: i32 = 34;

/// The kind of a common error number.
pub open spec fn common_errno_kind(code: i32) -> ErrnoKind {
    if code == 16 {
        ErrnoKind::Busy
    } else if code == 19 {
        ErrnoKind::NoDevice
    } else if code == 32 {
        ErrnoKind::Pipe
    } else {
        ErrnoKind::Other
    }
}

/// The text that the `Display` of `nix::errno::Errno` gives for a common error number: the
/// name of the error and its description.
pub uninterp spec fn errno_text_of(code: i32) -> Seq<char>;

/// `nix::errno::Errno::from_raw` gives the error of a number, and an unknown one for a number
/// that is not positive. The contract states the kind for the common numbers. A larger number
/// is that of a timeout or of none of the kinds, which depends on the architecture and is left
/// open.
#[verifier::external_body]
fn errno_kind(code: i32) -> (kind: ErrnoKind)
    ensures
        code <= LAST_COMMON_ERRNO ==> kind == common_errno_kind(code),
        code > LAST_COMMON_ERRNO ==> kind == ErrnoKind::TimedOut || kind == ErrnoKind::Other,
{
    match nix::errno::Errno::from_raw(code) {
        nix::errno::Errno::EPIPE => ErrnoKind::Pipe,
        nix::errno::Errno::ETIMEDOUT => ErrnoKind::TimedOut,
        nix::errno::Errno::ENODEV => ErrnoKind::NoDevice,
        nix::errno::Errno::EBUSY => ErrnoKind::Busy,
        _ => ErrnoKind::Other,
    }
}

/// The `Display` of `nix::errno::Errno` describes the error of a number. The contract names
/// the text, which comes from a table of that crate, for the common numbers. For a larger
/// number it depends on the architecture and is left open.
#[verifier::external_body]
fn errno_text(code: i32) -> (s: String)
    ensures
        code <= LAST_COMMON_ERRNO ==> s@ == errno_text_of(code),
{
    nix::errno::Errno::from_raw(code).to_string()
}

/// Whether the kind and the text are what `errno_kind` and `errno_text` give for a number.
pub closed spec fn errno_tells(code: i32, kind: ErrnoKind, text: Seq<char>) -> bool {
    &&& call_ensures(errno_kind, (code,), kind)
    &&& exists|s: String| #[trigger] call_ensures(errno_text, (code,), s) && s@ == text
}

/// A common error number tells one kind and one text. A larger one is never that of a pipe, a
/// missing device or a busy interface.
pub proof fn law_common_errno_tells_one_error(code: i32, kind: ErrnoKind, text: Seq<char>)
    requires
        errno_tells(code, kind, text),
    ensures
        code <= LAST_COMMON_ERRNO ==> kind == common_errno_kind(code) && text == errno_text_of(code),
        code > LAST_COMMON_ERRNO ==> kind == ErrnoKind::TimedOut || kind == ErrnoKind::Other,
{
}

/// Why a control transfer failed.
pub open spec fn control_failure(kind: ErrnoKind, text: Seq<char>) -> ErrorView {
    match kind {
        ErrnoKind::Pipe => ErrorView::Stall,
        ErrnoKind::TimedOut => ErrorView::Timeout,
        ErrnoKind::NoDevice => ErrorView::DeviceNotFound,
        _ => ErrorView::Other(text),
    }
}

/// Why an interface was not claimed.
pub open spec fn claim_failure(kind: ErrnoKind, text: Seq<char>) -> ErrorView {
    match kind {
        ErrnoKind::Busy => ErrorView::Other("interface already claimed"@),
        ErrnoKind::NoDevice => ErrorView::DeviceNotFound,
        _ => ErrorView::Other(text),
    }
}

/// Why an interface was not released.
pub open spec fn release_failure(kind: ErrnoKind, text: Seq<char>) -> ErrorView {
    match kind {
        ErrnoKind::NoDevice => ErrorView::DeviceNotFound,
        _ => ErrorView::Other(text),
    }
}

/// The error of a failed control transfer.
pub fn control_error(kind: ErrnoKind, text: String) -> (e: UsbError)
    ensures
        e@ == control_failure(kind, text@),
{
    match kind {
        ErrnoKind::Pipe => UsbError::Stall,
        ErrnoKind::TimedOut => UsbError::Timeout,
        ErrnoKind::NoDevice => UsbError::DeviceNotFound,
        _ => UsbError::Other(text),
    }
}

/// The error of a failed claim.
pub fn claim_error(kind: ErrnoKind, text: String) -> (e: UsbError)
    ensures
        e@ == claim_failure(kind, text@),
{
    match kind {
        ErrnoKind::Busy => UsbError::other("interface already claimed"),
        ErrnoKind::NoDevice => UsbError::DeviceNotFound,
        _ => UsbError::Other(text),
    }
}

/// The error of a failed release.
pub fn release_error(kind: ErrnoKind, text: String) -> (e: UsbError)
    ensures
        e@ == release_failure(kind, text@),
{
    match kind {
        ErrnoKind::NoDevice => UsbError::DeviceNotFound,
        _ => UsbError::Other(text),
    }
}

impl LinuxDevice {
    /// What a control call of the kernel means: the number of bytes, or for a negative result
    /// the error that `errno` tells. [`control_error`] says which error that is.
    pub fn raw_control(ret: i32, errno: i32) -> (r: Result<usize, UsbError>)
        ensures
            ret >= 0 ==> r == Ok::<usize, UsbError>(ret as usize),
            ret < 0 && errno <= LAST_COMMON_ERRNO ==> outcome(r) == Err::<usize, ErrorView>(
                control_failure(common_errno_kind(errno), errno_text_of(errno)),
            ),
            ret < 0 ==> exists|kind: ErrnoKind, text: Seq<char>|
                {
                    &&& #[trigger] errno_tells(errno, kind, text)
                    &&& outcome(r) == Err::<usize, ErrorView>(control_failure(kind, text))
                },
            ret < 0 && errno > LAST_COMMON_ERRNO ==> r is Err && (r->Err_0@ is Timeout || r->Err_0@ is Other),
    {
        if ret < 0 {
            let kind: ErrnoKind = errno_kind(errno);
            let text: String = errno_text(errno);
            assert(errno_tells(errno, kind, text@));
            Err(control_error(kind, text))
        } else {
            Ok(ret as usize)
        }
    }

    /// What a claim call of the kernel means. [`claim_error`] says which error a failure is.
    pub fn claim_interface(ret: i32, errno: i32) -> (r: Result<(), UsbError>)
        ensures
            ret >= 0 ==> r == Ok::<(), UsbError>(()),
            ret < 0 && errno <= LAST_COMMON_ERRNO ==> outcome(r) == Err::<(), ErrorView>(
                claim_failure(common_errno_kind(errno), errno_text_of(errno)),
            ),
            ret < 0 ==> exists|kind: ErrnoKind, text: Seq<char>|
                {
                    &&& #[trigger] errno_tells(errno, kind, text)
                    &&& outcome(r) == Err::<(), ErrorView>(claim_failure(kind, text))
                },
            ret < 0 && errno > LAST_COMMON_ERRNO ==> r is Err && r->Err_0@ is Other,
    {
        if ret < 0 {
            let kind: ErrnoKind = errno_kind(errno);
            let text: String = errno_text(errno);
            assert(errno_tells(errno, kind, text@));
            Err(claim_error(kind, text))
        } else {
            Ok(())
        }
    }

    /// What a release call of the kernel means. [`release_error`] says which error a failure is.
    pub fn release_interface(ret: i32, errno: i32) -> (r: Result<(), UsbError>)
        ensures
            ret >= 0 ==> r == Ok::<(), UsbError>(()),
            ret < 0 && errno <= LAST_COMMON_ERRNO ==> outcome(r) == Err::<(), ErrorView>(
                release_failure(common_errno_kind(errno), errno_text_of(errno)),
            ),
            ret < 0 ==> exists|kind: ErrnoKind, text: Seq<char>|
                {
                    &&& #[trigger] errno_tells(errno, kind, text)
                    &&& outcome(r) == Err::<(), ErrorView>(release_failure(kind, text))
                },
            ret < 0 && errno > LAST_COMMON_ERRNO ==> r is Err && r->Err_0@ is Other,
    {
        if ret < 0 {
            let kind: ErrnoKind = errno_kind(errno);
            let text: String = errno_text(errno);
            assert(errno_tells(errno, kind, text@));
            Err(release_error(kind, text))
        } else {
            Ok(())
        }
    }

    /// Plans a control transfer for a data buffer of the given length, if there is one.
    pub fn control_transfer(setup: ControlSetup, supplied: Option<usize>, timeout: Duration) -> (r:
        Result<ControlPlan, UsbError>)
        ensures
            outcome(r) == planned_transfer(
                setup,
                supplied,
                clamped_millis(duration_millis(timeout)),
            ),
    {
        plan_transfer(setup, supplied, timeout)
    }
}

// ---------------------------------------------------------------------------
// Laws
// ---------------------------------------------------------------------------

/// A device is listed exactly where it has a device node, whatever else is missing. Its entry
/// has that node as its path, and the texts of its own attributes.
pub proof fn law_entry_has_its_own_attributes(a: UdevAttributes)
    ensures
        listed_device(a) is Some <==> a.devnode is Some,
        listed_device(a) matches Some(i) ==> {
            &&& i.path == a.devnode->0@
            &&& i.manufacturer is Some <==> a.manufacturer is Some
            &&& a.manufacturer matches Some(s) ==> i.manufacturer == Some(s@)
            &&& i.product is Some <==> a.product is Some
            &&& a.product matches Some(s) ==> i.product == Some(s@)
            &&& i.serial_number is Some <==> a.serial is Some
            &&& a.serial matches Some(s) ==> i.serial_number == Some(s@)
        },
{
}

/// An entry has the number of an attribute that holds one, with white space around it or
/// without, and 0 for an attribute that is missing or holds none.
pub proof fn law_attribute_number(front: Seq<char>, digits: Seq<char>, back: Seq<char>, max: int)
    requires
        forall|i: int| 0 <= i < front.len() ==> is_white(#[trigger] front[i]),
        forall|i: int| 0 <= i < back.len() ==> is_white(#[trigger] back[i]),
        digits.len() > 0,
    ensures
        forall|radix: int|
            2 <= radix <= 36 && (forall|i: int|
                0 <= i < digits.len() ==> digit_value(#[trigger] digits[i]) < radix) ==> {
                let n = #[trigger] attr_number(Some(front + digits + back), radix, max);
                let value = digits_value(digits, radix);
                &&& value <= max ==> n == value
                &&& value > max ==> n == 0
            },
        forall|radix: int| #[trigger] attr_number(None, radix, max) == 0,
        forall|s: Seq<char>, radix: int|
            unsigned_value(trimmed(s), radix, max) is None ==> #[trigger] attr_number(
                Some(s),
                radix,
                max,
            ) == 0,
{
    assert forall|radix: int|
        2 <= radix <= 36 && (forall|i: int|
            0 <= i < digits.len() ==> digit_value(#[trigger] digits[i]) < radix) implies ({
        let n = #[trigger] attr_number(Some(front + digits + back), radix, max);
        let value = digits_value(digits, radix);
        &&& value <= max ==> n == value
        &&& value > max ==> n == 0
    }) by {
        let (first, last) = (digits[0], digits[digits.len() - 1]);
        assert(digit_value(first) < radix && digit_value(last) < radix);
        lemma_no_digit_is_white(first);
        lemma_no_digit_is_white(last);
        law_trimming_removes_white_space(front, digits, back);
        law_numbers_are_digits(digits, radix, max);
    }
}

/// A digit is no white space.
proof fn lemma_no_digit_is_white(c: char)
    ensures
        digit_value(c) < 36 ==> !is_white(c),
{
}

/// The vendor and product numbers of an entry come from their own attributes as hexadecimal
/// numbers of 16 bits, its place on the bus from its own as decimal numbers of 8 bits.
pub proof fn law_entry_has_its_own_numbers(a: UdevAttributes)
    ensures
        listed_device(a) matches Some(i) ==> {
            &&& a.id_vendor matches Some(s) ==> i.vendor_id == attr_number(Some(s@), 16, 65535)
            &&& a.id_vendor is None ==> i.vendor_id == 0
            &&& a.id_product matches Some(s) ==> i.product_id == attr_number(Some(s@), 16, 65535)
            &&& a.id_product is None ==> i.product_id == 0
            &&& a.busnum matches Some(s) ==> i.bus_number == attr_number(Some(s@), 10, 255)
            &&& a.busnum is None ==> i.bus_number == 0
            &&& a.devnum matches Some(s) ==> i.device_address == attr_number(Some(s@), 10, 255)
            &&& a.devnum is None ==> i.device_address == 0
        },
{
    lemma_attribute_number_fits(text_view(a.id_vendor), 16, 0xFFFF);
    lemma_attribute_number_fits(text_view(a.id_product), 16, 0xFFFF);
    lemma_attribute_number_fits(text_view(a.busnum), 10, 0xFF);
    lemma_attribute_number_fits(text_view(a.devnum), 10, 0xFF);
}

/// The number in an attribute is within its limit.
proof fn lemma_attribute_number_fits(value: Option<Seq<char>>, radix: int, max: int)
    requires
        2 <= radix <= 36,
        0 <= max,
    ensures
        0 <= attr_number(value, radix, max) <= max,
{
    if let Some(s) = value {
        let digits = unsigned_part(trimmed(s));
        lemma_value_grows(digits, 0, radix);
    }
}

/// A list has one entry for each device node of the scan, in the order of the scan, and no
/// other. Each is the entry of its own device.
pub proof fn law_list_has_every_device_node(scan: Seq<UdevAttributes>)
    ensures
        ({
            let nodes = scan.filter(|a: UdevAttributes| a.devnode is Some);
            let list = listed_devices(scan);
            &&& list.len() == nodes.len()
            &&& forall|k: int|
                0 <= k < list.len() ==> {
                    let i = #[trigger] list[k];
                    let a = nodes[k];
                    &&& a.devnode is Some && i.path == a.devnode->0@
                    &&& i.manufacturer is Some <==> a.manufacturer is Some
                    &&& a.manufacturer matches Some(s) ==> i.manufacturer == Some(s@)
                    &&& i.product is Some <==> a.product is Some
                    &&& a.product matches Some(s) ==> i.product == Some(s@)
                    &&& i.serial_number is Some <==> a.serial is Some
                    &&& a.serial matches Some(s) ==> i.serial_number == Some(s@)
                    &&& listed_device(a) == Some(i)
                }
        }),
    decreases scan.len(),
{
    reveal(Seq::filter);
    if scan.len() > 0 {
        law_list_has_every_device_node(scan.drop_last());
        law_entry_has_its_own_attributes(scan.last());
    }
}

/// Two scans one after the other are listed one after the other.
pub proof fn law_lists_follow_one_another(first: Seq<UdevAttributes>, second: Seq<UdevAttributes>)
    ensures
        listed_devices(first + second) == listed_devices(first) + listed_devices(second),
    decreases second.len(),
{
    let both = first + second;
    if second.len() == 0 {
        assert(both =~= first);
        assert(listed_devices(first) + listed_devices(second) =~= listed_devices(first));
    } else {
        law_lists_follow_one_another(first, second.drop_last());
        assert(both.drop_last() =~= first + second.drop_last());
        assert(listed_devices(both) =~= listed_devices(first) + listed_devices(second));
    }
}

/// What an attempt to open leads to, whatever the failure: a first failure of any kind to an
/// attempt without write access, a second one to its own error.
pub proof fn law_attempt_leads_to(step: OpenStep, access: Access, failure: Option<IoError>)
    requires
        open_decision(step, access, failure),
    ensures
        failure is None <==> step is Opened,
        failure is Some && access is ReadWrite ==> step == OpenStep::Retry(Access::ReadOnly),
        failure is Some && access is ReadOnly ==> step is Failed,
        step matches OpenStep::Failed(e) ==> {
            &&& failure->0.kind is PermissionDenied ==> e@ is PermissionDenied
            &&& !(failure->0.kind is PermissionDenied) ==> e@ == (ErrorView::Io {
                kind: failure->0.kind,
                os_code: failure->0.os_code,
                text: failure->0.text@,
            })
        },
{
}

/// The numbers of a broken pipe, a missing device and a busy one are told apart from all other
/// common ones.
pub proof fn law_common_errno_kinds(code: i32)
    ensures
        common_errno_kind(code) is Pipe <==> code == 32,
        common_errno_kind(code) is NoDevice <==> code == 19,
        common_errno_kind(code) is Busy <==> code == 16,
        !(common_errno_kind(code) is TimedOut),
{
}

/// Which error a failed call is. Wherever no error of its own fits, the text of the kernel is
/// kept.
pub proof fn law_failures_have_their_errors(kind: ErrnoKind, text: Seq<char>)
    ensures
        control_failure(kind, text) is Stall <==> kind is Pipe,
        control_failure(kind, text) is Timeout <==> kind is TimedOut,
        control_failure(kind, text) is DeviceNotFound <==> kind is NoDevice,
        kind is Busy || kind is Other ==> control_failure(kind, text) == ErrorView::Other(text),
        claim_failure(kind, text) is DeviceNotFound <==> kind is NoDevice,
        kind is Busy ==> claim_failure(kind, text) == ErrorView::Other(
            "interface already claimed"@,
        ),
        kind is Pipe || kind is TimedOut || kind is Other ==> claim_failure(kind, text)
            == ErrorView::Other(text),
        release_failure(kind, text) is DeviceNotFound <==> kind is NoDevice,
        !(kind is NoDevice) ==> release_failure(kind, text) == ErrorView::Other(text),
{
}

/// Listing gives one device for each device node of the scan, in its order. Each has the node
/// as its path and the texts of its own attributes, whichever of them are missing.
pub proof fn law_listing_gives_every_device_node(
    scan: &[UdevAttributes],
    devices: Vec<DeviceInfo>,
    k: int,
)
    requires
        call_ensures(enumerate_udev_devices, (scan,), devices),
    ensures
        devices@.len() == scan@.filter(|a: UdevAttributes| a.devnode is Some).len(),
        0 <= k < devices@.len() ==> {
            let a = scan@.filter(|a: UdevAttributes| a.devnode is Some)[k];
            let d = devices@[k];
            &&& a.devnode is Some && d.path@ == a.devnode->0@
            &&& d.manufacturer is Some <==> a.manufacturer is Some
            &&& d.manufacturer is Some ==> d.manufacturer->0@ == a.manufacturer->0@
            &&& d.product is Some <==> a.product is Some
            &&& d.product is Some ==> d.product->0@ == a.product->0@
            &&& d.serial_number is Some <==> a.serial is Some
            &&& d.serial_number is Some ==> d.serial_number->0@ == a.serial->0@
        },
{
    law_list_has_every_device_node(scan@);
    assert(info_views(devices@).len() == devices@.len());
    if 0 <= k < devices@.len() {
        assert(info_views(devices@)[k] == devices@[k]@);
        law_view_keeps_every_field(devices@[k]);
    }
}

/// A control call that does not fail has moved as many bytes as it returned, and claims and
/// releases that do not fail succeed.
pub proof fn law_result_of_the_kernel_counts(
    ret: i32,
    errno: i32,
    moved: Result<usize, UsbError>,
    claimed: Result<(), UsbError>,
    released: Result<(), UsbError>,
)
    requires
        call_ensures(LinuxDevice::raw_control, (ret, errno), moved),
        call_ensures(LinuxDevice::claim_interface, (ret, errno), claimed),
        call_ensures(LinuxDevice::release_interface, (ret, errno), released),
    ensures
        ret >= 0 ==> moved is Ok && moved->Ok_0 == ret && claimed is Ok && released is Ok,
        ret < 0 ==> moved is Err && claimed is Err && released is Err,
        ret < 0 && errno == 32 ==> moved->Err_0 is Stall,
        ret < 0 && errno == 19 ==> moved->Err_0 is DeviceNotFound && claimed->Err_0 is DeviceNotFound
            && released->Err_0 is DeviceNotFound,
{
    if ret < 0 {
        law_common_errno_kinds(errno);
        law_view_tells_the_error(moved->Err_0);
        law_view_tells_the_error(claimed->Err_0);
        law_view_tells_the_error(released->Err_0);
    }
}

} // verus!
