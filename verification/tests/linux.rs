use rust_usb::backend::linux::{
    claim_error, control_error, enumerate_udev_devices, parse_decimal_attr, parse_hex_attr,
    release_error, ErrnoKind, LinuxBackend, LinuxDevice, OpenStep, UdevAttributes,
};
use rust_usb::backend::Access;
use rust_usb::error::{IoError, IoErrorKind};
use rust_usb::protocol::control::{ControlSetup, DataBuffer};
use rust_usb::UsbError;
use std::time::Duration;

fn text(s: &str) -> Option<String> {
    Some(s.to_string())
}

fn attributes(node: Option<String>) -> UdevAttributes {
    UdevAttributes {
        devnode: node,
        id_vendor: text("046d\n"),
        id_product: text("C52B"),
        busnum: text(" 3"),
        devnum: text("017"),
        manufacturer: text("Logitech"),
        product: None,
        serial: text(""),
    }
}

fn other(r: Result<(), UsbError>) -> String {
    match r {
        Err(UsbError::Other(text)) => text,
        _ => panic!("an error with a text"),
    }
}

#[test]
fn attributes_are_numbers() {
    assert_eq!(parse_hex_attr(&text(" 1d6b \n")), 0x1D6B);
    assert_eq!(parse_hex_attr(&text("10000")), 0);
    assert_eq!(parse_hex_attr(&text("xyz")), 0);
    assert_eq!(parse_hex_attr(&None), 0);
    assert_eq!(parse_decimal_attr(&text("255")), 255);
    assert_eq!(parse_decimal_attr(&text("256")), 0);
    assert_eq!(parse_decimal_attr(&text("")), 0);
}

#[test]
fn devices_with_a_node_are_listed() {
    let scan = vec![
        attributes(text("/dev/bus/usb/003/017")),
        attributes(None),
        attributes(text("/dev/bus/usb/003/018")),
    ];
    let devices = enumerate_udev_devices(&scan);
    assert_eq!(devices.len(), 2);
    assert_eq!(devices[0].path, "/dev/bus/usb/003/017");
    assert_eq!((devices[0].vendor_id, devices[0].product_id), (0x046D, 0xC52B));
    assert_eq!((devices[0].bus_number, devices[0].device_address), (3, 17));
    assert_eq!(devices[0].manufacturer, text("Logitech"));
    assert_eq!(devices[0].product, None);
    assert_eq!(devices[0].serial_number, text(""));
    assert_eq!(devices[1].path, "/dev/bus/usb/003/018");
    assert_eq!(LinuxBackend.enumerate(Ok(scan)).unwrap().len(), 2);
}

#[test]
fn failed_scan_is_an_io_error() {
    let e = IoError { kind: IoErrorKind::Other, os_code: Some(12), text: "no memory".to_string() };
    match LinuxBackend.enumerate(Err(e)) {
        Err(UsbError::Io(e)) => assert_eq!(e.text, "no memory"),
        _ => panic!("the scan failed"),
    }
}

#[test]
fn opening_a_node_falls_back_to_read_only() {
    let failure = |kind| Some(IoError { kind, os_code: None, text: "text".to_string() });
    assert_eq!(LinuxDevice::first_access(), Access::ReadWrite);
    assert!(matches!(LinuxDevice::open(Access::ReadWrite, None), OpenStep::Opened));
    assert!(matches!(LinuxDevice::open(Access::ReadOnly, None), OpenStep::Opened));
    assert!(matches!(
        LinuxDevice::open(Access::ReadWrite, failure(IoErrorKind::Other)),
        OpenStep::Retry(Access::ReadOnly)
    ));
    assert!(matches!(
        LinuxDevice::open(Access::ReadOnly, failure(IoErrorKind::PermissionDenied)),
        OpenStep::Failed(UsbError::PermissionDenied)
    ));
    assert!(matches!(
        LinuxDevice::open(Access::ReadOnly, failure(IoErrorKind::Other)),
        OpenStep::Failed(UsbError::Io(_))
    ));
}

#[test]
fn kernel_errors_have_their_meaning() {
    assert_eq!(LinuxDevice::raw_control(18, 32).unwrap(), 18);
    assert!(matches!(LinuxDevice::raw_control(-1, 32), Err(UsbError::Stall)));
    assert!(matches!(LinuxDevice::raw_control(-1, 19), Err(UsbError::DeviceNotFound)));
    let timed_out = nix::errno::Errno::ETIMEDOUT as i32;
    assert!(matches!(LinuxDevice::raw_control(-1, timed_out), Err(UsbError::Timeout)));
    assert_eq!(other(LinuxDevice::raw_control(-1, 22).map(|_| ())), "EINVAL: Invalid argument");
    assert_eq!(other(LinuxDevice::raw_control(-1, 16).map(|_| ())), "EBUSY: Device or resource busy");
    assert_eq!(other(LinuxDevice::raw_control(-1, 0).map(|_| ())), "UnknownErrno: Unknown errno");
    LinuxDevice::claim_interface(0, 16).unwrap();
    assert_eq!(other(LinuxDevice::claim_interface(-1, 16)), "interface already claimed");
    assert!(matches!(LinuxDevice::claim_interface(-1, 19), Err(UsbError::DeviceNotFound)));
    assert_eq!(other(LinuxDevice::claim_interface(-1, 32)), "EPIPE: Broken pipe");
    LinuxDevice::release_interface(0, 19).unwrap();
    assert!(matches!(LinuxDevice::release_interface(-1, 19), Err(UsbError::DeviceNotFound)));
    assert_eq!(other(LinuxDevice::release_interface(-1, 2)), "ENOENT: No such file or directory");
    assert_eq!(
        other(LinuxDevice::release_interface(-1, timed_out)),
        nix::errno::Errno::ETIMEDOUT.to_string()
    );
}

#[test]
fn kinds_of_errors_have_their_meaning() {
    let t = || "text".to_string();
    assert!(matches!(control_error(ErrnoKind::TimedOut, t()), UsbError::Timeout));
    assert!(matches!(control_error(ErrnoKind::Pipe, t()), UsbError::Stall));
    assert!(matches!(control_error(ErrnoKind::Busy, t()), UsbError::Other(_)));
    assert!(matches!(claim_error(ErrnoKind::TimedOut, t()), UsbError::Other(_)));
    assert!(matches!(claim_error(ErrnoKind::NoDevice, t()), UsbError::DeviceNotFound));
    assert!(matches!(release_error(ErrnoKind::Busy, t()), UsbError::Other(_)));
}

#[test]
fn transfer_without_data_sends_zeros() {
    let setup = ControlSetup { request_type: 0x00, request: 9, value: 1, index: 0, length: 0 };
    let plan = LinuxDevice::control_transfer(setup, None, Duration::from_secs(3)).unwrap();
    assert_eq!(plan.buffer, DataBuffer::Zeros(0));
    assert_eq!(plan.request.timeout_ms, 3000);
}
