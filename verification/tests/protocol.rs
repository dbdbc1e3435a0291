use rust_usb::error::{HresultError, IoError, IoErrorKind};
use rust_usb::protocol::control::{clamp_millis, plan_transfer, ControlSetup, DataBuffer, RawControl};
use rust_usb::protocol::reading::{
    bos_header_request, bos_reply, bos_request, config_header_request, config_length,
    config_request, counted_config_request, counted_device_descriptor, device_descriptor_request,
    hub_reply, hub_request, raw_descriptor_request, string_reply, string_request,
};
use rust_usb::{PipePolicy, PipePolicyKind, UsbError};
use std::time::Duration;

#[test]
fn messages_describe_errors() {
    let io = IoError { kind: IoErrorKind::Other, os_code: Some(5), text: "bad".to_string() };
    assert_eq!(UsbError::from(io).message(), "I/O error: bad");
    assert_eq!(UsbError::InvalidDescriptor.message(), "invalid descriptor data");
    assert_eq!(UsbError::DeviceNotFound.message(), "device not found");
    assert_eq!(
        UsbError::PermissionDenied.message(),
        "permission denied — try running as administrator or check device access rules"
    );
    assert_eq!(UsbError::Timeout.message(), "transfer timed out");
    assert_eq!(UsbError::Stall.message(), "endpoint stall — call reset_pipe and retry");
    assert_eq!(
        UsbError::InvalidHandle.message(),
        "invalid handle — device may have been disconnected"
    );
    assert_eq!(UsbError::Unsupported.message(), "operation not supported on this platform");
    assert_eq!(UsbError::Other("x".to_string()).message(), "USB error: x");
}

#[test]
fn hresults_have_their_meaning() {
    let error = |code: u32| UsbError::from(HresultError { code, text: "text".to_string() });
    assert!(matches!(error(0x8007_0005), UsbError::PermissionDenied));
    assert!(matches!(error(0x8007_0006), UsbError::InvalidHandle));
    assert!(matches!(error(0x8007_0002), UsbError::DeviceNotFound));
    assert!(matches!(error(0x8007_01B1), UsbError::DeviceNotFound));
    assert!(matches!(error(0x8007_048F), UsbError::DeviceNotFound));
    assert!(matches!(error(0x8007_0079), UsbError::Timeout));
    assert!(matches!(error(0x8007_0016), UsbError::Stall));
    match error(0x8007_0001) {
        UsbError::Other(text) => assert_eq!(text, "text"),
        _ => panic!("no meaning of its own"),
    }
}

#[test]
fn policies_have_their_kind() {
    let all = [
        (PipePolicy::ShortPacketTerminate(true), PipePolicyKind::ShortPacketTerminate, Some(true)),
        (PipePolicy::AutoClearStall(false), PipePolicyKind::AutoClearStall, Some(false)),
        (PipePolicy::TransferTimeout(7), PipePolicyKind::TransferTimeout, None),
        (PipePolicy::AllowPartialReads(true), PipePolicyKind::AllowPartialReads, Some(true)),
        (PipePolicy::AutoFlush(false), PipePolicyKind::AutoFlush, Some(false)),
        (PipePolicy::RawIo(true), PipePolicyKind::RawIo, Some(true)),
        (PipePolicy::ResetPipeOnResume(true), PipePolicyKind::ResetPipeOnResume, Some(true)),
    ];
    for (policy, kind, payload) in all {
        assert_eq!(policy.kind(), kind);
        assert_eq!(policy.as_bool(), payload);
    }
}

#[test]
fn descriptor_requests_have_their_fields() {
    let r = ControlSetup::get_descriptor(0x03, 0x12, 0x0409, 255);
    assert_eq!(
        (r.request_type, r.request, r.value, r.index, r.length),
        (0x80, 0x06, 0x0312, 0x0409, 255)
    );
    assert_eq!(device_descriptor_request(), ControlSetup::get_descriptor(1, 0, 0, 18));
    assert_eq!(config_header_request(3), ControlSetup::get_descriptor(2, 3, 0, 9));
    assert_eq!(config_request(3, 77), ControlSetup::get_descriptor(2, 3, 0, 77));
    assert_eq!(string_request(5, 0x0407), ControlSetup::get_descriptor(3, 5, 0x0407, 255));
    assert_eq!(bos_header_request(), ControlSetup::get_descriptor(0x0F, 0, 0, 5));
    let hub = hub_request();
    assert_eq!((hub.request_type, hub.request, hub.value, hub.index, hub.length), (0xA0, 6, 0x2900, 0, 71));
}

#[test]
fn timeouts_are_clamped() {
    assert_eq!(clamp_millis(0), 0);
    assert_eq!(clamp_millis(u32::MAX as u128), u32::MAX);
    assert_eq!(clamp_millis(u32::MAX as u128 + 1), u32::MAX);
}

#[test]
fn transfers_are_planned() {
    let inward = ControlSetup { request_type: 0x80, request: 6, value: 0x100, index: 2, length: 18 };
    let outward = ControlSetup { request_type: 0x21, request: 9, value: 1, index: 0, length: 4 };
    let t = Duration::from_micros(2_500_999);
    let plan = plan_transfer(inward, Some(64), t).unwrap();
    assert_eq!(
        plan.request,
        RawControl { request_type: 0x80, request: 6, value: 0x100, index: 2, length: 64, timeout_ms: 2500 }
    );
    assert_eq!(plan.buffer, DataBuffer::Supplied);
    match plan_transfer(inward, None, t) {
        Err(UsbError::Other(text)) => assert_eq!(text, "IN transfer requires a data buffer"),
        _ => panic!("nowhere to put the data"),
    }
    let plan = plan_transfer(outward, None, Duration::MAX).unwrap();
    assert_eq!(plan.request.length, 4);
    assert_eq!(plan.request.timeout_ms, u32::MAX);
    assert_eq!(plan.buffer, DataBuffer::Zeros(4));
    let plan = plan_transfer(outward, Some(0x1_0003), t).unwrap();
    assert_eq!(plan.request.length, 3);
    assert_eq!(plan.buffer, DataBuffer::Supplied);
}

#[test]
fn configuration_is_read_in_two_steps() {
    let hdr = [9, 2, 0x20, 0x01, 1, 1, 0, 0x80, 50];
    assert_eq!(config_length(&hdr).unwrap(), 0x0120);
    let short = [9, 2, 8, 0, 1, 1, 0, 0x80, 50];
    assert!(matches!(config_length(&short), Err(UsbError::InvalidDescriptor)));
    let r = counted_config_request(2, 9, &hdr).unwrap();
    assert_eq!(
        r,
        RawControl { request_type: 0x80, request: 6, value: 0x0202, index: 0, length: 0x0120, timeout_ms: 5000 }
    );
    assert!(matches!(counted_config_request(2, 8, &hdr), Err(UsbError::InvalidDescriptor)));
    assert!(matches!(counted_config_request(2, 9, &short), Err(UsbError::InvalidDescriptor)));
}

#[test]
fn device_descriptor_reply_must_be_complete() {
    let bytes = [18, 1, 0, 2, 0, 0, 0, 64, 0x34, 0x12, 0x78, 0x56, 0, 1, 1, 2, 3, 1];
    assert_eq!(counted_device_descriptor(18, &bytes).unwrap().vendor_id, 0x1234);
    assert!(matches!(counted_device_descriptor(17, &bytes), Err(UsbError::InvalidDescriptor)));
    let raw = raw_descriptor_request(device_descriptor_request());
    assert_eq!((raw.value, raw.length, raw.timeout_ms), (0x0100, 18, 5000));
}

#[test]
fn string_is_read_back_from_its_descriptor() {
    let mut buf = [0xEE; 255];
    let units: Vec<u16> = "Gerät \u{1F600}".encode_utf16().collect();
    buf[0] = (2 + 2 * units.len()) as u8;
    buf[1] = 3;
    for (i, u) in units.iter().enumerate() {
        buf[2 + 2 * i] = *u as u8;
        buf[3 + 2 * i] = (*u >> 8) as u8;
    }
    let n = buf[0] as usize;
    assert_eq!(string_reply(n, &buf).unwrap(), "Gerät \u{1F600}");
    assert_eq!(string_reply(255, &buf).unwrap(), "Gerät \u{1F600}");
    assert!(matches!(string_reply(n - 1, &buf), Err(UsbError::InvalidDescriptor)));
    assert!(matches!(string_reply(1, &buf), Err(UsbError::InvalidDescriptor)));
    buf[0] = 1;
    assert!(matches!(string_reply(9, &buf), Err(UsbError::InvalidDescriptor)));
    buf[0] = 5;
    assert_eq!(string_reply(5, &buf).unwrap(), "G");
}

#[test]
fn binary_object_store_is_read_in_two_steps() {
    let hdr = [5, 0x0F, 12, 0, 1];
    assert_eq!(bos_request(5, &hdr).unwrap(), ControlSetup::get_descriptor(0x0F, 0, 0, 12));
    assert!(matches!(bos_request(4, &hdr), Err(UsbError::InvalidDescriptor)));
    assert!(matches!(bos_request(5, &[5, 2, 12, 0, 1]), Err(UsbError::InvalidDescriptor)));
    assert_eq!(bos_request(5, &[5, 0x0F, 0, 0x20, 1]).unwrap().length, 4096);
    let buf = [5, 0x0F, 12, 0, 1, 7, 0x10, 2, 6, 0, 0, 0, 0x55];
    assert_eq!(bos_reply(12, &buf).unwrap().capabilities.len(), 1);
    assert_eq!(bos_reply(11, &buf).unwrap().capabilities.len(), 0);
}

#[test]
fn hub_reply_is_cut_to_its_length() {
    let mut buf = [0u8; 71];
    buf[..9].copy_from_slice(&[9, 0x29, 4, 0, 0, 50, 100, 1, 2]);
    assert_eq!(hub_reply(9, &buf).unwrap().port_masks, vec![1, 2]);
    assert!(matches!(hub_reply(8, &buf), Err(UsbError::InvalidDescriptor)));
}
