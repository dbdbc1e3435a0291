use rust_usb::backend::mock::{MockBackend, MockDevice, StringTable};
use rust_usb::backend::windows::control::{
    control_transfer, do_control_transfer, pipe_call, transfer_count, DESCRIPTOR_TIMEOUT_MS,
};
use rust_usb::backend::windows::device::{ClaimStep, Route, WinUsbDevice};
use rust_usb::backend::windows::enumeration::{Answer, DeviceTexts, Enumeration, Question};
use rust_usb::backend::windows::opening::{read_string_descriptors, FileAttempt, FileStep};
use rust_usb::backend::windows::pipes::{Handle, PipeInfo, PipeScan, PipeSearch};
use rust_usb::backend::windows::policy::{
    get_pipe_policy, policy_request, set_pipe_policy, set_pipe_timeout, winusb_policy_params,
};
use rust_usb::backend::windows::properties::{
    parse_location, parse_vid_pid, read_device_path, read_location_info, read_vid_pid,
};
use rust_usb::backend::windows::transfer::{Action, Reply, Transfer, INFINITE, IO_PENDING};
use rust_usb::backend::windows::WindowsBackend;
use rust_usb::backend::{Access, UsbBackend};
use rust_usb::error::HresultError;
use rust_usb::protocol::ControlSetup;
use rust_usb::{DeviceDescriptor, DeviceInfo, PipePolicy, PipePolicyKind, UsbError};
use std::time::Duration;

fn failure(code: u32) -> HresultError {
    HresultError { code, text: "text".to_string() }
}

fn bytes(s: &str) -> Vec<u8> {
    s.encode_utf16().flat_map(|u| u.to_le_bytes()).collect()
}

fn detail(path: &str) -> Vec<u8> {
    let mut b = vec![8, 0, 0, 0];
    b.extend(bytes(path));
    b.extend([0, 0]);
    b
}

fn pipe(pipe_id: u8) -> PipeInfo {
    PipeInfo { pipe_type: 2, pipe_id, max_packet_size: 512, interval: 1 }
}

#[test]
fn hardware_ids_tell_the_numbers() {
    assert_eq!(parse_vid_pid("USB\\VID_045E&PID_07A5&REV_0100"), Some((0x045E, 0x07A5)));
    assert_eq!(parse_vid_pid("USB\\vid_045E&PID_07A5"), None);
    assert_eq!(parse_vid_pid("USB\\VID_045E&PID_07A"), None);
    assert_eq!(parse_vid_pid("USB\\VID_04XE&PID_07A5"), None);
    assert_eq!(parse_vid_pid("PID_0001VID_+00F"), Some((0x000F, 1)));
    let ids = bytes("USB\\ROOT_HUB30\0usb\\vid_8087&pid_0a2b\0USB\\VID_1111&PID_2222\0\0");
    assert_eq!(read_vid_pid(&Some(ids)), (0x8087, 0x0A2B));
    assert_eq!(read_vid_pid(&Some(bytes("\0\0USB\\VID_8087&PID_0A2B\0"))), (0, 0));
    assert_eq!(read_vid_pid(&Some(bytes("\0USB\\VID_8087&PID_0A2B"))), (0x8087, 0x0A2B));
    assert_eq!(read_vid_pid(&Some(Vec::new())), (0, 0));
    assert_eq!(read_vid_pid(&None), (0, 0));
}

#[test]
fn texts_in_other_scripts_are_put_in_upper_case() {
    let ids = bytes("stra\u{df}e\\vid_000a&pid_000b\0\0");
    assert_eq!(read_vid_pid(&Some(ids)), (10, 11));
    assert_eq!(read_location_info(&Some(bytes("\u{e9} port_#0004.hub_#0009\0"))), Some((9, 4)));
}

#[test]
fn locations_tell_hub_and_port() {
    assert_eq!(parse_location("PORT_#0001.HUB_#0003"), (3, 1));
    assert_eq!(parse_location("PORT_#0000.HUB_#0255"), (255, 0));
    assert_eq!(parse_location("PORT_#0256.HUB_#"), (0, 0));
    assert_eq!(parse_location("HUB_#0007"), (7, 0));
    assert_eq!(read_location_info(&Some(bytes("Port_#0012.Hub_#0002\0rest"))), Some((2, 12)));
    assert_eq!(read_location_info(&Some(bytes("somewhere"))), Some((0, 0)));
    assert_eq!(read_location_info(&None), None);
}

#[test]
fn detail_data_holds_the_path() {
    assert_eq!(read_device_path(&detail("\\\\?\\usb#1")), Some("\\\\?\\usb#1".to_string()));
    assert_eq!(read_device_path(&detail("")), None);
    assert_eq!(read_device_path(&[8, 0, 0, 0, 65]), None);
    assert_eq!(read_device_path(&[8, 0, 0, 0, 65, 0]), Some("A".to_string()));
    assert_eq!(read_device_path(&[8, 0, 0, 0, 65, 0, 66]), Some("A".to_string()));
}

struct System {
    size: u32,
    detail: Option<Vec<u8>>,
    ids: Option<Vec<u8>>,
    location: Option<Vec<u8>>,
}

fn run(systems: Vec<System>) -> Vec<DeviceInfo> {
    let mut e = WindowsBackend.enumerate(Ok(())).unwrap();
    let mut at = 0;
    loop {
        let answer = match e.question() {
            Question::Interface(n) => {
                at = n as usize;
                Answer::Interface(at < systems.len())
            }
            Question::DetailSize => Answer::DetailSize(systems[at].size),
            Question::Detail(n) => {
                assert_eq!(n, systems[at].size);
                Answer::Detail(systems[at].detail.clone())
            }
            Question::HardwareIds => Answer::HardwareIds(systems[at].ids.clone()),
            Question::Location => Answer::Location(systems[at].location.clone()),
            Question::Texts => Answer::Texts(DeviceTexts {
                manufacturer: Some(format!("maker {}", e.path)),
                product: None,
                serial_number: Some("1".to_string()),
            }),
            Question::Finished => return e.into_devices(),
        };
        e = e.answer(answer);
    }
}

#[test]
fn enumeration_lists_the_devices_in_order() {
    let good = |path: &str, id: &str| System {
        size: 20,
        detail: Some(detail(path)),
        ids: Some(bytes(id)),
        location: Some(bytes("Port_#0002.Hub_#0001")),
    };
    let devices = run(vec![
        System { size: 0, ..good("zero", "") },
        good("a", "USB\\VID_0001&PID_0002\0\0"),
        System { detail: None, ..good("unreadable", "") },
        System { detail: Some(detail("")), ..good("", "") },
        System { location: None, ids: None, ..good("b", "") },
    ]);
    assert_eq!(devices.len(), 2);
    assert_eq!(devices[0].path, "a");
    assert_eq!((devices[0].vendor_id, devices[0].product_id), (1, 2));
    assert_eq!((devices[0].bus_number, devices[0].device_address), (1, 2));
    assert_eq!(devices[0].manufacturer, Some("maker a".to_string()));
    assert_eq!(devices[0].product, None);
    assert_eq!(devices[1].path, "b");
    assert_eq!((devices[1].vendor_id, devices[1].product_id), (0, 0));
    assert_eq!((devices[1].bus_number, devices[1].device_address), (0, 0));
    assert_eq!(run(Vec::new()).len(), 0);
}

#[test]
fn wrong_answers_change_nothing() {
    let e = Enumeration::start().answer(Answer::DetailSize(4));
    assert_eq!(e.question(), Question::Interface(0));
    let e = e.answer(Answer::Interface(false)).answer(Answer::Interface(true));
    assert_eq!(e.question(), Question::Finished);
}

#[test]
fn enumeration_needs_the_information_set() {
    let r = WindowsBackend.enumerate(Err(failure(0x8007_0005)));
    assert!(matches!(r, Err(UsbError::PermissionDenied)));
}

#[test]
fn opening_a_file_falls_back_to_read_only() {
    assert_eq!(WinUsbDevice::first_access(), Access::ReadWrite);
    let open = WinUsbDevice::open;
    assert!(matches!(open(Access::ReadWrite, FileAttempt::Opened), FileStep::Initialize));
    assert!(matches!(open(Access::ReadOnly, FileAttempt::Opened), FileStep::Initialize));
    assert!(matches!(
        open(Access::ReadWrite, FileAttempt::Failed(failure(0x8007_0005))),
        FileStep::Retry(Access::ReadOnly)
    ));
    assert!(matches!(
        open(Access::ReadOnly, FileAttempt::Failed(failure(0x8007_0005))),
        FileStep::Failed(UsbError::PermissionDenied)
    ));
    assert!(matches!(
        open(Access::ReadWrite, FileAttempt::Failed(failure(0x8007_0002))),
        FileStep::Failed(UsbError::DeviceNotFound)
    ));
    assert!(matches!(
        open(Access::ReadWrite, FileAttempt::Invalid),
        FileStep::Failed(UsbError::DeviceNotFound)
    ));
    assert!(matches!(
        open(Access::ReadOnly, FileAttempt::Invalid),
        FileStep::Failed(UsbError::PermissionDenied)
    ));
    assert_eq!(WinUsbDevice::initialized(Ok(77)).ok().unwrap().primary(), 77);
    assert!(matches!(WinUsbDevice::initialized(Err(failure(0x8007_0006))), Err(UsbError::InvalidHandle)));
}

fn mock(manufacturer_index: u8, product_index: u8) -> MockDevice {
    let mut backend = MockBackend::new();
    let info = DeviceInfo {
        vendor_id: 1,
        product_id: 2,
        bus_number: 3,
        device_address: 4,
        path: "p".to_string(),
        manufacturer: None,
        product: None,
        serial_number: None,
    };
    let descriptor = DeviceDescriptor {
        bcd_usb: 0x0200,
        device_class: 0,
        device_sub_class: 0,
        device_protocol: 0,
        max_packet_size0: 64,
        vendor_id: 1,
        product_id: 2,
        bcd_device: 1,
        manufacturer_index,
        product_index,
        serial_number_index: 9,
        num_configurations: 1,
    };
    let mut strings = StringTable::new();
    strings.insert(0, 0x0409, "never".to_string());
    strings.insert(1, 0x0409, "maker".to_string());
    strings.insert(2, 0x0407, "deutsch".to_string());
    backend.add_device(info, descriptor, Vec::new(), strings);
    backend.open("p").ok().unwrap()
}

#[test]
fn texts_are_read_where_they_can_be() {
    let t = read_string_descriptors(Ok(mock(1, 0)));
    assert_eq!(t.manufacturer, Some("maker".to_string()));
    assert_eq!(t.product, None);
    assert_eq!(t.serial_number, None);
    assert_eq!(read_string_descriptors(Ok(mock(1, 2))).product, None);
    let t = read_string_descriptors::<MockDevice>(Err(UsbError::DeviceNotFound));
    assert!(t.manufacturer.is_none() && t.product.is_none() && t.serial_number.is_none());
}

fn scan(pipes: &[PipeInfo]) -> Vec<u8> {
    let mut s = PipeScan::start();
    while let Some(n) = s.question() {
        s = s.answer(pipes.get(n as usize).copied());
    }
    s.into_endpoints()
}

#[test]
fn scan_collects_the_endpoints() {
    assert_eq!(scan(&[pipe(0x81), pipe(0x02)]), vec![0x81, 0x02]);
    assert_eq!(scan(&[]), Vec::<u8>::new());
    let many: Vec<PipeInfo> = (0..40).map(pipe).collect();
    assert_eq!(scan(&many), (0..32).collect::<Vec<u8>>());
}

fn search(mut s: PipeSearch, pipes: impl Fn(Handle) -> Vec<PipeInfo>) -> Option<(Handle, PipeInfo)> {
    while let Some((h, n)) = s.question() {
        s = s.answer(pipes(h).get(n as usize).copied());
    }
    s.found()
}

#[test]
fn search_finds_the_first_pipe() {
    let pipes = |h: Handle| match h {
        10 => vec![pipe(0x81)],
        11 => (0..33).map(pipe).collect(),
        _ => vec![pipe(0x81), pipe(0x20), pipe(0x05)],
    };
    let find = |e: u8| search(PipeSearch::start(e, vec![10, 11, 12]), pipes);
    assert_eq!(find(0x81), Some((10, pipe(0x81))));
    assert_eq!(find(0x05), Some((11, pipe(0x05))));
    assert_eq!(find(0x20), Some((12, pipe(0x20))));
    assert_eq!(find(0x99), None);
    assert_eq!(search(PipeSearch::start(1, vec![]), pipes), None);
}

#[test]
fn claims_lead_endpoints_to_their_interfaces() {
    let mut d = WinUsbDevice::new(100);
    assert!(matches!(d.handle_for_endpoint(0x81), Route::Known(100)));
    assert_eq!(d.claim_interface(0), ClaimStep::Scan(100));
    d.finish_primary_claim(&[0x81]);
    assert_eq!(d.claim_interface(3), ClaimStep::Associate(2));
    d.finish_claim(3, 103, &[0x83, 0x03]);
    assert_eq!(d.claim_interface(3), ClaimStep::Nothing);
    d.finish_claim(1, 101, &[0x82, 0x03]);
    assert_eq!(d.handles(), vec![100, 103, 101]);
    assert_eq!(d.handles_to_free(), vec![101, 103, 100]);
    assert!(matches!(d.handle_for_endpoint(0x81), Route::Known(100)));
    assert!(matches!(d.handle_for_endpoint(0x83), Route::Known(103)));
    assert!(matches!(d.handle_for_endpoint(0x03), Route::Known(101)));
    match d.handle_for_endpoint(0x07) {
        Route::Search(s) => {
            let found = search(s, |h| if h == 101 { vec![pipe(0x07)] } else { vec![] });
            assert_eq!(d.searched_handle(found), 101);
            assert_eq!(d.searched_handle(None), 100);
        }
        Route::Known(_) => panic!("not known"),
    }
    assert_eq!(d.interface_handle(0).unwrap(), 100);
    assert_eq!(d.interface_handle(3).unwrap(), 103);
    match d.interface_handle(12) {
        Err(UsbError::Other(t)) => {
            assert_eq!(t, "interface 12 not claimed; call claim_interface first")
        }
        _ => panic!("not claimed"),
    }
    assert_eq!(d.release_interface(0), None);
    assert_eq!(d.release_interface(7), None);
    assert_eq!(d.release_interface(1), Some(101));
    assert_eq!(d.release_interface(1), None);
    assert_eq!(d.handles(), vec![100, 103]);
    assert!(matches!(d.handle_for_endpoint(0x82), Route::Search(_)));
    assert!(matches!(d.handle_for_endpoint(0x03), Route::Search(_)));
    assert!(matches!(d.handle_for_endpoint(0x83), Route::Known(103)));
}

#[test]
fn pipe_info_is_that_of_the_pipe_found() {
    let d = WinUsbDevice::new(1);
    let found = search(d.search_pipe(0x82), |_| vec![pipe(0x81), PipeInfo { pipe_type: 259, ..pipe(0x82) }]);
    let info = WinUsbDevice::get_pipe_info(0x82, found).unwrap();
    assert_eq!((info.endpoint_address, info.attributes), (0x82, 3));
    assert_eq!((info.max_packet_size, info.interval), (512, 1));
    match WinUsbDevice::get_pipe_info(0x03, None) {
        Err(UsbError::Other(t)) => assert_eq!(t, "endpoint 0x03 not found on any claimed interface"),
        _ => panic!("not found"),
    }
}

#[test]
fn policies_are_read_as_they_were_set() {
    let all = [
        (PipePolicy::ShortPacketTerminate(true), 1, vec![1]),
        (PipePolicy::AutoClearStall(false), 2, vec![0]),
        (PipePolicy::TransferTimeout(0x0102_0304), 3, vec![4, 3, 2, 1]),
        (PipePolicy::AllowPartialReads(true), 5, vec![1]),
        (PipePolicy::AutoFlush(true), 6, vec![1]),
        (PipePolicy::RawIo(false), 7, vec![0]),
        (PipePolicy::ResetPipeOnResume(true), 9, vec![1]),
    ];
    for (policy, id, value) in all {
        let v = set_pipe_policy(policy);
        assert_eq!(v.id, id);
        assert_eq!(v.bytes, value);
        assert_eq!(policy_request(policy.kind()), (id, value.len()));
        assert_eq!(winusb_policy_params(policy.kind()), (id, value.len() == 4));
        assert_eq!(get_pipe_policy(policy.kind(), &v.bytes), policy);
    }
    assert_eq!(get_pipe_policy(PipePolicyKind::RawIo, &[7]), PipePolicy::RawIo(true));
}

#[test]
fn timeouts_are_set_before_transfers() {
    assert!(set_pipe_timeout(0).is_none());
    let v = set_pipe_timeout(1000).unwrap();
    assert_eq!((v.id, v.bytes), (3, vec![0xE8, 3, 0, 0]));
    let c = pipe_call(0x81, Duration::from_millis(258));
    assert_eq!(c.pipe, 0x81);
    assert_eq!(c.policy.unwrap().bytes, vec![2, 1, 0, 0]);
    assert!(pipe_call(0x81, Duration::from_micros(900)).policy.is_none());
    let setup = ControlSetup::get_descriptor(1, 0, 0, 18);
    let c = do_control_transfer(setup, DESCRIPTOR_TIMEOUT_MS);
    assert_eq!((c.call.pipe, c.packet), (0, setup));
    assert_eq!(c.call.policy.unwrap().bytes, vec![0xE8, 3, 0, 0]);
    assert!(control_transfer(setup, Duration::ZERO).call.policy.is_none());
    assert_eq!(transfer_count(Ok(12)).unwrap(), 12);
    assert!(matches!(transfer_count(Err(failure(0x8007_0016))), Err(UsbError::Stall)));
}

fn perform(mut t: Transfer, reply: impl Fn(Action) -> Reply) -> (Vec<Action>, Result<usize, UsbError>) {
    let mut done = Vec::new();
    while t.action() != Action::Finished {
        let action = t.action();
        done.push(action);
        t = t.reply(reply(action));
    }
    (done, t.into_result().unwrap())
}

fn reply_with(submit: Result<u32, u32>, signaled: bool, collect: Result<u32, u32>) -> impl Fn(Action) -> Reply {
    move |a| match a {
        Action::Register => Reply::Register(Ok(())),
        Action::CreateEvent => Reply::CreateEvent(Ok(())),
        Action::Submit => Reply::Submit(submit.map_err(failure)),
        Action::Wait(_) => Reply::Wait(signaled),
        Action::Collect => Reply::Collect(collect.map_err(failure)),
        Action::Unregister => Reply::Unregister,
        Action::CloseEvent => Reply::CloseEvent,
        Action::Finished => unreachable!(),
    }
}

#[test]
fn overlapped_transfers_close_their_event() {
    let t = || Transfer::overlapped(Duration::from_millis(50));
    let (done, r) = perform(t(), reply_with(Ok(9), true, Ok(0)));
    assert_eq!(done, vec![Action::CreateEvent, Action::Submit, Action::CloseEvent]);
    assert_eq!(r.unwrap(), 9);
    let (done, r) = perform(t(), reply_with(Err(IO_PENDING), true, Ok(7)));
    assert_eq!(
        done,
        vec![Action::CreateEvent, Action::Submit, Action::Wait(50), Action::Collect, Action::CloseEvent]
    );
    assert_eq!(r.unwrap(), 7);
    let (done, r) = perform(t(), reply_with(Err(IO_PENDING), false, Ok(7)));
    assert_eq!(done.last(), Some(&Action::CloseEvent));
    assert!(matches!(r, Err(UsbError::Timeout)));
    let (done, r) = perform(t(), reply_with(Err(IO_PENDING), true, Err(0x8007_0006)));
    assert_eq!(done.last(), Some(&Action::CloseEvent));
    assert!(matches!(r, Err(UsbError::InvalidHandle)));
    let (done, r) = perform(t(), reply_with(Err(0x8007_0016), true, Ok(7)));
    assert_eq!(done.last(), Some(&Action::CloseEvent));
    assert!(matches!(r, Err(UsbError::Stall)));
    let (done, r) = perform(t(), |_| Reply::CreateEvent(Err(failure(0x8007_0005))));
    assert_eq!(done, vec![Action::CreateEvent]);
    assert!(matches!(r, Err(UsbError::PermissionDenied)));
}

#[test]
fn overlapped_transfers_wait_up_to_their_timeout() {
    let wait = |timeout: Duration| {
        let (done, r) = perform(Transfer::overlapped(timeout), reply_with(Err(IO_PENDING), false, Ok(1)));
        assert!(matches!(r, Err(UsbError::Timeout)));
        done[2]
    };
    assert_eq!(wait(Duration::ZERO), Action::Wait(0));
    assert_eq!(wait(Duration::from_micros(500)), Action::Wait(0));
    assert_eq!(wait(Duration::from_micros(1999)), Action::Wait(1));
    assert_eq!(wait(Duration::from_millis(0xFFFF_FFFE)), Action::Wait(0xFFFF_FFFE));
    assert_eq!(wait(Duration::from_millis(0xFFFF_FFFF)), Action::Wait(0xFFFF_FFFE));
    assert_eq!(wait(Duration::MAX), Action::Wait(0xFFFF_FFFE));
}

#[test]
fn isochronous_transfers_give_everything_back() {
    let (done, r) = perform(Transfer::isochronous(0), |_| unreachable!());
    assert!(done.is_empty());
    assert_eq!(r.unwrap(), 0);
    let (done, r) = perform(Transfer::isochronous(64), reply_with(Ok(0), true, Ok(48)));
    assert_eq!(
        done,
        vec![
            Action::Register,
            Action::CreateEvent,
            Action::Submit,
            Action::Collect,
            Action::Unregister,
            Action::CloseEvent
        ]
    );
    assert_eq!(r.unwrap(), 48);
    let (done, r) = perform(Transfer::isochronous(64), reply_with(Err(IO_PENDING), false, Ok(48)));
    assert_eq!(done[3..], [Action::Wait(INFINITE), Action::Unregister, Action::CloseEvent]);
    assert!(matches!(r, Err(UsbError::Timeout)));
    let (done, r) = perform(Transfer::isochronous(64), |a| match a {
        Action::CreateEvent => Reply::CreateEvent(Err(failure(1))),
        Action::Register => Reply::Register(Ok(())),
        _ => Reply::Unregister,
    });
    assert_eq!(done, vec![Action::Register, Action::CreateEvent, Action::Unregister]);
    assert!(matches!(r, Err(UsbError::Other(_))));
    let (done, r) = perform(Transfer::isochronous(64), |_| Reply::Register(Err(failure(0x8007_0006))));
    assert_eq!(done, vec![Action::Register]);
    assert!(matches!(r, Err(UsbError::InvalidHandle)));
}
