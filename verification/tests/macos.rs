use rust_usb::backend::macos::codes::{
    control_result, device_plugin_result, device_query_result, iokit_kr_to_usb_error,
    iokit_pipe_kr_to_usb_error, open_result, pipe_result, services_result, EXCLUSIVE_ACCESS, NO_DEVICE,
    NOT_OPEN, NOT_PERMITTED, PIPE_STALLED, SUCCESS, TRANSACTION_TIMEOUT, UNSUPPORTED,
};
use rust_usb::backend::macos::device::{
    alt_setting_reply, endpoint_address, get_interface_alt_setting, interface_exists, pipe_endpoint,
    set_interface_alt_setting, transfer_size, ClaimStep, MacOsDevice,
};
use rust_usb::backend::macos::interfaces::{InterfaceSearch, Reply, Step, Target};
use rust_usb::backend::macos::path::{
    device_info_from_service, is_service_at, parse_iokit_path, RegistryProperties,
};
use rust_usb::error::{IoError, IoErrorKind};
use rust_usb::protocol::control::RawControl;
use rust_usb::{ConfigDescriptor, UsbError};

fn other<T>(r: Result<T, UsbError>) -> String {
    match r {
        Err(UsbError::Other(text)) => text,
        _ => panic!("an error with a text"),
    }
}

fn properties() -> RegistryProperties {
    RegistryProperties {
        id_vendor: Some(0x05AC),
        id_product: Some(0x1_0007),
        bus_number: Some(-1),
        address: None,
        vendor_name: Some("Apple".to_string()),
        product_name: None,
        serial_number: None,
    }
}

#[test]
fn registered_devices_have_a_path() {
    let info = device_info_from_service(properties()).unwrap();
    assert_eq!((info.vendor_id, info.product_id), (0x05AC, 7));
    assert_eq!((info.bus_number, info.device_address), (255, 0));
    assert_eq!(info.path, "iokit:bus=255,addr=0,vid=05ac,pid=0007");
    assert_eq!(info.manufacturer, Some("Apple".to_string()));
    assert!(device_info_from_service(RegistryProperties { id_vendor: None, ..properties() }).is_none());
    assert!(device_info_from_service(RegistryProperties { id_product: None, ..properties() }).is_none());
    assert_eq!(parse_iokit_path(&info.path).unwrap(), (255, 0));
    assert!(is_service_at(Some(-1), None, 255, 0));
    assert!(!is_service_at(Some(1), Some(2), 1, 3));
}

#[test]
fn paths_are_read_leniently() {
    assert_eq!(parse_iokit_path("iokit:bus=1,addr=2,vid=0001,pid=0002").unwrap(), (1, 2));
    assert_eq!(parse_iokit_path("addr = 7 , bus\t= +20").unwrap(), (20, 7));
    assert_eq!(parse_iokit_path("bus=1,bus=2,addr=3").unwrap(), (2, 3));
    assert_eq!(
        other(parse_iokit_path("bus=1,addr=3,bus=256")),
        "invalid iokit path (missing bus): bus=1,addr=3,bus=256"
    );
    assert_eq!(other(parse_iokit_path("")), "invalid iokit path (missing bus): ");
    assert_eq!(
        other(parse_iokit_path("iokit:bus=1,addr")),
        "invalid iokit path (missing addr): iokit:bus=1,addr"
    );
    assert_eq!(other(parse_iokit_path("bus=1=2,addr=1")), "invalid iokit path (missing bus): bus=1=2,addr=1");
}

#[test]
fn codes_have_their_meaning() {
    assert!(matches!(iokit_kr_to_usb_error(PIPE_STALLED), UsbError::Stall));
    assert!(matches!(iokit_kr_to_usb_error(TRANSACTION_TIMEOUT), UsbError::Timeout));
    assert!(matches!(iokit_kr_to_usb_error(NO_DEVICE), UsbError::DeviceNotFound));
    assert!(matches!(iokit_kr_to_usb_error(NOT_PERMITTED), UsbError::PermissionDenied));
    assert_eq!(other::<()>(Err(iokit_kr_to_usb_error(0xE00002BC))), "IOReturn 0xe00002bc");
    assert_eq!(
        other::<()>(Err(iokit_pipe_kr_to_usb_error(SUCCESS))),
        "unexpected success code in error mapper"
    );
    assert!(matches!(iokit_pipe_kr_to_usb_error(NO_DEVICE), UsbError::InvalidHandle));
    assert!(matches!(iokit_pipe_kr_to_usb_error(NOT_OPEN), UsbError::InvalidHandle));
    assert!(matches!(iokit_pipe_kr_to_usb_error(UNSUPPORTED), UsbError::Unsupported));
    match iokit_pipe_kr_to_usb_error(0x0000_4051) {
        UsbError::Io(e) => assert_eq!(e.text, "IOReturn 0x00004051"),
        _ => panic!("an I/O error"),
    }
    assert_eq!(control_result(SUCCESS, 18).unwrap(), 18);
    assert!(matches!(control_result(PIPE_STALLED, 18), Err(UsbError::Stall)));
    assert_eq!(pipe_result(SUCCESS, 512).unwrap(), 512);
    assert!(matches!(pipe_result(NOT_OPEN, 512), Err(UsbError::InvalidHandle)));
}

#[test]
fn failures_to_obtain_services_are_named() {
    services_result(true, SUCCESS).unwrap();
    assert_eq!(other(services_result(false, SUCCESS)), "IOServiceMatching returned NULL");
    assert_eq!(other(services_result(true, 0xE00002C2)), "IOServiceGetMatchingServices err 0xe00002c2");
    device_plugin_result(SUCCESS, true).unwrap();
    assert_eq!(other(device_plugin_result(SUCCESS, false)), "IOCreatePlugInInterfaceForService failed: 0x0");
    device_query_result(SUCCESS, true).unwrap();
    assert_eq!(
        other(device_query_result(5, true)),
        "QueryInterface for IOUSBDeviceInterface failed: 0x5"
    );
    let e = || IoError { kind: IoErrorKind::Other, os_code: Some(-536870210), text: "t".to_string() };
    open_result(SUCCESS, e()).unwrap();
    open_result(EXCLUSIVE_ACCESS, e()).unwrap();
    assert!(matches!(open_result(NOT_OPEN, e()), Err(UsbError::Io(_))));
}

fn config() -> ConfigDescriptor {
    ConfigDescriptor::from_bytes(&[
        9, 2, 27, 0, 2, 1, 0, 0x80, 50, 9, 4, 0, 0, 0, 0xFF, 0, 0, 0, 9, 4, 2, 0, 0, 0xFF, 0, 0, 0,
    ])
    .unwrap()
}

#[test]
fn claims_are_checked_against_the_configuration() {
    let mut d = MacOsDevice::new();
    assert!(interface_exists(&config(), 2));
    assert!(!interface_exists(&config(), 1));
    assert_eq!(d.claim_interface(2), ClaimStep::ReadConfig);
    assert_eq!(other(MacOsDevice::check_claim(&config(), 1)), "interface 1 not found in configuration");
    assert_eq!(
        MacOsDevice::check_claim(&config(), 2).unwrap(),
        RawControl { request_type: 0x81, request: 0x0A, value: 0, index: 2, length: 1, timeout_ms: 1000 }
    );
    assert!(matches!(d.finish_claim(2, 0, [0]), Err(UsbError::InvalidDescriptor)));
    assert_eq!(d.claim_interface(2), ClaimStep::ReadConfig);
    d.finish_claim(2, 1, [0]).unwrap();
    assert_eq!(d.claim_interface(2), ClaimStep::Nothing);
    assert_eq!(d.release_interface(3), None);
    assert_eq!(
        d.release_interface(2).unwrap(),
        RawControl { request_type: 0x01, request: 0x0B, value: 0, index: 2, length: 0, timeout_ms: 1000 }
    );
    assert!(matches!(d.finish_release(2, Err(UsbError::Stall)), Err(UsbError::Stall)));
    assert_eq!(d.claim_interface(2), ClaimStep::Nothing);
    d.finish_release(2, Ok(0)).unwrap();
    assert_eq!(d.claim_interface(2), ClaimStep::ReadConfig);
}

#[test]
fn alternate_settings_are_requested() {
    assert_eq!(get_interface_alt_setting(4, 5000).timeout_ms, 5000);
    let r = set_interface_alt_setting(4, 7, 250);
    assert_eq!((r.value, r.index, r.timeout_ms), (7, 4, 250));
    assert_eq!(alt_setting_reply(1, [3]).unwrap(), 3);
    assert!(matches!(alt_setting_reply(0, [3]), Err(UsbError::InvalidDescriptor)));
}

#[test]
fn pipes_have_addresses() {
    assert_eq!(endpoint_address(1, 1), 0x81);
    assert_eq!(endpoint_address(0, 0x1F), 0x0F);
    assert_eq!(endpoint_address(3, 2), 0x82);
    let e = pipe_endpoint(1, 3, 2, 512, 4);
    assert_eq!((e.endpoint_address, e.attributes, e.max_packet_size, e.interval), (0x83, 2, 512, 4));
    assert_eq!(transfer_size(0).unwrap(), None);
    assert_eq!(transfer_size(5).unwrap(), Some(5));
    assert_eq!(other(transfer_size(0x1_0000_0000)), "buffer length exceeds macOS pipe size");
    let mut d = MacOsDevice::new();
    assert_eq!(other(d.pipe_of(0x81, " has no mapped pipe")), "endpoint 0x81 has no mapped pipe");
    d.learn_pipes(&[(0x81, 1), (0x02, 2), (0x81, 3)]);
    assert_eq!(d.pipe_of(0x81, "").unwrap(), 3);
    assert_eq!(d.pipe_of(0x02, "").unwrap(), 2);
    d.forget_pipes();
    assert!(d.pipe_of(0x02, "").is_err());
}

/// Interfaces with their numbers and the directions and numbers of their pipes.
fn run(target: Target, services: Vec<(u8, Vec<(u8, u8)>)>) -> (Vec<Step>, Result<(), UsbError>, Vec<(u8, u8)>) {
    let mut s = InterfaceSearch::begin(target, true);
    let mut next = 0;
    let mut done = Vec::new();
    while s.step() != Step::Finished {
        done.push(s.step());
        let reply = match s.step() {
            Step::CreateIterator => Reply::CreateIterator { kr: SUCCESS, present: true },
            Step::NextService => {
                next += 1;
                Reply::NextService(next <= services.len())
            }
            Step::CreatePlugin => Reply::CreatePlugin { kr: SUCCESS, present: true },
            Step::QueryInterface => Reply::QueryInterface { kr: SUCCESS, present: true },
            Step::OpenInterface => Reply::OpenInterface(SUCCESS),
            Step::CountEndpoints => {
                Reply::CountEndpoints { kr: SUCCESS, count: services[next - 1].1.len() as u8 }
            }
            Step::PipeProperties(p) => {
                let (direction, number) = services[next - 1].1[p as usize - 1];
                Reply::PipeProperties { kr: SUCCESS, direction, number }
            }
            Step::InterfaceNumber => {
                Reply::InterfaceNumber { kr: SUCCESS, number: services[next - 1].0 }
            }
            Step::CloseInterface => Reply::CloseInterface,
            Step::ReleaseIterator => Reply::ReleaseIterator,
            Step::Finished => unreachable!(),
        };
        s = s.reply(reply);
    }
    let held = s.interface;
    let (result, learned) = s.into_result();
    let result = result.unwrap();
    assert_eq!(held, result.is_ok());
    (done, result, learned)
}

#[test]
fn search_finds_the_interface_of_an_endpoint() {
    let services = || vec![(0, vec![]), (1, vec![(1, 1), (0, 2)]), (2, vec![(1, 3)])];
    let (done, r, learned) = run(Target::Endpoint(0x83), services());
    r.unwrap();
    assert_eq!(learned, vec![(0x81, 1), (0x02, 2), (0x83, 1)]);
    assert_eq!(done.iter().filter(|s| **s == Step::CloseInterface).count(), 2);
    assert_eq!(done.last(), Some(&Step::ReleaseIterator));
    let (_, r, learned) = run(Target::Endpoint(0x02), services());
    r.unwrap();
    assert_eq!(learned.len(), 2);
    let (_, r, learned) = run(Target::Endpoint(0x07), services());
    assert_eq!(other(r), "endpoint 0x07 not found on any interface");
    assert_eq!(learned.len(), 3);
}

#[test]
fn search_finds_the_interface_of_a_number() {
    let services = || vec![(0, vec![]), (5, vec![(1, 1)])];
    let (done, r, learned) = run(Target::Number(5), services());
    r.unwrap();
    assert!(learned.is_empty());
    assert!(!done.contains(&Step::CountEndpoints));
    assert_eq!(other(run(Target::Number(6), services()).1), "interface 6 not found");
}

fn fails_with(target: Target, replies: &[Reply]) -> (Vec<Step>, UsbError) {
    let mut s = InterfaceSearch::begin(target, true);
    for r in replies {
        s = s.reply(*r);
    }
    let mut rest = Vec::new();
    while s.step() != Step::Finished {
        rest.push(s.step());
        s = match s.step() {
            Step::CloseInterface => s.reply(Reply::CloseInterface),
            Step::ReleaseIterator => s.reply(Reply::ReleaseIterator),
            _ => panic!("the search has failed"),
        };
    }
    (rest, s.into_result().0.unwrap().unwrap_err())
}

#[test]
fn failed_search_gives_everything_back() {
    let iterator = Reply::CreateIterator { kr: SUCCESS, present: true };
    let next = Reply::NextService(true);
    let plugin = Reply::CreatePlugin { kr: SUCCESS, present: true };
    let query = Reply::QueryInterface { kr: SUCCESS, present: true };
    let open = Reply::OpenInterface(SUCCESS);
    let endpoint = Target::Endpoint(1);
    let number = Target::Number(1);
    let (rest, e) = fails_with(endpoint, &[Reply::CreateIterator { kr: UNSUPPORTED, present: false }]);
    assert!(rest.is_empty() && matches!(e, UsbError::Unsupported));
    let (rest, e) = fails_with(endpoint, &[Reply::CreateIterator { kr: SUCCESS, present: false }]);
    assert!(rest.is_empty() && matches!(e, UsbError::InvalidHandle));
    let none = Reply::CreatePlugin { kr: SUCCESS, present: false };
    let (rest, e) = fails_with(endpoint, &[iterator, next, none]);
    assert_eq!(rest, vec![Step::ReleaseIterator]);
    assert!(matches!(e, UsbError::InvalidHandle));
    let (_, e) = fails_with(number, &[iterator, next, none]);
    assert_eq!(other::<()>(Err(e)), "unexpected success code in error mapper");
    let (_, e) = fails_with(endpoint, &[iterator, next, Reply::CreatePlugin { kr: NOT_OPEN, present: true }]);
    assert!(matches!(e, UsbError::InvalidHandle));
    let (rest, e) =
        fails_with(endpoint, &[iterator, next, plugin, Reply::QueryInterface { kr: 0xE00002C5, present: true }]);
    assert_eq!(rest, vec![Step::ReleaseIterator]);
    assert_eq!(
        other::<()>(Err(e)),
        "QueryInterface for IOUSBInterfaceInterface failed: 0xe00002c5"
    );
    let (rest, e) = fails_with(number, &[iterator, next, plugin, query, Reply::OpenInterface(NO_DEVICE)]);
    assert_eq!(rest, vec![Step::CloseInterface, Step::ReleaseIterator]);
    assert!(matches!(e, UsbError::InvalidHandle));
    let (rest, e) = fails_with(
        endpoint,
        &[
            iterator,
            next,
            plugin,
            query,
            open,
            Reply::CountEndpoints { kr: SUCCESS, count: 2 },
            Reply::PipeProperties { kr: SUCCESS, direction: 0, number: 1 },
            Reply::PipeProperties { kr: 1, direction: 0, number: 1 },
        ],
    );
    assert_eq!(rest, vec![Step::CloseInterface, Step::ReleaseIterator]);
    assert!(matches!(e, UsbError::Io(_)));
    let (rest, _) = fails_with(
        number,
        &[iterator, next, plugin, query, open, Reply::InterfaceNumber { kr: UNSUPPORTED, number: 0 }],
    );
    assert_eq!(rest, vec![Step::CloseInterface, Step::ReleaseIterator]);
    let closed = InterfaceSearch::begin(endpoint, false);
    assert_eq!(closed.step(), Step::Finished);
    assert!(matches!(closed.into_result().0, Some(Err(UsbError::InvalidHandle))));
}
