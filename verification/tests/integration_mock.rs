use std::time::Duration;
use rust_usb::backend::mock::{MockBackend, StringTable};
use rust_usb::backend::{UsbBackend, UsbDevice};
use rust_usb::{
    ConfigDescriptor, ControlSetup, DeviceDescriptor, DeviceInfo, UsbContext, UsbError,
};

fn create_mock_device(path: &str) -> (DeviceInfo, DeviceDescriptor, Vec<ConfigDescriptor>, StringTable) {
    let info = DeviceInfo {
        bus_number: 1,
        device_address: 2,
        vendor_id: 0x1234,
        product_id: 0x5678,
        path: path.to_string(),
        manufacturer: Some("Mock Corp".into()),
        product: Some("Mock Device".into()),
        serial_number: Some("ABC-123".into()),
    };

    let descriptor = DeviceDescriptor {
        bcd_usb: 0x0200,
        device_class: 0xFF,
        device_sub_class: 0x00,
        device_protocol: 0x00,
        max_packet_size0: 64,
        vendor_id: 0x1234,
        product_id: 0x5678,
        bcd_device: 0x0100,
        manufacturer_index: 1,
        product_index: 2,
        serial_number_index: 3,
        num_configurations: 1,
    };

    let config = ConfigDescriptor {
        total_length: 9,
        num_interfaces: 0,
        configuration_value: 1,
        configuration_index: 0,
        attributes: 0x80,
        max_power: 50,
        interfaces: Vec::new(),
    };

    (info, descriptor, vec![config], StringTable::new())
}

#[test]
fn test_mock_enumeration() {
    let mut backend = MockBackend::new();
    let (info, desc, configs, strings) = create_mock_device("mock/path/1");
    backend.add_device(info.clone(), desc, configs, strings);

    let devices = backend.enumerate().expect("Should enumerate");
    assert_eq!(devices.len(), 1);
    assert_eq!(devices[0].path, "mock/path/1");
    assert_eq!(devices[0].vendor_id, 0x1234);
}

#[test]
fn test_mock_open() {
    let mut backend = MockBackend::new();
    let (info, desc, configs, strings) = create_mock_device("mock/path/1");
    backend.add_device(info, desc, configs, strings);

    // Open valid path
    let handle = backend.open("mock/path/1");
    assert!(handle.is_ok());

    // Open unknown path
    let handle_err = backend.open("mock/path/unknown");
    assert!(matches!(handle_err, Err(UsbError::DeviceNotFound)));
}

#[test]
fn test_mock_device_operations() {
    let mut backend = MockBackend::new();
    let (info, desc, configs, strings) = create_mock_device("mock/path/1");
    backend.add_device(info, desc, configs, strings);

    let mut device = backend.open("mock/path/1").expect("Should open");

    // Read descriptor
    let d = device.read_device_descriptor().expect("Should read desc");
    assert_eq!(d.vendor_id, 0x1234);

    // Claim/Release interface
    device.claim_interface(0).expect("Should claim");
    device.claim_interface(0).expect("Should claim silently if already claimed");
    device.release_interface(0).expect("Should release");
    
    let release_err = device.release_interface(0);
    assert!(release_err.is_err(), "Should err on releasing unclaimed interface");

    // Bulk write
    let data = [1, 2, 3, 4];
    let n = device.bulk_write(0x01, &data, Duration::from_secs(1)).expect("Should write");
    assert_eq!(n, 4);

    // Pipe policy (unsupported on mock)
    let policy_err = device.get_pipe_policy(0x01, rust_usb::PipePolicyKind::TransferTimeout);
    assert!(matches!(policy_err, Err(UsbError::Unsupported)));

    let set_policy_err = device.set_pipe_policy(0x01, rust_usb::PipePolicy::TransferTimeout(1000));
    assert!(matches!(set_policy_err, Err(UsbError::Unsupported)));
}

#[test]
fn default_backend_has_no_devices() {
    let backend = MockBackend::default();
    assert_eq!(backend.enumerate().unwrap().len(), 0);
    assert!(matches!(backend.open("x"), Err(UsbError::DeviceNotFound)));
}

#[test]
fn same_path_takes_the_place_of_a_device() {
    let mut backend = MockBackend::new();
    let (info, desc, configs, strings) = create_mock_device("a");
    backend.add_device(info, desc, configs, strings);
    let (info, desc, configs, strings) = create_mock_device("b");
    backend.add_device(info, desc, configs, strings);
    let (mut info, desc, configs, strings) = create_mock_device("a");
    info.vendor_id = 0x9999;
    backend.add_device(info, desc, Vec::new(), strings);
    assert_eq!(configs.len(), 1);
    let mut devices = backend.enumerate().unwrap();
    devices.sort_by(|x, y| x.path.cmp(&y.path));
    assert_eq!(devices.len(), 2);
    assert_eq!(devices[0].path, "a");
    assert_eq!(devices[0].vendor_id, 0x9999);
    assert_eq!(devices[1].path, "b");
    assert_eq!(devices[1].vendor_id, 0x1234);
    assert_eq!(devices[1].serial_number, Some("ABC-123".to_string()));
    let device = backend.open("a").unwrap();
    assert!(matches!(device.read_config_descriptor(0), Err(UsbError::InvalidDescriptor)));
}

#[test]
fn mock_device_reads_what_it_was_given() {
    let mut backend = MockBackend::new();
    let (info, desc, configs, mut strings) = create_mock_device("a");
    strings.insert(1, 0x0409, "first".to_string());
    strings.insert(1, 0x0407, "erster".to_string());
    strings.insert(1, 0x0409, "second".to_string());
    assert_eq!(strings.get(1, 0x0409), Some(&"second".to_string()));
    assert_eq!(strings.get(2, 0x0409), None);
    backend.add_device(info, desc, configs, strings);
    let device = backend.open("a").unwrap();
    assert_eq!(device.read_string_descriptor(1, 0x0409).unwrap(), "second");
    assert_eq!(device.read_string_descriptor(1, 0x0407).unwrap(), "erster");
    assert!(matches!(device.read_string_descriptor(9, 0x0409), Err(UsbError::InvalidDescriptor)));
    assert_eq!(device.read_config_descriptor(0).unwrap().max_power, 50);
    assert!(matches!(device.read_config_descriptor(1), Err(UsbError::InvalidDescriptor)));
    let mut buf = [7u8; 3];
    let second = Duration::from_secs(1);
    let setup = ControlSetup::get_descriptor(1, 0, 0, 3);
    assert_eq!(device.control_transfer(setup, Some(&mut buf), second).unwrap(), 0);
    assert_eq!(device.bulk_read(0x81, &mut buf, second).unwrap(), 0);
    assert_eq!(device.interrupt_read(0x82, &mut buf, second).unwrap(), 0);
    assert_eq!(device.interrupt_write(0x02, &buf, second).unwrap(), 3);
    assert_eq!(buf, [7, 7, 7]);
}

#[test]
fn release_names_what_is_missing() {
    let mut backend = MockBackend::new();
    let (info, desc, configs, strings) = create_mock_device("a");
    backend.add_device(info, desc, configs, strings);
    let mut device = backend.open("a").unwrap();
    device.claim_interface(1).unwrap();
    match device.release_interface(2) {
        Err(UsbError::Other(text)) => assert_eq!(text, "Interface not claimed"),
        _ => panic!("interface 2 was never claimed"),
    }
    device.release_interface(1).unwrap();
}

#[test]
fn mock_device_refuses_optional_operations() {
    let mut backend = MockBackend::new();
    let (info, desc, configs, strings) = create_mock_device("a");
    backend.add_device(info, desc, configs, strings);
    let mut device = backend.open("a").unwrap();
    let mut buf = [1u8; 2];
    let t = Duration::from_millis(1);
    assert!(matches!(device.reset_pipe(1), Err(UsbError::Unsupported)));
    assert!(matches!(device.abort_pipe(1), Err(UsbError::Unsupported)));
    assert!(matches!(device.reset_device(), Err(UsbError::Unsupported)));
    assert!(matches!(device.get_alternate_setting(0), Err(UsbError::Unsupported)));
    assert!(matches!(device.set_alternate_setting(0, 1), Err(UsbError::Unsupported)));
    assert!(matches!(device.get_pipe_info(1), Err(UsbError::Unsupported)));
    assert!(matches!(device.read_bos_descriptor(), Err(UsbError::Unsupported)));
    assert!(matches!(device.read_hub_descriptor(), Err(UsbError::Unsupported)));
    assert!(matches!(device.async_bulk_read(1, &mut buf, t), Err(UsbError::Unsupported)));
    assert!(matches!(device.async_bulk_write(1, &buf, t), Err(UsbError::Unsupported)));
    assert!(matches!(device.async_interrupt_read(1, &mut buf, t), Err(UsbError::Unsupported)));
    assert!(matches!(device.async_interrupt_write(1, &buf, t), Err(UsbError::Unsupported)));
    assert!(matches!(device.isoch_read(1, &mut buf), Err(UsbError::Unsupported)));
    assert!(matches!(device.isoch_write(1, &buf), Err(UsbError::Unsupported)));
    assert_eq!(buf, [1, 1]);
}

#[test]
fn context_lists_and_opens() {
    let mut backend = MockBackend::new();
    let (info, desc, configs, strings) = create_mock_device("a");
    backend.add_device(info, desc, configs, strings);
    let context = UsbContext::with_backend(backend);
    assert_eq!(context.devices().unwrap()[0].path, "a");
    assert!(matches!(context.open("b"), Err(UsbError::DeviceNotFound)));
    let mut handle = context.open("a").unwrap();
    handle.claim_interface(0).unwrap();
    let t = Duration::from_millis(1);
    assert_eq!(handle.bulk_write(1, &[1, 2, 3], t).unwrap(), 3);
    let mut buf = [5u8; 4];
    assert_eq!(handle.bulk_read(0x81, &mut buf, t).unwrap(), 0);
    assert_eq!(handle.read_device_descriptor().unwrap().product_id, 0x5678);
    assert_eq!(handle.read_config_descriptor(0).unwrap().total_length, 9);
    assert!(matches!(handle.read_string_descriptor(1, 0x0409), Err(UsbError::InvalidDescriptor)));
    let setup = ControlSetup::get_descriptor(1, 0, 0, 18);
    assert_eq!(handle.control_transfer(setup, None, t).unwrap(), 0);
    assert_eq!(handle.interrupt_read(0x81, &mut buf, t).unwrap(), 0);
    assert_eq!(buf, [5, 5, 5, 5]);
    assert_eq!(handle.interrupt_write(1, &[1, 2], t).unwrap(), 2);
    assert!(matches!(handle.async_interrupt_read(1, &mut buf, t), Err(UsbError::Unsupported)));
    assert!(matches!(handle.set_alternate_setting(0, 1), Err(UsbError::Unsupported)));
    assert!(matches!(handle.isoch_write(1, &buf), Err(UsbError::Unsupported)));
    handle.release_interface(0).unwrap();
    assert!(handle.release_interface(0).is_err());
}
