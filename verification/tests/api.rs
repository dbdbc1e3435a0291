use rust_usb::api::async_transfers::{
    finish_read, finish_write, read_task, take_buffer, write_task, TransferKind,
};
use rust_usb::backend::UsbDevice;
use rust_usb::hotplug::{cm_event, Registration};
use rust_usb::protocol::ControlSetup;
use rust_usb::{
    ConfigDescriptor, DeviceDescriptor, DeviceHandle, HotplugEvent, HotplugHandle, UsbError,
};
use std::time::Duration;

/// A device that reads its endpoint, its operation and its timeout.
struct Echo;

impl UsbDevice for Echo {
    fn read_device_descriptor(&self) -> Result<DeviceDescriptor, UsbError> {
        Err(UsbError::Stall)
    }

    fn read_config_descriptor(&self, _index: u8) -> Result<ConfigDescriptor, UsbError> {
        Err(UsbError::Timeout)
    }

    fn read_string_descriptor(&self, index: u8, lang: u16) -> Result<String, UsbError> {
        Ok(format!("{index} {lang}"))
    }

    fn claim_interface(&mut self, _interface: u8) -> Result<(), UsbError> {
        Ok(())
    }

    fn release_interface(&mut self, _interface: u8) -> Result<(), UsbError> {
        Err(UsbError::InvalidHandle)
    }

    fn control_transfer(
        &self,
        setup: ControlSetup,
        data: Option<&mut [u8]>,
        _timeout: Duration,
    ) -> Result<usize, UsbError> {
        if let Some(b) = data {
            b[0] = setup.request;
        }
        Ok(1)
    }

    fn async_bulk_read(&self, endpoint: u8, buf: &mut [u8], timeout: Duration) -> Result<usize, UsbError> {
        buf[0] = endpoint;
        buf[1] = timeout.as_millis() as u8;
        Ok(2)
    }

    fn async_interrupt_read(&self, endpoint: u8, buf: &mut [u8], _timeout: Duration) -> Result<usize, UsbError> {
        buf[0] = endpoint + 1;
        Err(UsbError::Timeout)
    }

    fn async_bulk_write(&self, _endpoint: u8, buf: &[u8], _timeout: Duration) -> Result<usize, UsbError> {
        Ok(buf.len())
    }
}

#[test]
fn handle_does_what_its_device_does() {
    let mut h = DeviceHandle::new(Echo);
    assert!(matches!(h.read_device_descriptor(), Err(UsbError::Stall)));
    assert!(matches!(h.read_config_descriptor(0), Err(UsbError::Timeout)));
    assert_eq!(h.read_string_descriptor(4, 9).unwrap(), "4 9");
    h.claim_interface(0).unwrap();
    assert!(matches!(h.release_interface(0), Err(UsbError::InvalidHandle)));
    let mut b = [0u8; 1];
    let setup = ControlSetup::get_descriptor(1, 0, 0, 1);
    assert_eq!(h.control_transfer(setup, Some(&mut b), Duration::ZERO).unwrap(), 1);
    assert_eq!(b, [6]);
    assert!(matches!(h.bulk_read(1, &mut b, Duration::ZERO), Err(UsbError::Unsupported)));
}

#[test]
fn read_task_gives_the_buffer_back() {
    let h = DeviceHandle::new(Echo);
    let mut buf = vec![7, 8, 9];
    let mut taken = take_buffer(&mut buf);
    assert_eq!(taken, vec![7, 8, 9]);
    assert!(buf.is_empty());
    let r = read_task(&h, TransferKind::Bulk, 0x81, &mut taken, Duration::from_millis(5));
    assert_eq!(finish_read(&mut buf, Ok((taken, r))).unwrap(), 2);
    assert_eq!(buf, vec![0x81, 5, 9]);
    let mut taken = take_buffer(&mut buf);
    let r = read_task(&h, TransferKind::Interrupt, 0x81, &mut taken, Duration::ZERO);
    assert!(matches!(finish_read(&mut buf, Ok((taken, r))), Err(UsbError::Timeout)));
    assert_eq!(buf, vec![0x82, 5, 9]);
}

#[test]
fn lost_task_loses_the_buffer() {
    let mut buf = vec![1, 2];
    take_buffer(&mut buf);
    match finish_read(&mut buf, Err("task 1 panicked".to_string())) {
        Err(UsbError::Other(t)) => assert_eq!(t, "spawn_blocking failed: task 1 panicked"),
        _ => panic!("the task was lost"),
    }
    assert!(buf.is_empty());
    match finish_write(Err("cancelled".to_string())) {
        Err(UsbError::Other(t)) => assert_eq!(t, "spawn_blocking failed: cancelled"),
        _ => panic!("the task was lost"),
    }
}

#[test]
fn write_task_writes() {
    let h = DeviceHandle::new(Echo);
    let r = write_task(&h, TransferKind::Bulk, 1, &[1, 2, 3], Duration::ZERO);
    assert_eq!(finish_write(Ok(r)).unwrap(), 3);
    let r = write_task(&h, TransferKind::Interrupt, 1, &[1, 2, 3], Duration::ZERO);
    assert!(matches!(finish_write(Ok(r)), Err(UsbError::Unsupported)));
}

#[test]
fn notifications_become_events() {
    let mut link: Vec<u16> = "\\\\?\\USB#x".encode_utf16().collect();
    link.extend([0, 65]);
    match cm_event(0, &link) {
        Some(HotplugEvent::DeviceArrived { path }) => assert_eq!(path, "\\\\?\\USB#x"),
        _ => panic!("an arrival"),
    }
    match cm_event(1, &link).map(|e| e.clone()) {
        Some(HotplugEvent::DeviceLeft { path }) => assert_eq!(path, "\\\\?\\USB#x"),
        _ => panic!("a removal"),
    }
    assert!(cm_event(2, &link).is_none());
    assert!(cm_event(-1, &[]).is_none());
}

#[test]
fn subscriptions_end_with_their_token() {
    let ok = HotplugHandle::register(Registration::Answered { configret: 0, token: 42 });
    assert_eq!(ok.ok().unwrap().unregister(), 42);
    assert!(matches!(HotplugHandle::register(Registration::Unsupported), Err(UsbError::Unsupported)));
    match HotplugHandle::register(Registration::Answered { configret: 0x1F, token: 0 }) {
        Err(UsbError::Other(t)) => {
            assert_eq!(t, "CM_Register_Notification failed with CONFIGRET 0x0000001f")
        }
        _ => panic!("no subscription"),
    }
}
