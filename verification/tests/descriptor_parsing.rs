use rust_usb::{
    BosDescriptor, ConfigDescriptor, DeviceDescriptor, EndpointInfo, HubDescriptor, UsbError,
};

#[test]
fn test_parse_valid_device_descriptor() {
    let buf = vec![
        18,   // bLength
        0x01, // bDescriptorType (Device)
        0x00, 0x02, // bcdUSB (2.00)
        0xFF, // bDeviceClass (Vendor)
        0x00, // bDeviceSubClass
        0x00, // bDeviceProtocol
        64,   // bMaxPacketSize0
        0x34, 0x12, // idVendor (0x1234)
        0x78, 0x56, // idProduct (0x5678)
        0x00, 0x01, // bcdDevice (1.00)
        1,    // iManufacturer
        2,    // iProduct
        3,    // iSerialNumber
        1,    // bNumConfigurations
    ];

    let desc = DeviceDescriptor::from_bytes(&buf).expect("Should parse");
    assert_eq!(desc.vendor_id, 0x1234);
    assert_eq!(desc.product_id, 0x5678);
    assert_eq!(desc.device_class, 0xFF);
}

#[test]
fn test_parse_config_descriptor_too_short() {
    let buf = vec![9, 0x02, 0x09, 0x00, 1, 1, 0, 0x80]; // Missing 9th byte (max power)
    let result = ConfigDescriptor::from_bytes(&buf);
    assert!(matches!(result, Err(UsbError::InvalidDescriptor)));
}

#[test]
fn test_parse_config_with_interface_and_endpoint() {
    let buf = vec![
        // Configuration Header (9 bytes)
        9,    // bLength
        0x02, // bDescriptorType (Config)
        25, 0x00, // wTotalLength (9 + 9 + 7 = 25)
        1,    // bNumInterfaces
        1,    // bConfigurationValue
        0,    // iConfiguration
        0x80, // bmAttributes
        50,   // bMaxPower (100mA)

        // Interface Descriptor (9 bytes)
        9,    // bLength
        0x04, // bDescriptorType (Interface)
        0,    // bInterfaceNumber
        0,    // bAlternateSetting
        1,    // bNumEndpoints
        0xFF, // bInterfaceClass
        0x00, // bInterfaceSubClass
        0x00, // bInterfaceProtocol
        0,    // iInterface

        // Endpoint Descriptor (7 bytes)
        7,    // bLength
        0x05, // bDescriptorType (Endpoint)
        0x81, // bEndpointAddress (EP1 IN)
        0x02, // bmAttributes (Bulk)
        64, 0x00, // wMaxPacketSize (64)
        0,    // bInterval
    ];

    let desc = ConfigDescriptor::from_bytes(&buf).expect("Should parse");
    assert_eq!(desc.num_interfaces, 1);
    assert_eq!(desc.interfaces.len(), 1);
    
    let iface = &desc.interfaces[0];
    assert_eq!(iface.interface_number, 0);
    assert_eq!(iface.endpoints.len(), 1);
    
    let ep = &iface.endpoints[0];
    assert_eq!(ep.endpoint_address, 0x81);
    assert_eq!(ep.max_packet_size, 64);
}

#[test]
fn device_descriptor_needs_its_length_and_type() {
    let bytes = [
        18, 1, 0x10, 0x03, 9, 2, 3, 64, 0x6B, 0x1D, 0x02, 0x00, 0x15, 0x05, 3, 2, 1, 1, 0xAA,
    ];
    let d = DeviceDescriptor::from_bytes(&bytes).unwrap();
    assert_eq!(d.bcd_usb, 0x0310);
    assert_eq!(d.device_sub_class, 2);
    assert_eq!(d.device_protocol, 3);
    assert_eq!(d.max_packet_size0, 64);
    assert_eq!(d.bcd_device, 0x0515);
    assert_eq!((d.manufacturer_index, d.product_index, d.serial_number_index), (3, 2, 1));
    assert_eq!(d.num_configurations, 1);
    assert!(matches!(DeviceDescriptor::from_bytes(&bytes[..17]), Err(UsbError::InvalidDescriptor)));
    let mut other = bytes;
    other[1] = 2;
    assert!(matches!(DeviceDescriptor::from_bytes(&other), Err(UsbError::InvalidDescriptor)));
}

#[test]
fn endpoints_belong_to_the_interface_in_front() {
    let buf = vec![
        9, 2, 50, 0, 2, 1, 4, 0xC0, 250, // configuration
        7, 5, 0x8F, 3, 8, 0, 1, // an endpoint without an interface
        9, 4, 0, 0, 2, 3, 1, 2, 5, // first interface
        3, 0x21, 0xEE, // a class descriptor
        7, 5, 0x81, 3, 0x00, 0x04, 10, // its endpoints
        7, 5, 0x02, 2, 64, 0, 0,
        9, 4, 1, 1, 0, 0xFF, 0, 0, 0, // second interface
        0, 5, 1, // no record
    ];
    let c = ConfigDescriptor::from_bytes(&buf).unwrap();
    assert_eq!(c.total_length, 50);
    assert_eq!(c.configuration_value, 1);
    assert_eq!(c.configuration_index, 4);
    assert_eq!(c.attributes, 0xC0);
    assert_eq!(c.max_power, 250);
    assert_eq!(c.interfaces.len(), 2);
    assert_eq!(c.interfaces[0].endpoints.len(), 2);
    assert_eq!(c.interfaces[0].endpoints[0], EndpointInfo::new(0x81, 3, 1024, 10));
    assert_eq!(c.interfaces[0].endpoints[1], EndpointInfo::new(0x02, 2, 64, 0));
    assert_eq!(c.interfaces[0].interface_class, 3);
    assert_eq!(c.interfaces[0].interface_index, 5);
    assert_eq!(c.interfaces[1].interface_number, 1);
    assert_eq!(c.interfaces[1].alternate_setting, 1);
    assert_eq!(c.interfaces[1].endpoints.len(), 0);
}

#[test]
fn configuration_needs_its_type() {
    let buf = vec![9, 4, 9, 0, 0, 1, 0, 0x80, 50];
    assert!(matches!(ConfigDescriptor::from_bytes(&buf), Err(UsbError::InvalidDescriptor)));
}

#[test]
fn clone_of_a_configuration_is_equal() {
    let buf = vec![
        9, 2, 25, 0, 1, 1, 0, 0x80, 50, 9, 4, 0, 0, 1, 0xFF, 0, 0, 0, 7, 5, 0x81, 2, 64, 0, 0,
    ];
    let c = ConfigDescriptor::from_bytes(&buf).unwrap();
    assert_eq!(format!("{:?}", c.clone()), format!("{:?}", c));
}

#[test]
fn binary_object_store_has_its_capabilities() {
    let buf = vec![
        5, 0x0F, 22, 0, 2, // header
        7, 0x10, 0x02, 0x06, 0, 0, 0, // USB 2.0 extension
        2, 0x30, // another record
        4, 0x10, 0x04, 0x99, // container
        9, 0x10, 1, // does not fit
    ];
    let b = BosDescriptor::from_bytes(&buf).unwrap();
    assert_eq!(b.total_length, 22);
    assert_eq!(b.num_capabilities, 2);
    assert_eq!(b.capabilities.len(), 2);
    assert_eq!(b.capabilities[0].capability_type, 2);
    assert_eq!(b.capabilities[0].data, vec![6, 0, 0, 0]);
    assert_eq!(b.capabilities[1].data, vec![0x99]);
    assert!(matches!(BosDescriptor::from_bytes(&buf[..4]), Err(UsbError::InvalidDescriptor)));
    assert!(matches!(BosDescriptor::from_bytes(&[5, 1, 5, 0, 0]), Err(UsbError::InvalidDescriptor)));
}

#[test]
fn hub_descriptor_has_its_masks() {
    let buf = [9, 0x29, 4, 0xE0, 0x01, 50, 100, 0x00, 0xFF, 0x77];
    let h = HubDescriptor::from_bytes(&buf).unwrap();
    assert_eq!(h.num_ports, 4);
    assert_eq!(h.characteristics, 0x01E0);
    assert_eq!(h.power_on_delay, 50);
    assert_eq!(h.controller_current, 100);
    assert_eq!(h.port_masks, vec![0x00, 0xFF]);
    assert!(matches!(HubDescriptor::from_bytes(&buf[..8]), Err(UsbError::InvalidDescriptor)));
    assert!(matches!(HubDescriptor::from_bytes(&[7, 1, 0, 0, 0, 0, 0]), Err(UsbError::InvalidDescriptor)));
}
