//! Descriptors and how they are read from the bytes that a device sends.
//!
//! A descriptor that is too short for its fixed fields, or that carries the type number of
//! another descriptor, is invalid.

use vstd::prelude::*;

use crate::error::{outcome, outcome_view, ErrorView, UsbError};
use crate::utf16::{le16, read_le16};

verus! {

pub const DEVICE_TYPE: u8 = 0x01;

pub const CONFIG_TYPE: u8 = 0x02;

pub const STRING_TYPE: u8 = 0x03;

pub const INTERFACE_TYPE: u8 = 0x04;

pub const ENDPOINT_TYPE: u8 = 0x05;

pub const BOS_TYPE: u8 = 0x0F;

pub const CAPABILITY_TYPE: u8 = 0x10;

pub const HUB_TYPE: u8 = 0x29;

// ---------------------------------------------------------------------------
// Device descriptor
// ---------------------------------------------------------------------------

/// The descriptor of a whole device.
#[derive(Debug, Clone, Copy, PartialEq, Eq, Structural)]
pub struct DeviceDescriptor {
    pub bcd_usb: u16,
    pub device_class: u8,
    pub device_sub_class: u8,
    pub device_protocol: u8,
    pub max_packet_size0: u8,
    pub vendor_id: u16,
    pub product_id: u16,
    pub bcd_device: u16,
    pub manufacturer_index: u8,
    pub product_index: u8,
    pub serial_number_index: u8,
    pub num_configurations: u8,
}

/// The device descriptor in the first 18 bytes.
pub open spec fn device_descriptor_of(b: Seq<u8>) -> Result<DeviceDescriptor, ErrorView> {
    if b.len() >= 18 && b[1] == DEVICE_TYPE {
        Ok(
            DeviceDescriptor {
                bcd_usb: le16(b[2], b[3]),
                device_class: b[4],
                device_sub_class: b[5],
                device_protocol: b[6],
                max_packet_size0: b[7],
                vendor_id: le16(b[8], b[9]),
                product_id: le16(b[10], b[11]),
                bcd_device: le16(b[12], b[13]),
                manufacturer_index: b[14],
                product_index: b[15],
                serial_number_index: b[16],
                num_configurations: b[17],
            },
        )
    } else {
        Err(ErrorView::InvalidDescriptor)
    }
}

impl DeviceDescriptor {
    /// Reads a device descriptor.
    pub fn from_bytes(buf: &[u8]) -> (r: Result<DeviceDescriptor, UsbError>)
        ensures
            outcome(r) == device_descriptor_of(buf@),
    {
        if buf.len() < 18 || buf[1] != DEVICE_TYPE {
            return Err(UsbError::InvalidDescriptor);
        }
        Ok(
            DeviceDescriptor {
                bcd_usb: read_le16(buf[2], buf[3]),
                device_class: buf[4],
                device_sub_class: buf[5],
                device_protocol: buf[6],
                max_packet_size0: buf[7],
                vendor_id: read_le16(buf[8], buf[9]),
                product_id: read_le16(buf[10], buf[11]),
                bcd_device: read_le16(buf[12], buf[13]),
                manufacturer_index: buf[14],
                product_index: buf[15],
                serial_number_index: buf[16],
                num_configurations: buf[17],
            },
        )
    }
}

/// A device descriptor in bytes.
pub open spec fn device_bytes(d: DeviceDescriptor) -> Seq<u8> {
    seq![
        18u8,
        DEVICE_TYPE,
        (d.bcd_usb % 256) as u8,
        (d.bcd_usb / 256) as u8,
        d.device_class,
        d.device_sub_class,
        d.device_protocol,
        d.max_packet_size0,
        (d.vendor_id % 256) as u8,
        (d.vendor_id / 256) as u8,
        (d.product_id % 256) as u8,
        (d.product_id / 256) as u8,
        (d.bcd_device % 256) as u8,
        (d.bcd_device / 256) as u8,
        d.manufacturer_index,
        d.product_index,
        d.serial_number_index,
        d.num_configurations,
    ]
}

/// A device descriptor is read back from its bytes, whatever stands behind them.
pub proof fn law_device_descriptor_reads_back(d: DeviceDescriptor, tail: Seq<u8>)
    ensures
        device_descriptor_of(device_bytes(d) + tail) == Ok::<DeviceDescriptor, ErrorView>(d),
{
}

// ---------------------------------------------------------------------------
// Chains of records
// ---------------------------------------------------------------------------

/// The records of a chain. Each starts with its length, which counts the length itself and the
/// type behind it. The chain ends where no such record fits.
pub open spec fn records(bytes: Seq<u8>) -> Seq<Seq<u8>>
    decreases bytes.len(),
{
    if bytes.len() >= 2 && 2 <= bytes[0] <= bytes.len() {
        seq![bytes.take(bytes[0] as int)] + records(bytes.skip(bytes[0] as int))
    } else {
        Seq::empty()
    }
}

/// Whether a record carries its own length.
pub open spec fn is_record(r: Seq<u8>) -> bool {
    r.len() >= 2 && r[0] == r.len()
}

/// Records laid end to end.
pub open spec fn chain(rs: Seq<Seq<u8>>) -> Seq<u8>
    decreases rs.len(),
{
    if rs.len() == 0 {
        Seq::empty()
    } else {
        rs[0] + chain(rs.skip(1))
    }
}

/// A chain is read back as the records that it was laid of.
pub proof fn law_records_of_chain(rs: Seq<Seq<u8>>)
    requires
        forall|i: int| 0 <= i < rs.len() ==> is_record(#[trigger] rs[i]),
    ensures
        records(chain(rs)) == rs,
    decreases rs.len(),
{
    if rs.len() > 0 {
        let rest = rs.skip(1);
        assert forall|i: int| 0 <= i < rest.len() implies is_record(#[trigger] rest[i]) by {
            assert(rest[i] == rs[i + 1]);
        }
        law_records_of_chain(rest);
        let b = chain(rs);
        assert(is_record(rs[0]));
        assert(b[0] == rs[0][0]);
        assert(b.take(rs[0].len() as int) =~= rs[0]);
        assert(b.skip(rs[0].len() as int) =~= chain(rest));
        assert(seq![rs[0]] + rest =~= rs);
    } else {
        assert(rs =~= Seq::empty());
    }
}

/// The length of the record at `pos`, if one fits there.
fn record_at(buf: &[u8], pos: usize) -> (r: Option<usize>)
    requires
        pos <= buf@.len(),
    ensures
        match r {
            Some(n) => 2 <= n && pos + n <= buf.len() && records(buf@.skip(pos as int)) == seq![
                buf@.subrange(pos as int, pos + n),
            ] + records(buf@.skip(pos + n)),
            None => records(buf@.skip(pos as int)) == Seq::<Seq<u8>>::empty(),
        },
{
    let ghost rest = buf@.skip(pos as int);
    if buf.len() - pos < 2 {
        return None;
    }
    let n: usize = buf[pos] as usize;
    if n < 2 || n > buf.len() - pos {
        return None;
    }
    assert(rest.take(n as int) =~= buf@.subrange(pos as int, pos + n));
    assert(rest.skip(n as int) =~= buf@.skip(pos + n));
    Some(n)
}

// ---------------------------------------------------------------------------
// Endpoints, interfaces, configurations
// ---------------------------------------------------------------------------

/// An endpoint, as its descriptor or the driver of its pipe tells it.
#[derive(Debug, Clone, Copy, PartialEq, Eq, Structural)]
pub struct EndpointInfo {
    /// The full address: the number, and bit 7 set for IN.
    pub endpoint_address: u8,
    /// The attributes, whose two lowest bits are the transfer type.
    pub attributes: u8,
    pub max_packet_size: u16,
    pub interval: u8,
}

impl EndpointInfo {
    /// An endpoint with the given properties.
    pub fn new(endpoint_address: u8, attributes: u8, max_packet_size: u16, interval: u8) -> (r:
        EndpointInfo)
        ensures
            r == (EndpointInfo { endpoint_address, attributes, max_packet_size, interval }),
    {
        EndpointInfo { endpoint_address, attributes, max_packet_size, interval }
    }
}

/// An interface and its endpoints.
#[derive(Debug)]
pub struct InterfaceDescriptor {
    pub interface_number: u8,
    pub alternate_setting: u8,
    pub num_endpoints: u8,
    pub interface_class: u8,
    pub interface_sub_class: u8,
    pub interface_protocol: u8,
    pub interface_index: u8,
    pub endpoints: Vec<EndpointInfo>,
}

/// A configuration and its interfaces.
#[derive(Debug)]
pub struct ConfigDescriptor {
    pub total_length: u16,
    pub num_interfaces: u8,
    pub configuration_value: u8,
    pub configuration_index: u8,
    pub attributes: u8,
    pub max_power: u8,
    pub interfaces: Vec<InterfaceDescriptor>,
}

/// An [`InterfaceDescriptor`] with its endpoints as a sequence.
#[verifier::ext_equal]
pub struct InterfaceView {
    pub interface_number: u8,
    pub alternate_setting: u8,
    pub num_endpoints: u8,
    pub interface_class: u8,
    pub interface_sub_class: u8,
    pub interface_protocol: u8,
    pub interface_index: u8,
    pub endpoints: Seq<EndpointInfo>,
}

/// A [`ConfigDescriptor`] with its interfaces as a sequence.
#[verifier::ext_equal]
pub struct ConfigView {
    pub total_length: u16,
    pub num_interfaces: u8,
    pub configuration_value: u8,
    pub configuration_index: u8,
    pub attributes: u8,
    pub max_power: u8,
    pub interfaces: Seq<InterfaceView>,
}

impl View for InterfaceDescriptor {
    type V = InterfaceView;

    open spec fn view(&self) -> InterfaceView {
        InterfaceView {
            interface_number: self.interface_number,
            alternate_setting: self.alternate_setting,
            num_endpoints: self.num_endpoints,
            interface_class: self.interface_class,
            interface_sub_class: self.interface_sub_class,
            interface_protocol: self.interface_protocol,
            interface_index: self.interface_index,
            endpoints: self.endpoints@,
        }
    }
}

impl View for ConfigDescriptor {
    type V = ConfigView;

    open spec fn view(&self) -> ConfigView {
        ConfigView {
            total_length: self.total_length,
            num_interfaces: self.num_interfaces,
            configuration_value: self.configuration_value,
            configuration_index: self.configuration_index,
            attributes: self.attributes,
            max_power: self.max_power,
            interfaces: interface_views(self.interfaces@),
        }
    }
}

/// The views of a sequence of interfaces.
pub open spec fn interface_views(s: Seq<InterfaceDescriptor>) -> Seq<InterfaceView> {
    s.map_values(|i: InterfaceDescriptor| i@)
}

impl Clone for InterfaceDescriptor {
    fn clone(&self) -> (r: InterfaceDescriptor)
        ensures
            r@ == self@,
    {
        let endpoints: Vec<EndpointInfo> = self.endpoints.clone();
        assert(endpoints@ =~= self.endpoints@);
        InterfaceDescriptor {
            interface_number: self.interface_number,
            alternate_setting: self.alternate_setting,
            num_endpoints: self.num_endpoints,
            interface_class: self.interface_class,
            interface_sub_class: self.interface_sub_class,
            interface_protocol: self.interface_protocol,
            interface_index: self.interface_index,
            endpoints,
        }
    }
}

impl Clone for ConfigDescriptor {
    fn clone(&self) -> (r: ConfigDescriptor)
        ensures
            r@ == self@,
    {
        let interfaces: Vec<InterfaceDescriptor> = self.interfaces.clone();
        assert(interface_views(interfaces@) =~= interface_views(self.interfaces@));
        ConfigDescriptor {
            total_length: self.total_length,
            num_interfaces: self.num_interfaces,
            configuration_value: self.configuration_value,
            configuration_index: self.configuration_index,
            attributes: self.attributes,
            max_power: self.max_power,
            interfaces,
        }
    }
}

/// Whether a record describes an interface.
pub open spec fn is_interface_record(r: Seq<u8>) -> bool {
    r.len() >= 9 && r[1] == INTERFACE_TYPE
}

/// Whether a record describes an endpoint.
pub open spec fn is_endpoint_record(r: Seq<u8>) -> bool {
    r.len() >= 7 && r[1] == ENDPOINT_TYPE
}

/// The interface that a record describes, as yet without endpoints.
pub open spec fn interface_of(r: Seq<u8>) -> InterfaceView {
    InterfaceView {
        interface_number: r[2],
        alternate_setting: r[3],
        num_endpoints: r[4],
        interface_class: r[5],
        interface_sub_class: r[6],
        interface_protocol: r[7],
        interface_index: r[8],
        endpoints: Seq::empty(),
    }
}

/// The endpoint that a record describes.
pub open spec fn endpoint_of(r: Seq<u8>) -> EndpointInfo {
    EndpointInfo {
        endpoint_address: r[2],
        attributes: r[3],
        max_packet_size: le16(r[4], r[5]),
        interval: r[6],
    }
}

/// An interface with one more endpoint.
pub open spec fn with_endpoint(i: InterfaceView, e: EndpointInfo) -> InterfaceView {
    InterfaceView { endpoints: i.endpoints.push(e), ..i }
}

/// The interfaces that a chain of records describes. An endpoint belongs to the interface that
/// stands last in front of it; records of other types describe neither.
pub open spec fn interfaces_of(rs: Seq<Seq<u8>>) -> Seq<InterfaceView>
    decreases rs.len(),
{
    if rs.len() == 0 {
        Seq::empty()
    } else {
        let before = interfaces_of(rs.drop_last());
        let r = rs.last();
        if is_interface_record(r) {
            before.push(interface_of(r))
        } else if is_endpoint_record(r) && before.len() > 0 {
            before.drop_last().push(with_endpoint(before.last(), endpoint_of(r)))
        } else {
            before
        }
    }
}

/// The configuration in a byte sequence: a header of 9 bytes and a chain of records.
pub open spec fn config_descriptor_of(b: Seq<u8>) -> Result<ConfigView, ErrorView> {
    if b.len() >= 9 && b[1] == CONFIG_TYPE {
        Ok(
            ConfigView {
                total_length: le16(b[2], b[3]),
                num_interfaces: b[4],
                configuration_value: b[5],
                configuration_index: b[6],
                attributes: b[7],
                max_power: b[8],
                interfaces: interfaces_of(records(b.skip(9))),
            },
        )
    } else {
        Err(ErrorView::InvalidDescriptor)
    }
}

/// Reads the interfaces of the records from `start` on.
fn read_interfaces(buf: &[u8], start: usize) -> (interfaces: Vec<InterfaceDescriptor>)
    requires
        start <= buf@.len(),
    ensures
        interface_views(interfaces@) == interfaces_of(records(buf@.skip(start as int))),
{
    let mut interfaces: Vec<InterfaceDescriptor> = Vec::new();
    let mut pos: usize = start;
    let ghost all = records(buf@.skip(start as int));
    let ghost mut done: Seq<Seq<u8>> = Seq::empty();
    assert(interface_views(interfaces@) =~= Seq::empty());
    assert(done + all =~= all);
    loop
        invariant
            pos <= buf@.len(),
            all == records(buf@.skip(start as int)),
            done + records(buf@.skip(pos as int)) == all,
            interface_views(interfaces@) == interfaces_of(done),
        ensures
            done == all,
            interface_views(interfaces@) == interfaces_of(done),
        decreases buf@.len() - pos,
    {
        let n: usize = match record_at(buf, pos) {
            Some(n) => n,
            None => {
                assert(done + Seq::empty() =~= done);
                break;
            },
        };
        let ghost r = buf@.subrange(pos as int, pos + n);
        let ghost before = interfaces@;
        let ghost more = done.push(r);
        proof {
            assert(more + records(buf@.skip(pos + n)) =~= done + (seq![r] + records(
                buf@.skip(pos + n),
            )));
            assert(more.drop_last() =~= done);
        }
        let kind: u8 = buf[pos + 1];
        assert(r[1] == kind);
        if n >= 9 && kind == INTERFACE_TYPE {
            let interface = InterfaceDescriptor {
                interface_number: buf[pos + 2],
                alternate_setting: buf[pos + 3],
                num_endpoints: buf[pos + 4],
                interface_class: buf[pos + 5],
                interface_sub_class: buf[pos + 6],
                interface_protocol: buf[pos + 7],
                interface_index: buf[pos + 8],
                endpoints: Vec::new(),
            };
            assert(interface@ =~= interface_of(r));
            interfaces.push(interface);
            assert(interface_views(interfaces@) =~= interface_views(before).push(interface_of(r)));
        } else if n >= 7 && kind == ENDPOINT_TYPE {
            let endpoint = EndpointInfo {
                endpoint_address: buf[pos + 2],
                attributes: buf[pos + 3],
                max_packet_size: read_le16(buf[pos + 4], buf[pos + 5]),
                interval: buf[pos + 6],
            };
            assert(endpoint == endpoint_of(r));
            if let Some(mut interface) = interfaces.pop() {
                interface.endpoints.push(endpoint);
                assert(interface@ =~= with_endpoint(before.last()@, endpoint));
                interfaces.push(interface);
                assert(interface_views(interfaces@) =~= interface_views(before).drop_last().push(
                    with_endpoint(interface_views(before).last(), endpoint),
                ));
            }
        }
        proof {
            done = more;
        }
        pos += n;
    }
    interfaces
}

impl ConfigDescriptor {
    /// Reads a configuration descriptor with the interface and endpoint descriptors behind it.
    pub fn from_bytes(buf: &[u8]) -> (r: Result<ConfigDescriptor, UsbError>)
        ensures
            outcome_view(r) == config_descriptor_of(buf@),
    {
        if buf.len() < 9 || buf[1] != CONFIG_TYPE {
            return Err(UsbError::InvalidDescriptor);
        }
        Ok(
            ConfigDescriptor {
                total_length: read_le16(buf[2], buf[3]),
                num_interfaces: buf[4],
                configuration_value: buf[5],
                configuration_index: buf[6],
                attributes: buf[7],
                max_power: buf[8],
                interfaces: read_interfaces(buf, 9),
            },
        )
    }
}

/// The record of an endpoint.
pub open spec fn endpoint_record(e: EndpointInfo) -> Seq<u8> {
    seq![
        7u8,
        ENDPOINT_TYPE,
        e.endpoint_address,
        e.attributes,
        (e.max_packet_size % 256) as u8,
        (e.max_packet_size / 256) as u8,
        e.interval,
    ]
}

/// The record of an interface.
pub open spec fn interface_record(i: InterfaceView) -> Seq<u8> {
    seq![
        9u8,
        INTERFACE_TYPE,
        i.interface_number,
        i.alternate_setting,
        i.num_endpoints,
        i.interface_class,
        i.interface_sub_class,
        i.interface_protocol,
        i.interface_index,
    ]
}

/// The records of interfaces, each followed by those of its endpoints.
pub open spec fn interface_records(s: Seq<InterfaceView>) -> Seq<Seq<u8>>
    decreases s.len(),
{
    if s.len() == 0 {
        Seq::empty()
    } else {
        interface_records(s.drop_last()).push(interface_record(s.last()))
            + s.last().endpoints.map_values(|e: EndpointInfo| endpoint_record(e))
    }
}

/// A configuration in bytes.
pub open spec fn config_bytes(c: ConfigView) -> Seq<u8> {
    seq![
        9u8,
        CONFIG_TYPE,
        (c.total_length % 256) as u8,
        (c.total_length / 256) as u8,
        c.num_interfaces,
        c.configuration_value,
        c.configuration_index,
        c.attributes,
        c.max_power,
    ] + chain(interface_records(c.interfaces))
}

proof fn lemma_endpoints_join(rs: Seq<Seq<u8>>, i: InterfaceView, es: Seq<EndpointInfo>)
    ensures
        interfaces_of(
            rs.push(interface_record(i)) + es.map_values(|e: EndpointInfo| endpoint_record(e)),
        ) == interfaces_of(rs).push(InterfaceView { endpoints: es, ..i }),
    decreases es.len(),
{
    let f = |e: EndpointInfo| endpoint_record(e);
    let head = rs.push(interface_record(i));
    let all = head + es.map_values(f);
    if es.len() == 0 {
        assert(all =~= head);
        assert(head.drop_last() =~= rs);
        assert(interface_of(interface_record(i)) =~= InterfaceView { endpoints: es, ..i });
    } else {
        let es0 = es.drop_last();
        lemma_endpoints_join(rs, i, es0);
        assert(all.drop_last() =~= head + es0.map_values(f));
        let e = es.last();
        assert(all.last() == endpoint_record(e));
        assert(endpoint_of(endpoint_record(e)) == e);
        let before = interfaces_of(rs).push(InterfaceView { endpoints: es0, ..i });
        assert(before.drop_last() =~= interfaces_of(rs));
        assert(es0.push(e) =~= es);
    }
}

proof fn lemma_interface_records(s: Seq<InterfaceView>)
    ensures
        interfaces_of(interface_records(s)) == s,
        forall|k: int|
            0 <= k < interface_records(s).len() ==> is_record(#[trigger] interface_records(s)[k]),
    decreases s.len(),
{
    if s.len() > 0 {
        let i = s.last();
        let rs = interface_records(s.drop_last());
        lemma_interface_records(s.drop_last());
        lemma_endpoints_join(rs, i, i.endpoints);
        assert(InterfaceView { endpoints: i.endpoints, ..i } == i);
        assert(s.drop_last().push(i) =~= s);
        let tail = i.endpoints.map_values(|e: EndpointInfo| endpoint_record(e));
        assert forall|k: int| 0 <= k < interface_records(s).len() implies is_record(
            #[trigger] interface_records(s)[k],
        ) by {
            if k < rs.len() {
                assert(interface_records(s)[k] == rs[k]);
            } else if k == rs.len() {
                assert(interface_records(s)[k] == interface_record(i));
            } else {
                assert(interface_records(s)[k] == tail[k - rs.len() - 1]);
            }
        }
    } else {
        assert(s =~= Seq::empty());
    }
}

/// A configuration is read back from its bytes, with every interface and endpoint in order.
pub proof fn law_config_reads_back(c: ConfigView)
    ensures
        config_descriptor_of(config_bytes(c)) == Ok::<ConfigView, ErrorView>(c),
{
    let rs = interface_records(c.interfaces);
    lemma_interface_records(c.interfaces);
    law_records_of_chain(rs);
    assert(config_bytes(c).skip(9) =~= chain(rs));
}

// ---------------------------------------------------------------------------
// Binary object store
// ---------------------------------------------------------------------------

/// A device capability of the binary object store.
#[derive(Debug)]
pub struct BosCapability {
    pub capability_type: u8,
    pub data: Vec<u8>,
}

/// The binary object store of a device.
#[derive(Debug)]
pub struct BosDescriptor {
    pub total_length: u16,
    pub num_capabilities: u8,
    pub capabilities: Vec<BosCapability>,
}

/// A [`BosCapability`] with its data as a sequence.
#[verifier::ext_equal]
pub struct CapabilityView {
    pub capability_type: u8,
    pub data: Seq<u8>,
}

/// A [`BosDescriptor`] with its capabilities as a sequence.
#[verifier::ext_equal]
pub struct BosView {
    pub total_length: u16,
    pub num_capabilities: u8,
    pub capabilities: Seq<CapabilityView>,
}

impl View for BosCapability {
    type V = CapabilityView;

    open spec fn view(&self) -> CapabilityView {
        CapabilityView { capability_type: self.capability_type, data: self.data@ }
    }
}

impl View for BosDescriptor {
    type V = BosView;

    open spec fn view(&self) -> BosView {
        BosView {
            total_length: self.total_length,
            num_capabilities: self.num_capabilities,
            capabilities: capability_views(self.capabilities@),
        }
    }
}

/// The views of a sequence of capabilities.
pub open spec fn capability_views(s: Seq<BosCapability>) -> Seq<CapabilityView> {
    s.map_values(|c: BosCapability| c@)
}

/// The capabilities that a chain of records describes. Records of other types describe none.
pub open spec fn capabilities_of(rs: Seq<Seq<u8>>) -> Seq<CapabilityView>
    decreases rs.len(),
{
    if rs.len() == 0 {
        Seq::empty()
    } else {
        let before = capabilities_of(rs.drop_last());
        let r = rs.last();
        if r.len() >= 3 && r[1] == CAPABILITY_TYPE {
            before.push(CapabilityView { capability_type: r[2], data: r.skip(3) })
        } else {
            before
        }
    }
}

/// The binary object store in a byte sequence: a header of 5 bytes and a chain of records.
pub open spec fn bos_descriptor_of(b: Seq<u8>) -> Result<BosView, ErrorView> {
    if b.len() >= 5 && b[1] == BOS_TYPE {
        Ok(
            BosView {
                total_length: le16(b[2], b[3]),
                num_capabilities: b[4],
                capabilities: capabilities_of(records(b.skip(5))),
            },
        )
    } else {
        Err(ErrorView::InvalidDescriptor)
    }
}

/// Reads the capabilities of the records from `start` on.
fn read_capabilities(buf: &[u8], start: usize) -> (capabilities: Vec<BosCapability>)
    requires
        start <= buf@.len(),
    ensures
        capability_views(capabilities@) == capabilities_of(records(buf@.skip(start as int))),
{
    let mut capabilities: Vec<BosCapability> = Vec::new();
    let mut pos: usize = start;
    let ghost all = records(buf@.skip(start as int));
    let ghost mut done: Seq<Seq<u8>> = Seq::empty();
    assert(capability_views(capabilities@) =~= Seq::empty());
    assert(done + all =~= all);
    loop
        invariant
            pos <= buf@.len(),
            all == records(buf@.skip(start as int)),
            done + records(buf@.skip(pos as int)) == all,
            capability_views(capabilities@) == capabilities_of(done),
        ensures
            done == all,
            capability_views(capabilities@) == capabilities_of(done),
        decreases buf@.len() - pos,
    {
        let n: usize = match record_at(buf, pos) {
            Some(n) => n,
            None => {
                assert(done + Seq::empty() =~= done);
                break;
            },
        };
        let ghost r = buf@.subrange(pos as int, pos + n);
        let ghost before = capabilities@;
        let ghost more = done.push(r);
        proof {
            assert(more + records(buf@.skip(pos + n)) =~= done + (seq![r] + records(
                buf@.skip(pos + n),
            )));
            assert(more.drop_last() =~= done);
        }
        if n >= 3 && buf[pos + 1] == CAPABILITY_TYPE {
            let capability = BosCapability {
                capability_type: buf[pos + 2],
                data: vstd::slice::slice_to_vec(
                    vstd::slice::slice_subrange(buf, pos + 3, pos + n),
                ),
            };
            assert(capability.data@ =~= r.skip(3));
            capabilities.push(capability);
            assert(capability_views(capabilities@) =~= capability_views(before).push(capability@));
        }
        proof {
            done = more;
        }
        pos += n;
    }
    capabilities
}

impl BosDescriptor {
    /// Reads a binary object store.
    pub fn from_bytes(buf: &[u8]) -> (r: Result<BosDescriptor, UsbError>)
        ensures
            outcome_view(r) == bos_descriptor_of(buf@),
    {
        if buf.len() < 5 || buf[1] != BOS_TYPE {
            return Err(UsbError::InvalidDescriptor);
        }
        Ok(
            BosDescriptor {
                total_length: read_le16(buf[2], buf[3]),
                num_capabilities: buf[4],
                capabilities: read_capabilities(buf, 5),
            },
        )
    }
}

/// The record of a capability.
pub open spec fn capability_record(c: CapabilityView) -> Seq<u8> {
    seq![(3 + c.data.len()) as u8, CAPABILITY_TYPE, c.capability_type] + c.data
}

/// A binary object store in bytes.
pub open spec fn bos_bytes(b: BosView) -> Seq<u8> {
    seq![
        5u8,
        BOS_TYPE,
        (b.total_length % 256) as u8,
        (b.total_length / 256) as u8,
        b.num_capabilities,
    ] + chain(b.capabilities.map_values(|c: CapabilityView| capability_record(c)))
}

proof fn lemma_capability_records(cs: Seq<CapabilityView>)
    ensures
        capabilities_of(cs.map_values(|c: CapabilityView| capability_record(c))) == cs,
    decreases cs.len(),
{
    let f = |c: CapabilityView| capability_record(c);
    let rs = cs.map_values(f);
    if cs.len() > 0 {
        let c = cs.last();
        lemma_capability_records(cs.drop_last());
        assert(rs.drop_last() =~= cs.drop_last().map_values(f));
        assert(rs.last() == capability_record(c));
        assert(capability_record(c).skip(3) =~= c.data);
        assert(cs.drop_last().push(c) =~= cs);
    } else {
        assert(cs =~= Seq::empty());
    }
}

/// A binary object store is read back from its bytes, with every capability in order. The
/// length of a record is one byte, so the data of a capability has at most 252 bytes.
pub proof fn law_bos_reads_back(b: BosView)
    requires
        forall|i: int|
            0 <= i < b.capabilities.len() ==> (#[trigger] b.capabilities[i]).data.len() <= 252,
    ensures
        bos_descriptor_of(bos_bytes(b)) == Ok::<BosView, ErrorView>(b),
{
    let rs = b.capabilities.map_values(|c: CapabilityView| capability_record(c));
    assert forall|i: int| 0 <= i < rs.len() implies is_record(#[trigger] rs[i]) by {
        assert(b.capabilities[i].data.len() <= 252);
    }
    law_records_of_chain(rs);
    lemma_capability_records(b.capabilities);
    assert(bos_bytes(b).skip(5) =~= chain(rs));
}

// ---------------------------------------------------------------------------
// Hub descriptor
// ---------------------------------------------------------------------------

/// The descriptor of a hub.
#[derive(Debug)]
pub struct HubDescriptor {
    pub num_ports: u8,
    pub characteristics: u16,
    /// Time from power on to power good, in units of 2 ms.
    pub power_on_delay: u8,
    /// Current that the hub controller needs, in mA.
    pub controller_current: u8,
    /// The bit masks of removable devices and of port power.
    pub port_masks: Vec<u8>,
}

/// A [`HubDescriptor`] with its masks as a sequence.
#[verifier::ext_equal]
pub struct HubView {
    pub num_ports: u8,
    pub characteristics: u16,
    pub power_on_delay: u8,
    pub controller_current: u8,
    pub port_masks: Seq<u8>,
}

impl View for HubDescriptor {
    type V = HubView;

    open spec fn view(&self) -> HubView {
        HubView {
            num_ports: self.num_ports,
            characteristics: self.characteristics,
            power_on_delay: self.power_on_delay,
            controller_current: self.controller_current,
            port_masks: self.port_masks@,
        }
    }
}

/// The hub descriptor in a byte sequence: 7 bytes and the masks that its length covers.
pub open spec fn hub_descriptor_of(b: Seq<u8>) -> Result<HubView, ErrorView> {
    if b.len() >= 7 && b[1] == HUB_TYPE && 7 <= b[0] <= b.len() {
        Ok(
            HubView {
                num_ports: b[2],
                characteristics: le16(b[3], b[4]),
                power_on_delay: b[5],
                controller_current: b[6],
                port_masks: b.subrange(7, b[0] as int),
            },
        )
    } else {
        Err(ErrorView::InvalidDescriptor)
    }
}

impl HubDescriptor {
    /// Reads a hub descriptor.
    pub fn from_bytes(buf: &[u8]) -> (r: Result<HubDescriptor, UsbError>)
        ensures
            outcome_view(r) == hub_descriptor_of(buf@),
    {
        if buf.len() < 7 || buf[1] != HUB_TYPE {
            return Err(UsbError::InvalidDescriptor);
        }
        let n: usize = buf[0] as usize;
        if n < 7 || n > buf.len() {
            return Err(UsbError::InvalidDescriptor);
        }
        Ok(
            HubDescriptor {
                num_ports: buf[2],
                characteristics: read_le16(buf[3], buf[4]),
                power_on_delay: buf[5],
                controller_current: buf[6],
                port_masks: vstd::slice::slice_to_vec(vstd::slice::slice_subrange(buf, 7, n)),
            },
        )
    }
}

/// A hub descriptor in bytes.
pub open spec fn hub_bytes(h: HubView) -> Seq<u8> {
    seq![
        (7 + h.port_masks.len()) as u8,
        HUB_TYPE,
        h.num_ports,
        (h.characteristics % 256) as u8,
        (h.characteristics / 256) as u8,
        h.power_on_delay,
        h.controller_current,
    ] + h.port_masks
}

/// A hub descriptor is read back from its bytes, whatever stands behind them. Its length is one
/// byte, so its masks have at most 248 bytes.
pub proof fn law_hub_descriptor_reads_back(h: HubView, tail: Seq<u8>)
    requires
        h.port_masks.len() <= 248,
    ensures
        hub_descriptor_of(hub_bytes(h) + tail) == Ok::<HubView, ErrorView>(h),
{
    let b = hub_bytes(h) + tail;
    assert(b.subrange(7, (7 + h.port_masks.len()) as int) =~= h.port_masks);
}

// ---------------------------------------------------------------------------
// Laws on every byte sequence
// ---------------------------------------------------------------------------

/// A device descriptor is what 18 bytes of its type tell, each field by its own bytes. Anything
/// else is invalid.
pub proof fn law_device_descriptor_fields(b: Seq<u8>)
    ensures
        device_descriptor_of(b) is Ok <==> b.len() >= 18 && b[1] == 1,
        device_descriptor_of(b) matches Err(e) ==> e is InvalidDescriptor,
        device_descriptor_of(b) matches Ok(d) ==> {
            &&& d.bcd_usb == b[2] + 256 * b[3]
            &&& d.device_class == b[4] && d.device_sub_class == b[5] && d.device_protocol == b[6]
            &&& d.max_packet_size0 == b[7]
            &&& d.vendor_id == b[8] + 256 * b[9] && d.product_id == b[10] + 256 * b[11]
            &&& d.bcd_device == b[12] + 256 * b[13]
            &&& d.manufacturer_index == b[14] && d.product_index == b[15]
            &&& d.serial_number_index == b[16] && d.num_configurations == b[17]
        },
{
}

/// A configuration is what 9 bytes of its type and the records behind them tell. Anything else
/// is invalid.
pub proof fn law_config_descriptor_fields(b: Seq<u8>)
    ensures
        config_descriptor_of(b) is Ok <==> b.len() >= 9 && b[1] == 2,
        config_descriptor_of(b) matches Err(e) ==> e is InvalidDescriptor,
        config_descriptor_of(b) matches Ok(c) ==> {
            &&& c.total_length == b[2] + 256 * b[3]
            &&& c.num_interfaces == b[4] && c.configuration_value == b[5]
            &&& c.configuration_index == b[6] && c.attributes == b[7] && c.max_power == b[8]
            &&& c.interfaces == interfaces_of(records(b.skip(9)))
        },
{
}

/// Records are read one after the other as long as they fit, and nothing behind the first that
/// does not.
pub proof fn law_records_end_where_none_fits(rs: Seq<Seq<u8>>, tail: Seq<u8>)
    requires
        forall|i: int|
            0 <= i < rs.len() ==> (#[trigger] rs[i]).len() >= 2 && rs[i][0] == rs[i].len(),
        tail.len() < 2 || tail[0] < 2 || tail[0] > tail.len(),
    ensures
        records(chain(rs) + tail) == rs,
    decreases rs.len(),
{
    if rs.len() > 0 {
        let rest = rs.skip(1);
        assert forall|i: int| 0 <= i < rest.len() implies (#[trigger] rest[i]).len() >= 2
            && rest[i][0] == rest[i].len() by {
            assert(rest[i] == rs[i + 1]);
        }
        law_records_end_where_none_fits(rest, tail);
        let b = chain(rs) + tail;
        assert(rs[0].len() >= 2 && rs[0][0] == rs[0].len());
        assert(b[0] == rs[0][0]);
        assert(b.take(rs[0].len() as int) =~= rs[0]);
        assert(b.skip(rs[0].len() as int) =~= chain(rest) + tail);
        assert(seq![rs[0]] + rest =~= rs);
    } else {
        assert(chain(rs) + tail =~= tail);
        assert(rs =~= Seq::empty());
    }
}

/// Every record is a piece of the bytes, in their order: laid end to end the records are a
/// prefix of them, and each tells its own length.
pub proof fn law_records_are_pieces_of_the_bytes(bytes: Seq<u8>)
    ensures
        chain(records(bytes)).is_prefix_of(bytes),
        forall|i: int|
            0 <= i < records(bytes).len() ==> (#[trigger] records(bytes)[i]).len() >= 2
                && records(bytes)[i][0] == records(bytes)[i].len(),
    decreases bytes.len(),
{
    let rs = records(bytes);
    if bytes.len() >= 2 && 2 <= bytes[0] <= bytes.len() {
        let n = bytes[0] as int;
        let rest = bytes.skip(n);
        law_records_are_pieces_of_the_bytes(rest);
        assert(rs.skip(1) =~= records(rest));
        let c = chain(records(rest));
        assert(c =~= rest.take(c.len() as int));
        assert(chain(rs) =~= bytes.take(n) + c);
        assert(chain(rs) =~= bytes.take(chain(rs).len() as int));
        assert forall|i: int| 0 <= i < rs.len() implies (#[trigger] rs[i]).len() >= 2 && rs[i][0]
            == rs[i].len() by {
            if i > 0 {
                assert(rs[i] == records(rest)[i - 1]);
            }
        }
    } else {
        assert(chain(rs) =~= Seq::empty());
    }
}

/// An interface record adds one interface, with the fields of its own bytes and no endpoints
/// yet, and leaves the interfaces in front of it as they are.
pub proof fn law_interface_record_adds_an_interface(front: Seq<Seq<u8>>, r: Seq<u8>)
    requires
        r.len() >= 9,
        r[1] == 4,
    ensures
        ({
            let before = interfaces_of(front);
            let after = interfaces_of(front.push(r));
            let i = after.last();
            &&& after.len() == before.len() + 1
            &&& after.drop_last() == before
            &&& i.interface_number == r[2] && i.alternate_setting == r[3]
            &&& i.num_endpoints == r[4] && i.interface_class == r[5]
            &&& i.interface_sub_class == r[6] && i.interface_protocol == r[7]
            &&& i.interface_index == r[8]
            &&& i.endpoints.len() == 0
        }),
{
    assert(front.push(r).drop_last() =~= front);
    assert(interfaces_of(front.push(r)).drop_last() =~= interfaces_of(front));
}

/// An endpoint record adds one endpoint, with the fields of its own bytes, to the last interface
/// in front of it, and changes nothing else. Without such an interface it changes nothing.
pub proof fn law_endpoint_record_adds_an_endpoint(front: Seq<Seq<u8>>, r: Seq<u8>)
    requires
        r.len() >= 7,
        r[1] == 5,
    ensures
        interfaces_of(front).len() == 0 ==> interfaces_of(front.push(r)).len() == 0,
        interfaces_of(front).len() > 0 ==> {
            let before = interfaces_of(front);
            let after = interfaces_of(front.push(r));
            let (i, j) = (before.last(), after.last());
            let e = j.endpoints.last();
            &&& after.len() == before.len()
            &&& after.drop_last() == before.drop_last()
            &&& j.interface_number == i.interface_number
            &&& j.alternate_setting == i.alternate_setting
            &&& j.num_endpoints == i.num_endpoints && j.interface_class == i.interface_class
            &&& j.interface_sub_class == i.interface_sub_class
            &&& j.interface_protocol == i.interface_protocol
            &&& j.interface_index == i.interface_index
            &&& j.endpoints.len() == i.endpoints.len() + 1
            &&& j.endpoints.drop_last() == i.endpoints
            &&& e.endpoint_address == r[2] && e.attributes == r[3]
            &&& e.max_packet_size == r[4] + 256 * r[5] && e.interval == r[6]
        },
{
    let before = interfaces_of(front);
    assert(front.push(r).drop_last() =~= front);
    if before.len() > 0 {
        let after = interfaces_of(front.push(r));
        assert(after.drop_last() =~= before.drop_last());
        assert(after.last().endpoints.drop_last() =~= before.last().endpoints);
    }
}

/// A record of any other type changes nothing, of any length and wherever it stands. Neither
/// does one that is too short for its type.
pub proof fn law_other_records_change_nothing(
    front: Seq<Seq<u8>>,
    r: Seq<u8>,
    back: Seq<Seq<u8>>,
)
    requires
        !(r.len() >= 9 && r[1] == 4),
        !(r.len() >= 7 && r[1] == 5),
    ensures
        interfaces_of(front.push(r) + back) == interfaces_of(front + back),
    decreases back.len(),
{
    let with = front.push(r) + back;
    let without = front + back;
    if back.len() == 0 {
        assert(with.drop_last() =~= front);
        assert(with.last() == r);
        assert(without =~= front);
    } else {
        law_other_records_change_nothing(front, r, back.drop_last());
        assert(with.drop_last() =~= front.push(r) + back.drop_last());
        assert(without.drop_last() =~= front + back.drop_last());
        assert(with.last() == without.last());
    }
}

/// There are as many interfaces as there are interface records.
pub proof fn law_interfaces_are_those_of_interface_records(rs: Seq<Seq<u8>>)
    ensures
        interfaces_of(rs).len() == rs.filter(|r: Seq<u8>| r.len() >= 9 && r[1] == 4).len(),
    decreases rs.len(),
{
    reveal(Seq::filter);
    if rs.len() > 0 {
        law_interfaces_are_those_of_interface_records(rs.drop_last());
    }
}

/// A configuration has the same interfaces, with the same endpoints, whatever records of other
/// types stand between their records, and whatever stands behind the last record.
pub proof fn law_config_passes_over_other_records(
    header: Seq<u8>,
    front: Seq<Seq<u8>>,
    r: Seq<u8>,
    back: Seq<Seq<u8>>,
    tail: Seq<u8>,
)
    requires
        header.len() == 9 && header[1] == 2,
        forall|i: int|
            0 <= i < front.len() ==> (#[trigger] front[i]).len() >= 2 && front[i][0]
                == front[i].len(),
        forall|i: int|
            0 <= i < back.len() ==> (#[trigger] back[i]).len() >= 2 && back[i][0]
                == back[i].len(),
        r.len() >= 2 && r[0] == r.len() && r[1] != 4 && r[1] != 5,
        tail.len() < 2 || tail[0] < 2 || tail[0] > tail.len(),
    ensures
        config_descriptor_of(header + (chain(front.push(r) + back) + tail))
            == config_descriptor_of(header + (chain(front + back) + tail)),
        config_descriptor_of(header + (chain(front + back) + tail)) is Ok,
{
    let with = front.push(r) + back;
    let without = front + back;
    let b1 = header + (chain(with) + tail);
    let b2 = header + (chain(without) + tail);
    assert forall|i: int| 0 <= i < with.len() implies (#[trigger] with[i]).len() >= 2 && with[i][0]
        == with[i].len() by {
        if i < front.len() {
            assert(with[i] == front[i]);
        } else if i > front.len() {
            assert(with[i] == back[i - front.len() - 1]);
        }
    }
    assert forall|i: int| 0 <= i < without.len() implies (#[trigger] without[i]).len() >= 2
        && without[i][0] == without[i].len() by {
        if i < front.len() {
            assert(without[i] == front[i]);
        } else {
            assert(without[i] == back[i - front.len()]);
        }
    }
    law_records_end_where_none_fits(with, tail);
    law_records_end_where_none_fits(without, tail);
    assert(b1.skip(9) =~= chain(with) + tail);
    assert(b2.skip(9) =~= chain(without) + tail);
    law_other_records_change_nothing(front, r, back);
    law_config_descriptor_fields(b1);
    law_config_descriptor_fields(b2);
}

/// A binary object store is what 5 bytes of its type and the records behind them tell. Anything
/// else is invalid.
pub proof fn law_bos_descriptor_fields(b: Seq<u8>)
    ensures
        bos_descriptor_of(b) is Ok <==> b.len() >= 5 && b[1] == 0x0F,
        bos_descriptor_of(b) matches Err(e) ==> e is InvalidDescriptor,
        bos_descriptor_of(b) matches Ok(d) ==> {
            &&& d.total_length == b[2] + 256 * b[3]
            &&& d.num_capabilities == b[4]
            &&& d.capabilities == capabilities_of(records(b.skip(5)))
        },
{
}

/// A capability record adds one capability with its own type and data, and a record of any other
/// type adds none.
pub proof fn law_capability_record_adds_a_capability(front: Seq<Seq<u8>>, r: Seq<u8>)
    ensures
        r.len() >= 3 && r[1] == 0x10 ==> {
            let after = capabilities_of(front.push(r));
            &&& after.len() == capabilities_of(front).len() + 1
            &&& after.drop_last() == capabilities_of(front)
            &&& after.last().capability_type == r[2]
            &&& after.last().data == r.subrange(3, r.len() as int)
        },
        !(r.len() >= 3 && r[1] == 0x10) ==> capabilities_of(front.push(r)) == capabilities_of(front),
        capabilities_of(Seq::empty()).len() == 0,
{
    assert(front.push(r).drop_last() =~= front);
    if r.len() >= 3 && r[1] == 0x10 {
        assert(capabilities_of(front.push(r)).drop_last() =~= capabilities_of(front));
        assert(r.skip(3) =~= r.subrange(3, r.len() as int));
    }
}

/// A hub descriptor is what at least 7 bytes of its type and its own length tell. Anything else
/// is invalid.
pub proof fn law_hub_descriptor_fields(b: Seq<u8>)
    ensures
        hub_descriptor_of(b) is Ok <==> b.len() >= 7 && b[1] == 0x29 && 7 <= b[0] <= b.len(),
        hub_descriptor_of(b) matches Err(e) ==> e is InvalidDescriptor,
        hub_descriptor_of(b) matches Ok(h) ==> {
            &&& h.num_ports == b[2]
            &&& h.characteristics == b[3] + 256 * b[4]
            &&& h.power_on_delay == b[5] && h.controller_current == b[6]
            &&& h.port_masks == b.subrange(7, b[0] as int)
        },
{
}

/// The views of descriptors have all that the descriptors have.
pub proof fn law_descriptor_views_keep_every_field(
    i: InterfaceDescriptor,
    c: ConfigDescriptor,
    b: BosDescriptor,
    h: HubDescriptor,
)
    ensures
        i@.interface_number == i.interface_number && i@.alternate_setting == i.alternate_setting,
        i@.num_endpoints == i.num_endpoints && i@.interface_class == i.interface_class,
        i@.interface_sub_class == i.interface_sub_class,
        i@.interface_protocol == i.interface_protocol && i@.interface_index == i.interface_index,
        i@.endpoints == i.endpoints@,
        c@.total_length == c.total_length && c@.num_interfaces == c.num_interfaces,
        c@.configuration_value == c.configuration_value,
        c@.configuration_index == c.configuration_index,
        c@.attributes == c.attributes && c@.max_power == c.max_power,
        c@.interfaces.len() == c.interfaces@.len(),
        forall|k: int|
            0 <= k < c.interfaces@.len() ==> #[trigger] c@.interfaces[k] == c.interfaces@[k]@,
        b@.total_length == b.total_length && b@.num_capabilities == b.num_capabilities,
        b@.capabilities.len() == b.capabilities@.len(),
        forall|k: int|
            0 <= k < b.capabilities@.len() ==> (#[trigger] b@.capabilities[k]).capability_type
                == b.capabilities@[k].capability_type && b@.capabilities[k].data
                == b.capabilities@[k].data@,
        h@.num_ports == h.num_ports && h@.characteristics == h.characteristics,
        h@.power_on_delay == h.power_on_delay && h@.controller_current == h.controller_current,
        h@.port_masks == h.port_masks@,
{
}

/// Reading a configuration gives the same, with a record of another type anywhere among its
/// records or without it, and as many interfaces as there are interface records.
pub proof fn law_reading_passes_over_other_records(
    header: Seq<u8>,
    front: Seq<Seq<u8>>,
    r: Seq<u8>,
    back: Seq<Seq<u8>>,
    with: &[u8],
    without: &[u8],
    read_with: Result<ConfigDescriptor, UsbError>,
    read_without: Result<ConfigDescriptor, UsbError>,
)
    requires
        header.len() == 9 && header[1] == 2,
        forall|i: int|
            0 <= i < front.len() ==> (#[trigger] front[i]).len() >= 2 && front[i][0]
                == front[i].len(),
        forall|i: int|
            0 <= i < back.len() ==> (#[trigger] back[i]).len() >= 2 && back[i][0]
                == back[i].len(),
        r.len() >= 2 && r[0] == r.len() && r[1] != 4 && r[1] != 5,
        with@ == header + chain(front.push(r) + back),
        without@ == header + chain(front + back),
        call_ensures(ConfigDescriptor::from_bytes, (with,), read_with),
        call_ensures(ConfigDescriptor::from_bytes, (without,), read_without),
    ensures
        read_with is Ok && read_without is Ok,
        read_with->Ok_0@ == read_without->Ok_0@,
        read_with->Ok_0.interfaces@.len() == (front + back).filter(
            |r: Seq<u8>| r.len() >= 9 && r[1] == 4,
        ).len(),
{
    let none = Seq::<u8>::empty();
    law_config_passes_over_other_records(header, front, r, back, none);
    assert(chain(front.push(r) + back) + none =~= chain(front.push(r) + back));
    assert(chain(front + back) + none =~= chain(front + back));
    let rs = front + back;
    assert forall|i: int| 0 <= i < rs.len() implies (#[trigger] rs[i]).len() >= 2 && rs[i][0]
        == rs[i].len() by {
        if i < front.len() {
            assert(rs[i] == front[i]);
        } else {
            assert(rs[i] == back[i - front.len()]);
        }
    }
    law_records_end_where_none_fits(rs, none);
    law_config_descriptor_fields(without@);
    assert(without@.skip(9) =~= chain(rs));
    law_interfaces_are_those_of_interface_records(rs);
}

} // verus!
