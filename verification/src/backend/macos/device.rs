//! The claimed interfaces and the known pipes of an open device.

use vstd::prelude::*;
use vstd::string::StringExecFns;
use std::collections::{HashMap, HashSet};

use crate::error::{outcome, ErrorView, UsbError};
use crate::numeral::{
    digits_value, hex_fixed, law_hex_fixed_reads_back, lemma_numeral, numeral, write_hex_fixed,
    write_numeral,
};
use vstd::arithmetic::power::pow;
use crate::protocol::control::RawControl;
use crate::protocol::descriptor::{ConfigDescriptor, EndpointInfo, InterfaceView};
use crate::text::string_of;

verus! {

broadcast use {vstd::std_specs::hash::group_hash_axioms, vstd::string::group_string_axioms};

/// The backend for devices that IOKit lists.
pub struct MacOsBackend;

/// An open device: the interfaces that are claimed, and the pipes of the endpoints that are
/// known.
pub struct MacOsDevice {
    claimed_interfaces: HashSet<u8>,
    pipe_cache: HashMap<u8, u8>,
}

/// A [`MacOsDevice`] with its collections as mathematical ones.
#[verifier::ext_equal]
pub struct MacOsView {
    pub claimed: Set<u8>,
    pub pipes: Map<u8, u8>,
}

impl View for MacOsDevice {
    type V = MacOsView;

    closed spec fn view(&self) -> MacOsView {
        MacOsView { claimed: self.claimed_interfaces@, pipes: self.pipe_cache@ }
    }
}

/// The standard request that asks for the alternate setting of an interface.
pub open spec fn get_interface_request(interface: u8, timeout_ms: u32) -> RawControl {
    RawControl {
        request_type: 0x81,
        request: 0x0A,
        value: 0,
        index: interface as u16,
        length: 1,
        timeout_ms,
    }
}

/// The standard request that selects an alternate setting of an interface.
pub open spec fn set_interface_request(interface: u8, alt: u8, timeout_ms: u32) -> RawControl {
    RawControl {
        request_type: 0x01,
        request: 0x0B,
        value: alt as u16,
        index: interface as u16,
        length: 0,
        timeout_ms,
    }
}

/// Whether a configuration has an interface with a number.
pub open spec fn has_interface(interfaces: Seq<InterfaceView>, interface: u8) -> bool {
    exists|i: int|
        0 <= i < interfaces.len() && (#[trigger] interfaces[i]).interface_number == interface
}

/// The complaint about an interface that the configuration does not have.
pub open spec fn no_interface_text(interface: u8) -> Seq<char> {
    "interface "@ + numeral(interface as int, 10) + " not found in configuration"@
}

/// A complaint about an endpoint.
pub open spec fn endpoint_text(endpoint: u8, complaint: Seq<char>) -> Seq<char> {
    "endpoint 0x"@ + hex_fixed(endpoint as int, 2) + complaint
}

/// Words a complaint about an endpoint.
pub fn write_endpoint_text(endpoint: u8, complaint: &str) -> (s: String)
    ensures
        s@ == endpoint_text(endpoint, complaint@),
{
    let number: String = string_of(write_hex_fixed(endpoint as u32, 2).as_slice());
    "endpoint 0x".to_owned().concat(number.as_str()).concat(complaint)
}

/// Whether a configuration has an interface with the given number.
pub fn interface_exists(config: &ConfigDescriptor, interface: u8) -> (b: bool)
    ensures
        b == has_interface(config@.interfaces, interface),
{
    for i in 0..config.interfaces.len()
        invariant
            forall|j: int|
                0 <= j < i ==> (#[trigger] config.interfaces@[j]).interface_number != interface,
    {
        if config.interfaces[i].interface_number == interface {
            assert(config@.interfaces[i as int].interface_number == interface);
            return true;
        }
    }
    assert forall|j: int| 0 <= j < config@.interfaces.len() implies (
    #[trigger] config@.interfaces[j]).interface_number != interface by {
        assert(config.interfaces@[j].interface_number != interface);
    }
    false
}

/// Asks for the alternate setting of an interface.
pub fn get_interface_alt_setting(interface: u8, timeout_ms: u32) -> (r: RawControl)
    ensures
        r == get_interface_request(interface, timeout_ms),
{
    RawControl {
        request_type: 0x81,
        request: 0x0A,
        value: 0,
        index: interface as u16,
        length: 1,
        timeout_ms,
    }
}

/// Takes the alternate setting from a reply of `n` bytes.
pub fn alt_setting_reply(n: usize, buf: [u8; 1]) -> (r: Result<u8, UsbError>)
    ensures
        outcome(r) == if n < 1 {
            Err(ErrorView::InvalidDescriptor)
        } else {
            Ok(buf[0])
        },
{
    if n < 1 {
        Err(UsbError::InvalidDescriptor)
    } else {
        Ok(buf[0])
    }
}

/// Selects an alternate setting of an interface.
pub fn set_interface_alt_setting(interface: u8, alt_setting: u8, timeout_ms: u32) -> (r: RawControl)
    ensures
        r == set_interface_request(interface, alt_setting, timeout_ms),
{
    RawControl {
        request_type: 0x01,
        request: 0x0B,
        value: alt_setting as u16,
        index: interface as u16,
        length: 0,
        timeout_ms,
    }
}

/// The address of the endpoint of a pipe: the number in the four lowest bits, and bit 7 set
/// where the direction is IN, which is any but 0.
pub open spec fn pipe_address(direction: u8, number: u8) -> u8 {
    (number % 16 + if direction != 0 {
        0x80int
    } else {
        0
    }) as u8
}

/// Makes the address of the endpoint of a pipe.
pub fn endpoint_address(direction: u8, number: u8) -> (address: u8)
    ensures
        address == pipe_address(direction, number),
{
    if direction != 0 {
        number % 16 + 0x80
    } else {
        number % 16
    }
}

/// The endpoint of a pipe with the given properties. The transfer types of IOKit are those of
/// the attributes of an endpoint.
pub fn pipe_endpoint(
    direction: u8,
    number: u8,
    transfer_type: u8,
    max_packet_size: u16,
    interval: u8,
) -> (e: EndpointInfo)
    ensures
        e == (EndpointInfo {
            endpoint_address: pipe_address(direction, number),
            attributes: transfer_type,
            max_packet_size,
            interval,
        }),
{
    EndpointInfo::new(endpoint_address(direction, number), transfer_type, max_packet_size, interval)
}

/// How many bytes a transfer is to move. There is nothing to do for an empty buffer, and a pipe
/// takes no more than a `u32` can count.
pub fn transfer_size(buf_len: usize) -> (r: Result<Option<u32>, UsbError>)
    ensures
        outcome(r) == if buf_len == 0 {
            Ok(None)
        } else if buf_len > u32::MAX {
            Err(ErrorView::Other("buffer length exceeds macOS pipe size"@))
        } else {
            Ok(Some(buf_len as u32))
        },
{
    if buf_len == 0 {
        Ok(None)
    } else if buf_len > u32::MAX as usize {
        Err(UsbError::other("buffer length exceeds macOS pipe size"))
    } else {
        Ok(Some(buf_len as u32))
    }
}

/// What a claim takes.
#[derive(Debug, Clone, Copy, PartialEq, Eq, Structural)]
pub enum ClaimStep {
    /// The interface is claimed already.
    Nothing,
    /// The first configuration is to be read.
    ReadConfig,
}

impl MacOsDevice {
    /// A device that was just opened.
    pub fn new() -> (d: MacOsDevice)
        ensures
            d@ == (MacOsView { claimed: Set::empty(), pipes: Map::empty() }),
    {
        MacOsDevice { claimed_interfaces: HashSet::new(), pipe_cache: HashMap::new() }
    }

    /// What a claim of an interface takes.
    pub fn claim_interface(&self, interface: u8) -> (step: ClaimStep)
        ensures
            step == if self@.claimed.contains(interface) {
                ClaimStep::Nothing
            } else {
                ClaimStep::ReadConfig
            },
    {
        if self.claimed_interfaces.contains(&interface) {
            ClaimStep::Nothing
        } else {
            ClaimStep::ReadConfig
        }
    }

    /// Goes on with a claim when the configuration is known: the interface must be one of it,
    /// and is asked for its alternate setting to see that it can be reached.
    pub fn check_claim(config: &ConfigDescriptor, interface: u8) -> (r: Result<RawControl, UsbError>)
        ensures
            outcome(r) == if has_interface(config@.interfaces, interface) {
                Ok(get_interface_request(interface, 1000))
            } else {
                Err(ErrorView::Other(no_interface_text(interface)))
            },
    {
        if interface_exists(config, interface) {
            Ok(get_interface_alt_setting(interface, 1000))
        } else {
            let number: String = string_of(write_numeral(interface as u32, 10).as_slice());
            Err(
                UsbError::Other(
                    "interface ".to_owned().concat(number.as_str()).concat(
                        " not found in configuration",
                    ),
                ),
            )
        }
    }

    /// Ends a claim with the reply of `n` bytes about the alternate setting.
    pub fn finish_claim(&mut self, interface: u8, n: usize, buf: [u8; 1]) -> (r: Result<
        (),
        UsbError,
    >)
        ensures
            outcome(r) == if n < 1 {
                Err(ErrorView::InvalidDescriptor)
            } else {
                Ok(())
            },
            final(self)@ == if n < 1 {
                old(self)@
            } else {
                MacOsView { claimed: old(self)@.claimed.insert(interface), ..old(self)@ }
            },
    {
        match alt_setting_reply(n, buf) {
            Ok(_) => {
                self.claimed_interfaces.insert(interface);
                Ok(())
            },
            Err(e) => Err(e),
        }
    }

    /// What a release of an interface takes: nothing where it is not claimed, else the return
    /// to its first alternate setting.
    pub fn release_interface(&self, interface: u8) -> (r: Option<RawControl>)
        ensures
            r == if self@.claimed.contains(interface) {
                Some(set_interface_request(interface, 0, 1000))
            } else {
                None
            },
    {
        if self.claimed_interfaces.contains(&interface) {
            Some(set_interface_alt_setting(interface, 0, 1000))
        } else {
            None
        }
    }

    /// Ends a release, given how the return to the first alternate setting ended. After a
    /// failure the interface stays claimed.
    pub fn finish_release(&mut self, interface: u8, reply: Result<usize, UsbError>) -> (r: Result<
        (),
        UsbError,
    >)
        ensures
            match reply {
                Ok(_) => r is Ok && final(self)@ == (MacOsView {
                    claimed: old(self)@.claimed.remove(interface),
                    ..old(self)@
                }),
                Err(e) => r == Err::<(), UsbError>(e) && final(self)@ == old(self)@,
            },
    {
        match reply {
            Ok(_) => {
                self.claimed_interfaces.remove(&interface);
                Ok(())
            },
            Err(e) => Err(e),
        }
    }

    /// Remembers the pipes of endpoints. Of several pipes of an endpoint the last one counts.
    pub fn learn_pipes(&mut self, pipes: &[(u8, u8)])
        ensures
            final(self)@.claimed == old(self)@.claimed,
            final(self)@.pipes == with_pipes(old(self)@.pipes, pipes@),
    {
        let ghost before = self.pipe_cache@;
        for i in 0..pipes.len()
            invariant
                self.claimed_interfaces == old(self).claimed_interfaces,
                self.pipe_cache@ == with_pipes(before, pipes@.take(i as int)),
        {
            assert(pipes@.take(i + 1).drop_last() =~= pipes@.take(i as int));
            self.pipe_cache.insert(pipes[i].0, pipes[i].1);
        }
        assert(pipes@.take(pipes@.len() as int) =~= pipes@);
    }

    /// The pipe of an endpoint, which is used after its interface was opened.
    pub fn pipe_of(&self, endpoint: u8, complaint: &str) -> (r: Result<u8, UsbError>)
        ensures
            outcome(r) == if self@.pipes.dom().contains(endpoint) {
                Ok(self@.pipes[endpoint])
            } else {
                Err(ErrorView::Other(endpoint_text(endpoint, complaint@)))
            },
    {
        match self.pipe_cache.get(&endpoint) {
            Some(p) => Ok(*p),
            None => Err(UsbError::Other(write_endpoint_text(endpoint, complaint))),
        }
    }

    /// Forgets all pipes. Another alternate setting may give the endpoints other ones.
    pub fn forget_pipes(&mut self)
        ensures
            final(self)@ == (MacOsView { pipes: Map::empty(), ..old(self)@ }),
    {
        self.pipe_cache.clear();
    }
}

/// The pipes of endpoints after more have been learned, one after the other.
pub open spec fn with_pipes(known: Map<u8, u8>, pipes: Seq<(u8, u8)>) -> Map<u8, u8>
    decreases pipes.len(),
{
    if pipes.len() == 0 {
        known
    } else {
        with_pipes(known, pipes.drop_last()).insert(pipes.last().0, pipes.last().1)
    }
}

/// A release undoes a claim.
pub proof fn law_release_undoes_a_claim(claimed: Set<u8>, interface: u8)
    requires
        !claimed.contains(interface),
    ensures
        claimed.insert(interface).remove(interface) == claimed,
{
    assert(claimed.insert(interface).remove(interface) =~= claimed);
}

/// The number and the direction of a pipe can be told from the address of its endpoint.
pub proof fn law_pipe_address_tells_number_and_direction(direction: u8, number: u8)
    ensures
        pipe_address(direction, number) % 16 == number % 16,
        pipe_address(direction, number) >= 0x80 <==> direction != 0,
{
}

/// The requests about alternate settings name their interface and have the timeout of the
/// caller. The one that selects a setting names that too.
pub proof fn law_requests_name_their_interface(interface: u8, alt: u8, timeout_ms: u32)
    ensures
        ({
            let r = get_interface_request(interface, timeout_ms);
            &&& r.request_type == 0x81 && r.request == 0x0A && r.value == 0 && r.length == 1
            &&& r.index == interface && r.timeout_ms == timeout_ms
        }),
        ({
            let r = set_interface_request(interface, alt, timeout_ms);
            &&& r.request_type == 0x01 && r.request == 0x0B && r.value == alt && r.length == 0
            &&& r.index == interface && r.timeout_ms == timeout_ms
        }),
{
}

/// A configuration has an interface exactly where one of its interfaces has the number.
pub proof fn law_interface_is_found_by_its_number(interfaces: Seq<InterfaceView>, interface: u8)
    ensures
        forall|i: int|
            0 <= i < interfaces.len() ==> has_interface(
                interfaces,
                (#[trigger] interfaces[i]).interface_number,
            ),
        (forall|i: int|
            0 <= i < interfaces.len() ==> (#[trigger] interfaces[i]).interface_number != interface)
            ==> !has_interface(interfaces, interface),
{
}

/// An address has the number of its pipe in the four lowest bits and the direction in bit 7, and
/// nothing else.
pub proof fn law_pipe_address_has_nothing_else(direction: u8, number: u8)
    ensures
        direction == 0 ==> pipe_address(direction, number) == number % 16,
        direction != 0 ==> pipe_address(direction, number) == number % 16 + 128,
{
}

/// A pipe that is learned is known for its endpoint, in place of one that was known before, and
/// the pipes of other endpoints stay.
pub proof fn law_last_learned_pipe_counts(
    known: Map<u8, u8>,
    pipes: Seq<(u8, u8)>,
    endpoint: u8,
    pipe: u8,
    other: u8,
)
    ensures
        with_pipes(known, Seq::empty()) == known,
        ({
            let before = with_pipes(known, pipes);
            let after = with_pipes(known, pipes.push((endpoint, pipe)));
            &&& after.dom().contains(endpoint) && after[endpoint] == pipe
            &&& other != endpoint ==> (after.dom().contains(other) <==> before.dom().contains(
                other,
            ))
            &&& other != endpoint && before.dom().contains(other) ==> after[other] == before[other]
        }),
{
    assert(pipes.push((endpoint, pipe)).drop_last() =~= pipes);
}

/// The complaints tell the number of the interface in decimal digits, and the address of the
/// endpoint in two hexadecimal ones.
pub proof fn law_complaints_tell_the_number(n: u8, complaint: Seq<char>)
    ensures
        no_interface_text(n) == "interface "@ + numeral(n as int, 10)
            + " not found in configuration"@,
        digits_value(numeral(n as int, 10), 10) == n,
        endpoint_text(n, complaint) == "endpoint 0x"@ + hex_fixed(n as int, 2) + complaint,
        digits_value(hex_fixed(n as int, 2), 16) == n,
{
    lemma_numeral(n as int, 10);
    reveal_with_fuel(pow, 3);
    law_hex_fixed_reads_back(n as int, 2);
}

/// A transfer is to move all bytes of its buffer. Only an empty buffer needs no transfer, and
/// only one that a pipe cannot take is refused.
pub proof fn law_transfer_moves_the_whole_buffer(
    buf_len: usize,
    r: Result<Option<u32>, UsbError>,
)
    requires
        call_ensures(transfer_size, (buf_len,), r),
    ensures
        buf_len == 0 ==> r is Ok && r->Ok_0 is None,
        0 < buf_len <= u32::MAX ==> r is Ok && r->Ok_0 is Some && r->Ok_0->0 == buf_len,
        buf_len > u32::MAX ==> r is Err,
{
}

/// The endpoint of a pipe has each property where it belongs.
pub proof fn law_pipe_endpoint_keeps_the_properties(
    direction: u8,
    number: u8,
    transfer_type: u8,
    max_packet_size: u16,
    interval: u8,
    e: EndpointInfo,
)
    requires
        call_ensures(
            pipe_endpoint,
            (direction, number, transfer_type, max_packet_size, interval),
            e,
        ),
    ensures
        e.attributes == transfer_type,
        e.max_packet_size == max_packet_size,
        e.interval == interval,
        e.endpoint_address % 128 == number % 16,
        e.endpoint_address >= 128 <==> direction != 0,
{
}

} // verus!
