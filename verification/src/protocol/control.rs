//! Control requests.

use vstd::prelude::*;
use std::time::Duration;

use crate::error::{outcome, ErrorView, UsbError};

verus! {

/// The request type of an IN request of the standard to the device.
pub const STANDARD_IN: u8 = 0x80;

/// The standard request that reads a descriptor.
pub const GET_DESCRIPTOR: u8 = 0x06;

/// The setup packet of a control transfer.
#[derive(Debug, Clone, Copy, PartialEq, Eq, Structural)]
pub struct ControlSetup {
    pub request_type: u8,
    pub request: u8,
    pub value: u16,
    pub index: u16,
    pub length: u16,
}

impl ControlSetup {
    /// The packet that asks for `length` bytes of a descriptor.
    pub open spec fn descriptor_request(
        descriptor_type: u8,
        index: u8,
        lang: u16,
        length: u16,
    ) -> ControlSetup {
        ControlSetup {
            request_type: STANDARD_IN,
            request: GET_DESCRIPTOR,
            value: (256 * descriptor_type + index) as u16,
            index: lang,
            length,
        }
    }

    /// Asks for `length` bytes of a descriptor: its type and index make the value of the
    /// request, the language its index.
    pub fn get_descriptor(descriptor_type: u8, index: u8, lang: u16, length: u16) -> (r: ControlSetup)
        ensures
            r == ControlSetup::descriptor_request(descriptor_type, index, lang, length),
    {
        ControlSetup {
            request_type: STANDARD_IN,
            request: GET_DESCRIPTOR,
            value: 256 * (descriptor_type as u16) + index as u16,
            index: lang,
            length,
        }
    }

    /// Whether data goes from the device to the host.
    pub open spec fn reads(self) -> bool {
        self.request_type >= 0x80
    }
}

/// What `Duration::as_millis` gives for a duration.
pub uninterp spec fn duration_millis(d: Duration) -> u128;

/// `Duration::as_millis` gives the whole milliseconds of a duration, which this contract only
/// names.
pub assume_specification[ Duration::as_millis ](d: &Duration) -> (ms: u128)
    ensures
        ms == duration_millis(*d),
;

/// A number of milliseconds, with the largest `u32` for all that are larger.
pub open spec fn clamped_millis(ms: u128) -> u32 {
    if ms > u32::MAX {
        u32::MAX
    } else {
        ms as u32
    }
}

/// Brings a number of milliseconds into the range of a `u32`.
pub fn clamp_millis(ms: u128) -> (r: u32)
    ensures
        r == clamped_millis(ms),
{
    if ms > u32::MAX as u128 {
        u32::MAX
    } else {
        ms as u32
    }
}

/// The timeout of a transfer in milliseconds.
pub fn timeout_millis(timeout: Duration) -> (r: u32)
    ensures
        r == clamped_millis(duration_millis(timeout)),
{
    clamp_millis(timeout.as_millis())
}

/// A control request as a driver takes it: the setup packet, with the length of the data
/// buffer in the place of its length, and a timeout.
#[derive(Debug, Clone, Copy, PartialEq, Eq, Structural)]
pub struct RawControl {
    pub request_type: u8,
    pub request: u8,
    pub value: u16,
    pub index: u16,
    pub length: u16,
    pub timeout_ms: u32,
}

/// The request of `setup` for a data buffer of `buf_len` bytes, of whose length the driver
/// takes 16 bits.
pub open spec fn raw_request(setup: ControlSetup, buf_len: int, timeout_ms: u32) -> RawControl {
    RawControl {
        request_type: setup.request_type,
        request: setup.request,
        value: setup.value,
        index: setup.index,
        length: (buf_len % 0x1_0000) as u16,
        timeout_ms,
    }
}

impl RawControl {
    /// Fits a setup packet to a data buffer.
    pub fn new(setup: ControlSetup, buf_len: usize, timeout_ms: u32) -> (r: RawControl)
        ensures
            r == raw_request(setup, buf_len as int, timeout_ms),
    {
        RawControl {
            request_type: setup.request_type,
            request: setup.request,
            value: setup.value,
            index: setup.index,
            length: (buf_len % 0x1_0000) as u16,
            timeout_ms,
        }
    }
}

/// Where the data of a control transfer is.
#[derive(Debug, Clone, Copy, PartialEq, Eq, Structural)]
pub enum DataBuffer {
    /// In the buffer that the caller supplied.
    Supplied,
    /// In a buffer of this many zeros.
    Zeros(u16),
}

/// A control transfer that is ready for the driver.
#[derive(Debug, Clone, Copy, PartialEq, Eq, Structural)]
pub struct ControlPlan {
    pub request: RawControl,
    pub buffer: DataBuffer,
}

/// How a control transfer is done. It uses the caller's buffer where there is one. Without one,
/// an IN transfer is refused, and an OUT transfer sends as many zeros as its packet announces.
pub open spec fn planned_transfer(
    setup: ControlSetup,
    supplied: Option<usize>,
    timeout_ms: u32,
) -> Result<ControlPlan, ErrorView> {
    match supplied {
        Some(len) => Ok(
            ControlPlan {
                request: raw_request(setup, len as int, timeout_ms),
                buffer: DataBuffer::Supplied,
            },
        ),
        None => if setup.reads() {
            Err(ErrorView::Other("IN transfer requires a data buffer"@))
        } else {
            Ok(
                ControlPlan {
                    request: raw_request(setup, setup.length as int, timeout_ms),
                    buffer: DataBuffer::Zeros(setup.length),
                },
            )
        },
    }
}

/// Plans a control transfer for a data buffer of the given length, if the caller supplied one.
pub fn plan_transfer(setup: ControlSetup, supplied: Option<usize>, timeout: Duration) -> (r: Result<
    ControlPlan,
    UsbError,
>)
    ensures
        outcome(r) == planned_transfer(setup, supplied, clamped_millis(duration_millis(timeout))),
{
    let timeout_ms: u32 = timeout_millis(timeout);
    match supplied {
        Some(len) => Ok(
            ControlPlan {
                request: RawControl::new(setup, len, timeout_ms),
                buffer: DataBuffer::Supplied,
            },
        ),
        None => if setup.request_type >= 0x80 {
            Err(UsbError::other("IN transfer requires a data buffer"))
        } else {
            Ok(
                ControlPlan {
                    request: RawControl::new(setup, setup.length as usize, timeout_ms),
                    buffer: DataBuffer::Zeros(setup.length),
                },
            )
        },
    }
}

// ---------------------------------------------------------------------------
// Laws
// ---------------------------------------------------------------------------

/// A planned transfer asks for what its packet says, field by field and whatever its direction,
/// and has the timeout of the caller. It has the length of the caller's buffer, of which 16 bits
/// count, or without one that of the packet.
pub proof fn law_plan_keeps_the_packet(
    setup: ControlSetup,
    supplied: Option<usize>,
    timeout_ms: u32,
)
    ensures
        planned_transfer(setup, supplied, timeout_ms) matches Ok(plan) ==> {
            &&& plan.request.request_type == setup.request_type
            &&& plan.request.request == setup.request
            &&& plan.request.value == setup.value
            &&& plan.request.index == setup.index
            &&& plan.request.timeout_ms == timeout_ms
            &&& supplied matches Some(len) ==> plan.buffer == DataBuffer::Supplied
                && plan.request.length == len % 0x1_0000
            &&& supplied is None ==> plan.buffer == DataBuffer::Zeros(setup.length)
                && plan.request.length == setup.length
        },
{
}

/// A transfer is refused only where it reads and there is no buffer for what it reads.
pub proof fn law_only_a_read_without_a_buffer_is_refused(
    setup: ControlSetup,
    supplied: Option<usize>,
    timeout_ms: u32,
)
    ensures
        planned_transfer(setup, supplied, timeout_ms) is Err <==> supplied is None
            && setup.request_type >= 0x80,
        planned_transfer(setup, supplied, timeout_ms) matches Err(e) ==> e == ErrorView::Other(
            "IN transfer requires a data buffer"@,
        ),
{
}

/// A raw request has the fields of its packet and its own length and timeout.
pub proof fn law_raw_request_keeps_the_packet(setup: ControlSetup, buf_len: int, timeout_ms: u32)
    requires
        0 <= buf_len,
    ensures
        ({
            let r = raw_request(setup, buf_len, timeout_ms);
            &&& r.request_type == setup.request_type && r.request == setup.request
            &&& r.value == setup.value && r.index == setup.index
            &&& r.timeout_ms == timeout_ms
            &&& r.length == buf_len % 0x1_0000
        }),
{
}

/// A request for a descriptor is a standard IN request, and tells the type, the index, the
/// language and the length that it was made for.
pub proof fn law_descriptor_request_tells_what_it_asks_for(
    descriptor_type: u8,
    index: u8,
    lang: u16,
    length: u16,
)
    ensures
        ({
            let r = ControlSetup::descriptor_request(descriptor_type, index, lang, length);
            &&& r.request_type == 0x80 && r.request == 0x06 && r.reads()
            &&& r.value / 0x100 == descriptor_type && r.value % 0x100 == index
            &&& r.index == lang && r.length == length
        }),
{
}

/// Data goes to the host exactly where bit 7 of the request type is set.
pub proof fn law_direction_is_bit_seven(setup: ControlSetup)
    ensures
        setup.reads() <==> setup.request_type & 0x80 != 0,
{
    let t = setup.request_type;
    assert((t >= 0x80) == (t & 0x80 != 0)) by (bit_vector);
}

/// A number of milliseconds that fits is kept, and any other becomes the largest that does.
pub proof fn law_millis_are_clamped(ms: u128)
    ensures
        ms <= 0xFFFF_FFFF ==> clamped_millis(ms) == ms,
        ms > 0xFFFF_FFFF ==> clamped_millis(ms) == 0xFFFF_FFFFu32,
{
}

/// Planning a transfer gives a request with every field of its packet, in either direction and
/// with a buffer or without. Only a read without a buffer is refused.
pub proof fn law_planning_keeps_the_packet(
    setup: ControlSetup,
    supplied: Option<usize>,
    timeout: Duration,
    r: Result<ControlPlan, UsbError>,
)
    requires
        call_ensures(plan_transfer, (setup, supplied, timeout), r),
    ensures
        r is Err <==> supplied is None && setup.request_type >= 0x80,
        r matches Ok(plan) ==> {
            &&& plan.request.request_type == setup.request_type
            &&& plan.request.request == setup.request
            &&& plan.request.value == setup.value
            &&& plan.request.index == setup.index
            &&& duration_millis(timeout) <= u32::MAX ==> plan.request.timeout_ms
                == duration_millis(timeout)
            &&& supplied matches Some(len) ==> plan.request.length == len % 0x1_0000
                && plan.buffer is Supplied
            &&& supplied is None ==> plan.request.length == setup.length && plan.buffer
                == DataBuffer::Zeros(setup.length)
        },
{
    law_plan_keeps_the_packet(setup, supplied, clamped_millis(duration_millis(timeout)));
}

} // verus!
