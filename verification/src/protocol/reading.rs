//! Reading descriptors over the control pipe: the requests, and what the replies mean.

use vstd::prelude::*;

use crate::error::{outcome, outcome_view, ErrorView, UsbError};
use crate::protocol::control::{raw_request, ControlSetup, RawControl, GET_DESCRIPTOR};
use crate::protocol::descriptor::{
    bos_descriptor_of, config_bytes, config_descriptor_of, device_descriptor_of, hub_descriptor_of,
    law_config_reads_back, BosDescriptor, ConfigView, DeviceDescriptor, HubDescriptor, BOS_TYPE,
    CONFIG_TYPE, DEVICE_TYPE, STRING_TYPE,
};
use crate::utf16::{
    decode_utf16_lossy, law_utf16_reads_back, law_words_read_back, le16, le_words, read_le16,
    read_le_words, utf16_text, utf16_units, word_bytes,
};

verus! {

/// The language of descriptor texts that enumeration asks for: English (US).
pub const ENGLISH_US: u16 = 0x0409;

/// The packet that asks for the device descriptor.
pub fn device_descriptor_request() -> (r: ControlSetup)
    ensures
        r == ControlSetup::descriptor_request(DEVICE_TYPE, 0, 0, 18),
        r.request_type == 0x80 && r.request == 0x06 && r.value == 0x0100 && r.index == 0,
        r.length == 18,
{
    ControlSetup::get_descriptor(DEVICE_TYPE, 0, 0, 18)
}

/// The packet that asks for the header of a configuration, which tells its whole length.
pub fn config_header_request(index: u8) -> (r: ControlSetup)
    ensures
        r == ControlSetup::descriptor_request(CONFIG_TYPE, index, 0, 9),
        r.request_type == 0x80 && r.request == 0x06 && r.value == 0x0200 + index && r.index == 0,
        r.length == 9,
{
    ControlSetup::get_descriptor(CONFIG_TYPE, index, 0, 9)
}

/// The length of the whole configuration, which is never less than that of its header.
pub open spec fn config_length_of(hdr: Seq<u8>) -> Result<u16, ErrorView> {
    if le16(hdr[2], hdr[3]) < 9 {
        Err(ErrorView::InvalidDescriptor)
    } else {
        Ok(le16(hdr[2], hdr[3]))
    }
}

/// Takes the length of the whole configuration from its header.
pub fn config_length(hdr: &[u8; 9]) -> (r: Result<u16, UsbError>)
    ensures
        outcome(r) == config_length_of(hdr@),
{
    let total: u16 = read_le16(hdr[2], hdr[3]);
    if total < 9 {
        Err(UsbError::InvalidDescriptor)
    } else {
        Ok(total)
    }
}

/// The packet that asks for a whole configuration.
pub fn config_request(index: u8, total: u16) -> (r: ControlSetup)
    ensures
        r == ControlSetup::descriptor_request(CONFIG_TYPE, index, 0, total),
        r.request_type == 0x80 && r.request == 0x06 && r.value == 0x0200 + index && r.index == 0,
        r.length == total,
{
    ControlSetup::get_descriptor(CONFIG_TYPE, index, 0, total)
}

/// A device that answers with the bytes of a configuration, whose header tells their number, is
/// asked for all of them, and the configuration is read back.
pub proof fn law_config_is_read_in_two_steps(c: ConfigView)
    requires
        c.total_length == config_bytes(c).len(),
    ensures
        config_length_of(config_bytes(c).take(9)) == Ok::<u16, ErrorView>(c.total_length),
        config_descriptor_of(config_bytes(c).take(c.total_length as int)) == Ok::<
            ConfigView,
            ErrorView,
        >(c),
{
    let b = config_bytes(c);
    assert(b.take(9)[2] == b[2] && b.take(9)[3] == b[3]);
    assert(b.take(c.total_length as int) =~= b);
    law_config_reads_back(c);
}

/// The packet that asks for a text.
pub fn string_request(index: u8, lang: u16) -> (r: ControlSetup)
    ensures
        r == ControlSetup::descriptor_request(STRING_TYPE, index, lang, 255),
        r.request_type == 0x80 && r.request == 0x06 && r.value == 0x0300 + index,
        r.index == lang && r.length == 255,
{
    ControlSetup::get_descriptor(STRING_TYPE, index, lang, 255)
}

/// The text in a reply of `n` bytes: UTF-16 behind the length, which covers the length itself
/// and the type and goes no further than the reply.
pub open spec fn string_of_reply(n: int, b: Seq<u8>) -> Result<Seq<char>, ErrorView> {
    if n < 2 || b[0] < 2 || b[0] > n {
        Err(ErrorView::InvalidDescriptor)
    } else {
        Ok(utf16_text(le_words(b.subrange(2, b[0] as int))))
    }
}

/// Takes the text from a reply of `n` bytes.
pub fn string_reply(n: usize, buf: &[u8; 255]) -> (r: Result<String, UsbError>)
    ensures
        outcome_view(r) == string_of_reply(n as int, buf@),
{
    if n < 2 {
        return Err(UsbError::InvalidDescriptor);
    }
    let len: usize = buf[0] as usize;
    if len < 2 || len > n {
        return Err(UsbError::InvalidDescriptor);
    }
    let bytes: &[u8] = vstd::slice::slice_subrange(vstd::array::array_as_slice(buf), 2, len);
    let words: Vec<u16> = read_le_words(bytes);
    Ok(decode_utf16_lossy(words.as_slice()))
}

/// The descriptor of a text.
pub open spec fn string_descriptor(text: Seq<char>) -> Seq<u8> {
    seq![(2 + 2 * utf16_units(text).len()) as u8, STRING_TYPE] + word_bytes(utf16_units(text))
}

/// A text is read back from its descriptor, whatever the rest of the buffer holds. The length
/// of a descriptor is one byte, so the text has at most 126 units of UTF-16.
pub proof fn law_string_reads_back(text: Seq<char>, buf: Seq<u8>)
    requires
        utf16_units(text).len() <= 126,
        string_descriptor(text).is_prefix_of(buf),
    ensures
        string_of_reply(string_descriptor(text).len() as int, buf) == Ok::<Seq<char>, ErrorView>(
            text,
        ),
{
    let units = utf16_units(text);
    let d = string_descriptor(text);
    assert(buf[0] == d[0]);
    assert(d.len() == 2 + 2 * units.len());
    assert(buf.subrange(2, d.len() as int) =~= word_bytes(units)) by {
        assert forall|i: int| 2 <= i < d.len() implies buf[i] == word_bytes(units)[i - 2] by {
            assert(buf[i] == d[i]);
        }
    }
    law_words_read_back(units);
    law_utf16_reads_back(text);
}

/// The packet that asks for the header of the Binary Object Store, which tells its whole
/// length.
pub fn bos_header_request() -> (r: ControlSetup)
    ensures
        r == ControlSetup::descriptor_request(BOS_TYPE, 0, 0, 5),
        r.request_type == 0x80 && r.request == 0x06 && r.value == 0x0F00 && r.index == 0,
        r.length == 5,
{
    ControlSetup::get_descriptor(BOS_TYPE, 0, 0, 5)
}

/// The largest Binary Object Store that is asked for.
pub const MAX_BOS_LENGTH: u16 = 4096;

/// The length of the Binary Object Store in a header of `n` bytes, which must be complete and
/// carry its type. Of a larger one no more than [`MAX_BOS_LENGTH`] bytes are asked for.
pub open spec fn bos_length_of(n: int, hdr: Seq<u8>) -> Result<u16, ErrorView> {
    if n < 5 || hdr[1] != BOS_TYPE {
        Err(ErrorView::InvalidDescriptor)
    } else if le16(hdr[2], hdr[3]) > MAX_BOS_LENGTH {
        Ok(MAX_BOS_LENGTH)
    } else {
        Ok(le16(hdr[2], hdr[3]))
    }
}

/// Takes the length of the Binary Object Store from a header of `n` bytes, and asks for the
/// whole of it.
pub fn bos_request(n: usize, hdr: &[u8; 5]) -> (r: Result<ControlSetup, UsbError>)
    ensures
        outcome(r) == match bos_length_of(n as int, hdr@) {
            Ok(total) => Ok(ControlSetup::descriptor_request(BOS_TYPE, 0, 0, total)),
            Err(e) => Err(e),
        },
        r matches Ok(setup) ==> setup.request_type == 0x80 && setup.request == 0x06 && setup.value
            == 0x0F00 && setup.index == 0,
{
    if n < 5 || hdr[1] != BOS_TYPE {
        return Err(UsbError::InvalidDescriptor);
    }
    let total: u16 = read_le16(hdr[2], hdr[3]);
    let asked: u16 = if total > MAX_BOS_LENGTH {
        MAX_BOS_LENGTH
    } else {
        total
    };
    Ok(ControlSetup::get_descriptor(BOS_TYPE, 0, 0, asked))
}

/// Takes the Binary Object Store from the first `n` bytes of a buffer.
pub fn bos_reply(n: usize, buf: &[u8]) -> (r: Result<BosDescriptor, UsbError>)
    requires
        n <= buf@.len(),
    ensures
        outcome_view(r) == bos_descriptor_of(buf@.take(n as int)),
{
    let reply: &[u8] = vstd::slice::slice_subrange(buf, 0, n);
    assert(reply@ =~= buf@.take(n as int));
    BosDescriptor::from_bytes(reply)
}

/// The length of the largest hub descriptor.
pub const MAX_HUB_LENGTH: u16 = 71;

/// The request type of an IN request of the device class to the device.
pub const CLASS_IN: u8 = 0xA0;

/// The packet that asks for the hub descriptor. It is one of the device class.
pub fn hub_request() -> (r: ControlSetup)
    ensures
        r == (ControlSetup {
            request_type: CLASS_IN,
            request: GET_DESCRIPTOR,
            value: 0x2900,
            index: 0,
            length: MAX_HUB_LENGTH,
        }),
        r.request_type == 0xA0 && r.request == 0x06 && r.value == 0x2900 && r.index == 0,
        r.length == 71,
{
    ControlSetup {
        request_type: CLASS_IN,
        request: GET_DESCRIPTOR,
        value: 0x2900,
        index: 0,
        length: MAX_HUB_LENGTH,
    }
}

/// Takes the hub descriptor from the first `n` bytes of a buffer.
pub fn hub_reply(n: usize, buf: &[u8; 71]) -> (r: Result<HubDescriptor, UsbError>)
    requires
        n <= 71,
    ensures
        outcome_view(r) == hub_descriptor_of(buf@.take(n as int)),
{
    let reply: &[u8] = vstd::slice::slice_subrange(vstd::array::array_as_slice(buf), 0, n);
    assert(reply@ =~= buf@.take(n as int));
    HubDescriptor::from_bytes(reply)
}

// ---------------------------------------------------------------------------
// Drivers that take raw requests and count the bytes of a reply
// ---------------------------------------------------------------------------

/// How long such a driver waits for a descriptor, in milliseconds.
pub const DESCRIPTOR_TIMEOUT_MS: u32 = 5000;

/// The raw request of a packet that asks for a descriptor, into a buffer of the length that it
/// asks for.
pub fn raw_descriptor_request(setup: ControlSetup) -> (r: RawControl)
    ensures
        r == raw_request(setup, setup.length as int, DESCRIPTOR_TIMEOUT_MS),
        r.request_type == setup.request_type && r.request == setup.request,
        r.value == setup.value && r.index == setup.index && r.length == setup.length,
        r.timeout_ms == 5000,
{
    RawControl::new(setup, setup.length as usize, DESCRIPTOR_TIMEOUT_MS)
}

/// Takes the device descriptor from a reply of `n` bytes, which must be complete.
pub fn counted_device_descriptor(n: usize, buf: &[u8; 18]) -> (r: Result<
    DeviceDescriptor,
    UsbError,
>)
    ensures
        outcome(r) == if n < 18 {
            Err(ErrorView::InvalidDescriptor)
        } else {
            device_descriptor_of(buf@)
        },
{
    if n < 18 {
        return Err(UsbError::InvalidDescriptor);
    }
    DeviceDescriptor::from_bytes(vstd::array::array_as_slice(buf))
}

/// Takes the length of a configuration from a header of `n` bytes, which must be complete, and
/// asks for the whole of it.
pub fn counted_config_request(index: u8, n: usize, hdr: &[u8; 9]) -> (r: Result<RawControl, UsbError>)
    ensures
        outcome(r) == if n < 9 {
            Err(ErrorView::InvalidDescriptor)
        } else {
            match config_length_of(hdr@) {
                Ok(total) => Ok(
                    raw_request(
                        ControlSetup::descriptor_request(CONFIG_TYPE, index, 0, total),
                        total as int,
                        DESCRIPTOR_TIMEOUT_MS,
                    ),
                ),
                Err(e) => Err(e),
            }
        },
        r matches Ok(raw) ==> {
            &&& raw.request_type == 0x80 && raw.request == 0x06 && raw.value == 0x0200 + index
            &&& raw.index == 0 && raw.timeout_ms == 5000
            &&& raw.length == hdr[2] + 256 * hdr[3]
        },
{
    if n < 9 {
        return Err(UsbError::InvalidDescriptor);
    }
    match config_length(hdr) {
        Ok(total) => Ok(raw_descriptor_request(config_request(index, total))),
        Err(e) => Err(e),
    }
}

/// The length of a configuration is the one in its header, and one that would not hold the
/// header is invalid.
pub proof fn law_config_length_is_that_of_the_header(hdr: Seq<u8>)
    requires
        hdr.len() == 9,
    ensures
        hdr[2] + 256 * hdr[3] >= 9 ==> (config_length_of(hdr) matches Ok(n) && n == hdr[2] + 256
            * hdr[3]),
        hdr[2] + 256 * hdr[3] < 9 ==> (config_length_of(hdr) matches Err(e)
            && e is InvalidDescriptor),
{
}

/// A reply is read as a text exactly where it has a length and a type, and its length covers
/// these and goes no further than the reply. The text then has the UTF-16 of all bytes that the
/// length covers behind the two, and of no others.
pub proof fn law_string_reply_is_read_by_its_length(n: int, b: Seq<u8>)
    requires
        b.len() == 255,
        0 <= n,
    ensures
        string_of_reply(n, b) is Ok <==> n >= 2 && 2 <= b[0] <= n,
        string_of_reply(n, b) matches Err(e) ==> e is InvalidDescriptor,
        string_of_reply(n, b) matches Ok(text) ==> text == utf16_text(
            Seq::new(
                ((b[0] - 2) / 2) as nat,
                |i: int| (b[2 + 2 * i] + 256 * b[3 + 2 * i]) as u16,
            ),
        ),
{
    if n >= 2 && 2 <= b[0] <= n {
        let words = Seq::new(
            ((b[0] - 2) / 2) as nat,
            |i: int| (b[2 + 2 * i] + 256 * b[3 + 2 * i]) as u16,
        );
        assert(le_words(b.subrange(2, b[0] as int)) =~= words);
    }
}

/// Of a Binary Object Store as many bytes are asked for as its header tells, but no more than
/// 4096. A header that is not complete or not of its type is invalid.
pub proof fn law_bos_length_is_that_of_the_header(n: int, hdr: Seq<u8>)
    requires
        hdr.len() == 5,
    ensures
        bos_length_of(n, hdr) is Ok <==> n >= 5 && hdr[1] == 0x0F,
        bos_length_of(n, hdr) matches Err(e) ==> e is InvalidDescriptor,
        bos_length_of(n, hdr) matches Ok(total) ==> {
            &&& hdr[2] + 256 * hdr[3] <= 4096 ==> total == hdr[2] + 256 * hdr[3]
            &&& hdr[2] + 256 * hdr[3] > 4096 ==> total == 4096
        },
{
}

} // verus!
