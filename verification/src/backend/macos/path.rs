//! What the IORegistry tells about a device, and the paths that are made of it.

use vstd::prelude::*;
use vstd::string::StringExecFns;

use crate::error::{outcome, ErrorView, UsbError};
use crate::numeral::{
    all_digits, digit_value, digits_value, hex_fixed, law_hex_fixed_reads_back,
    law_numeral_reads_back, lemma_hex_fixed, lemma_numeral, lemma_value_grows, numeral,
    parse_unsigned, unsigned_part, unsigned_value, write_hex_fixed, write_numeral,
};
use vstd::arithmetic::power::pow;
use crate::protocol::device_info::{text_view, DeviceInfo, DeviceInfoView};
use crate::text::{
    chars_of, copied, first_index, index_of, is_white, joined, law_splitting_undoes_joining,
    lemma_first_index, lemma_nothing_to_trim,
    lemma_split, split, string_of, trim, trimmed,
};

verus! {

broadcast use vstd::string::group_string_axioms;

/// The properties of a device in the IORegistry.
#[derive(Debug)]
pub struct RegistryProperties {
    pub id_vendor: Option<i64>,
    pub id_product: Option<i64>,
    pub bus_number: Option<i64>,
    pub address: Option<i64>,
    pub vendor_name: Option<String>,
    pub product_name: Option<String>,
    pub serial_number: Option<String>,
}

/// The lowest 8 bits of a property, or 0 where it is missing.
pub open spec fn byte_of(property: Option<i64>) -> u8 {
    match property {
        Some(n) => #[verifier::truncate] (n as u8),
        None => 0,
    }
}

/// Takes the lowest 8 bits of a property.
fn read_byte(property: Option<i64>) -> (n: u8)
    ensures
        n == byte_of(property),
{
    match property {
        Some(n) =>
            #[verifier::truncate]
            (n as u8),
        None => 0,
    }
}

/// The path of a device.
pub open spec fn device_path(bus: u8, addr: u8, vid: u16, pid: u16) -> Seq<char> {
    "iokit:"@ + (bus_part(bus).push(',') + (addr_part(addr).push(',') + (vid_part(vid).push(',')
        + pid_part(pid))))
}

pub open spec fn bus_part(bus: u8) -> Seq<char> {
    "bus="@ + numeral(bus as int, 10)
}

pub open spec fn addr_part(addr: u8) -> Seq<char> {
    "addr="@ + numeral(addr as int, 10)
}

pub open spec fn vid_part(vid: u16) -> Seq<char> {
    "vid="@ + hex_fixed(vid as int, 4)
}

pub open spec fn pid_part(pid: u16) -> Seq<char> {
    "pid="@ + hex_fixed(pid as int, 4)
}

/// Makes the path of a device.
fn make_path(bus: u8, addr: u8, vid: u16, pid: u16) -> (path: String)
    ensures
        path@ == device_path(bus, addr, vid, pid),
{
    let bus_text: String = string_of(write_numeral(bus as u32, 10).as_slice());
    let addr_text: String = string_of(write_numeral(addr as u32, 10).as_slice());
    let vid_text: String = string_of(write_hex_fixed(vid as u32, 4).as_slice());
    let pid_text: String = string_of(write_hex_fixed(pid as u32, 4).as_slice());
    let mut path: String = "iokit:bus=".to_owned();
    path.append(bus_text.as_str());
    path.append(",addr=");
    path.append(addr_text.as_str());
    path.append(",vid=");
    path.append(vid_text.as_str());
    path.append(",pid=");
    path.append(pid_text.as_str());
    proof {
        reveal_strlit("iokit:bus=");
        reveal_strlit("iokit:");
        reveal_strlit("bus=");
        reveal_strlit(",addr=");
        reveal_strlit("addr=");
        reveal_strlit(",vid=");
        reveal_strlit("vid=");
        reveal_strlit(",pid=");
        reveal_strlit("pid=");
        assert("iokit:bus="@ =~= "iokit:"@ + "bus="@);
        assert(",addr="@ =~= seq![','] + "addr="@);
        assert(",vid="@ =~= seq![','] + "vid="@);
        assert(",pid="@ =~= seq![','] + "pid="@);
        assert(path@ =~= device_path(bus, addr, vid, pid));
    }
    path
}

/// The device that registry properties describe. One without a vendor and a product number is
/// left out.
pub open spec fn registered_device(p: RegistryProperties) -> Option<DeviceInfoView> {
    match (p.id_vendor, p.id_product) {
        (Some(v), Some(n)) => {
            let vid = #[verifier::truncate] (v as u16);
            let pid = #[verifier::truncate] (n as u16);
            let bus = byte_of(p.bus_number);
            let addr = byte_of(p.address);
            Some(
                DeviceInfoView {
                    vendor_id: vid,
                    product_id: pid,
                    bus_number: bus,
                    device_address: addr,
                    path: device_path(bus, addr, vid, pid),
                    manufacturer: text_view(p.vendor_name),
                    product: text_view(p.product_name),
                    serial_number: text_view(p.serial_number),
                },
            )
        },
        _ => None,
    }
}

/// Makes the entry of a device in the list of devices.
pub fn device_info_from_service(p: RegistryProperties) -> (r: Option<DeviceInfo>)
    ensures
        match r {
            Some(info) => registered_device(p) == Some(info@),
            None => registered_device(p) is None,
        },
{
    let vendor_id: u16 = match p.id_vendor {
        Some(v) =>
            #[verifier::truncate]
            (v as u16),
        None => return None,
    };
    let product_id: u16 = match p.id_product {
        Some(n) =>
            #[verifier::truncate]
            (n as u16),
        None => return None,
    };
    let bus_number: u8 = read_byte(p.bus_number);
    let device_address: u8 = read_byte(p.address);
    Some(
        DeviceInfo {
            vendor_id,
            product_id,
            bus_number,
            device_address,
            path: make_path(bus_number, device_address, vendor_id, product_id),
            manufacturer: p.vendor_name,
            product: p.product_name,
            serial_number: p.serial_number,
        },
    )
}

/// Whether a service with the given properties is the device with a bus number and an address.
pub fn is_service_at(bus_number: Option<i64>, address: Option<i64>, bus: u8, addr: u8) -> (b: bool)
    ensures
        b == (byte_of(bus_number) == bus && byte_of(address) == addr),
{
    read_byte(bus_number) == bus && read_byte(address) == addr
}

// ---------------------------------------------------------------------------
// Reading a path
// ---------------------------------------------------------------------------

/// The key of a part of a path: what stands in front of the first equals sign.
pub open spec fn key_of(part: Seq<char>) -> Seq<char> {
    trimmed(part.take(first_index(part, '=')))
}

/// The value of a part of a path: what stands behind the first equals sign.
pub open spec fn value_of(part: Seq<char>) -> Seq<char> {
    let n = first_index(part, '=');
    if n < part.len() {
        trimmed(part.skip(n + 1))
    } else {
        trimmed(Seq::empty())
    }
}

/// The number of the last part with the given key.
pub open spec fn number_of(parts: Seq<Seq<char>>, key: Seq<char>) -> Option<int>
    decreases parts.len(),
{
    if parts.len() == 0 {
        None
    } else if key_of(parts.last()) == key {
        unsigned_value(value_of(parts.last()), 10, 0xFF)
    } else {
        number_of(parts.drop_last(), key)
    }
}

/// The parts of a path, which may begin with `iokit:`.
pub open spec fn path_parts(path: Seq<char>) -> Seq<Seq<char>> {
    split(
        if "iokit:"@.is_prefix_of(path) {
            path.skip("iokit:"@.len() as int)
        } else {
            path
        },
        ',',
    )
}

/// The bus number and the address in a path.
pub open spec fn place_in_path(path: Seq<char>) -> Result<(u8, u8), ErrorView> {
    match (number_of(path_parts(path), "bus"@), number_of(path_parts(path), "addr"@)) {
        (Some(bus), Some(addr)) => Ok((bus as u8, addr as u8)),
        (None, _) => Err(ErrorView::Other("invalid iokit path (missing bus): "@ + path)),
        (_, None) => Err(ErrorView::Other("invalid iokit path (missing addr): "@ + path)),
    }
}

/// Whether the characters are those of a literal.
fn is_text(chars: &[char], text: &str) -> (b: bool)
    ensures
        b == (chars@ == text@),
{
    let t: Vec<char> = chars_of(text);
    if chars.len() != t.len() {
        return false;
    }
    for i in 0..chars.len()
        invariant
            chars@.len() == t@.len(),
            t@ == text@,
            forall|j: int| 0 <= j < i ==> chars@[j] == t@[j],
    {
        if chars[i] != t[i] {
            return false;
        }
    }
    assert(chars@ =~= t@);
    true
}

/// Reads the number of a part with the given key.
fn read_value(value: &[char]) -> (n: Option<u8>)
    ensures
        match n {
            Some(n) => unsigned_value(value@, 10, 0xFF) == Some(n as int),
            None => unsigned_value(value@, 10, 0xFF) is None,
        },
{
    match parse_unsigned(value, 10, 0xFF) {
        Some(n) => Some(n as u8),
        None => None,
    }
}

/// The optional number as an integer.
spec fn number_view(n: Option<u8>) -> Option<int> {
    match n {
        Some(n) => Some(n as int),
        None => None,
    }
}

/// Parse the "iokit:bus=B,addr=A,..." path back into (bus, addr).
pub fn parse_iokit_path(path: &str) -> (r: Result<(u8, u8), UsbError>)
    ensures
        outcome(r) == place_in_path(path@),
{
    let chars: Vec<char> = chars_of(path);
    let prefix: Vec<char> = chars_of("iokit:");
    let n: usize = prefix.len();
    let mut pos: usize = 0;
    if chars.len() >= n && is_text(
        vstd::slice::slice_subrange(chars.as_slice(), 0, n),
        "iokit:",
    ) {
        assert("iokit:"@.is_prefix_of(path@)) by {
            assert(path@.take(n as int) =~= path@.subrange(0, n as int));
        }
        pos = n;
    } else {
        assert(!"iokit:"@.is_prefix_of(path@)) by {
            if "iokit:"@.is_prefix_of(path@) {
                assert(path@.subrange(0, n as int) =~= "iokit:"@);
            }
        }
        assert(chars@.skip(0) =~= path@);
    }
    let ghost all = path_parts(path@);
    let ghost mut done: Seq<Seq<char>> = Seq::empty();
    let mut bus: Option<u8> = None;
    let mut addr: Option<u8> = None;
    assert(done + split(chars@.skip(pos as int), ',') =~= all);
    loop
        invariant_except_break
            pos <= chars.len(),
            done + split(chars@.skip(pos as int), ',') == all,
            number_view(bus) == number_of(done, "bus"@),
            number_view(addr) == number_of(done, "addr"@),
        ensures
            number_view(bus) == number_of(all, "bus"@),
            number_view(addr) == number_of(all, "addr"@),
        decreases chars@.len() - pos,
    {
        let end: usize = index_of(chars.as_slice(), pos, ',');
        let ghost rest = chars@.skip(pos as int);
        let ghost part_view = chars@.subrange(pos as int, end as int);
        let part: Vec<char> = copied(chars.as_slice(), pos, end);
        assert(part_view =~= rest.take(end - pos));
        let eq: usize = index_of(part.as_slice(), 0, '=');
        assert(part@.skip(0) =~= part@);
        let key: Vec<char> = trim(vstd::slice::slice_subrange(part.as_slice(), 0, eq));
        assert(part@.subrange(0, eq as int) =~= part@.take(eq as int));
        let value_start: usize = if eq < part.len() {
            eq + 1
        } else {
            eq
        };
        let value: Vec<char> = trim(
            vstd::slice::slice_subrange(part.as_slice(), value_start, part.len()),
        );
        assert(value@ == value_of(part@)) by {
            if eq < part@.len() {
                assert(part@.subrange(eq + 1, part@.len() as int) =~= part@.skip(eq + 1));
            } else {
                assert(part@.subrange(eq as int, part@.len() as int) =~= Seq::<char>::empty());
            }
        }
        let ghost more = done.push(part_view);
        assert(more.drop_last() =~= done);
        proof {
            reveal_strlit("bus");
            reveal_strlit("addr");
            assert("bus"@.len() != "addr"@.len());
        }
        if is_text(key.as_slice(), "bus") {
            bus = read_value(value.as_slice());
        } else if is_text(key.as_slice(), "addr") {
            addr = read_value(value.as_slice());
        }
        if end == chars.len() {
            assert(rest.take(end - pos) =~= rest);
            assert(done + seq![rest] =~= more);
            break;
        }
        assert(rest.skip(end - pos + 1) =~= chars@.skip(end + 1));
        assert(done + (seq![part_view] + split(chars@.skip(end + 1), ',')) =~= more + split(
            chars@.skip(end + 1),
            ',',
        ));
        proof {
            done = more;
        }
        pos = end + 1;
    }
    match (bus, addr) {
        (Some(bus), Some(addr)) => Ok((bus, addr)),
        (None, _) => Err(
            UsbError::Other("invalid iokit path (missing bus): ".to_owned().concat(path)),
        ),
        (_, None) => Err(
            UsbError::Other("invalid iokit path (missing addr): ".to_owned().concat(path)),
        ),
    }
}

// ---------------------------------------------------------------------------
// Laws
// ---------------------------------------------------------------------------

/// Key and value of a part that is made of both.
proof fn lemma_part(key: Seq<char>, value: Seq<char>)
    requires
        !key.contains('='),
        trimmed(key) == key,
        trimmed(value) == value,
    ensures
        key_of(key.push('=') + value) == key,
        value_of(key.push('=') + value) == value,
{
    let part = key.push('=') + value;
    let n = key.len() as int;
    assert forall|i: int| 0 <= i < n implies part[i] != '=' by {
        assert(key.contains(key[i]));
    }
    lemma_first_index(part, '=', n);
    assert(part.take(n) =~= key);
    assert(part.skip(n + 1) =~= value);
}

/// Whether a text has characters only that are neither separators nor white space.
spec fn is_plain(s: Seq<char>) -> bool {
    forall|i: int| 0 <= i < s.len() ==> #[trigger] s[i] != ',' && s[i] != '=' && !is_white(s[i])
}

/// Digits are neither separators nor white space.
proof fn lemma_digits_are_plain(s: Seq<char>, radix: int)
    requires
        all_digits(s, radix),
        radix <= 36,
    ensures
        is_plain(s),
{
    assert forall|i: int| 0 <= i < s.len() implies #[trigger] s[i] != ',' && s[i] != '='
        && !is_white(s[i]) by {
        assert(digit_value(s[i]) < 36);
    }
}

/// A part that is made of a plain key and a plain value has no separator, and both can be taken
/// from it.
proof fn lemma_plain_part(key: Seq<char>, value: Seq<char>)
    requires
        is_plain(key),
        is_plain(value),
    ensures
        !(key.push('=') + value).contains(','),
        key_of(key.push('=') + value) == key,
        value_of(key.push('=') + value) == value,
{
    let part = key.push('=') + value;
    assert forall|i: int| 0 <= i < part.len() implies part[i] != ',' by {
        if i < key.len() {
            assert(part[i] == key[i]);
        } else if i > key.len() {
            assert(part[i] == value[i - key.len() - 1]);
        }
    }
    lemma_nothing_to_trim(key);
    lemma_nothing_to_trim(value);
    lemma_part(key, value);
}

/// The parts of the path of a device have the keys and values that they were made of.
proof fn lemma_device_parts(bus: u8, addr: u8, vid: u16, pid: u16)
    ensures
        !bus_part(bus).contains(',') && !addr_part(addr).contains(','),
        !vid_part(vid).contains(',') && !pid_part(pid).contains(','),
        key_of(bus_part(bus)) == "bus"@ && key_of(addr_part(addr)) == "addr"@,
        value_of(bus_part(bus)) == numeral(bus as int, 10),
        value_of(addr_part(addr)) == numeral(addr as int, 10),
        key_of(vid_part(vid)) == seq!['v', 'i', 'd'] && key_of(pid_part(pid)) == seq![
            'p',
            'i',
            'd',
        ],
{
    lemma_numeral(bus as int, 10);
    lemma_numeral(addr as int, 10);
    lemma_hex_fixed(vid as int, 4);
    lemma_hex_fixed(pid as int, 4);
    lemma_digits_are_plain(numeral(bus as int, 10), 10);
    lemma_digits_are_plain(numeral(addr as int, 10), 10);
    lemma_digits_are_plain(hex_fixed(vid as int, 4), 16);
    lemma_digits_are_plain(hex_fixed(pid as int, 4), 16);
    reveal_strlit("bus=");
    reveal_strlit("addr=");
    reveal_strlit("vid=");
    reveal_strlit("pid=");
    reveal_strlit("bus");
    reveal_strlit("addr");
    assert("bus="@ =~= "bus"@.push('='));
    assert("addr="@ =~= "addr"@.push('='));
    assert("vid="@ =~= seq!['v', 'i', 'd'].push('='));
    assert("pid="@ =~= seq!['p', 'i', 'd'].push('='));
    lemma_plain_part("bus"@, numeral(bus as int, 10));
    lemma_plain_part("addr"@, numeral(addr as int, 10));
    lemma_plain_part(seq!['v', 'i', 'd'], hex_fixed(vid as int, 4));
    lemma_plain_part(seq!['p', 'i', 'd'], hex_fixed(pid as int, 4));
}

/// The path of a device is split into the parts that it was made of.
proof fn lemma_path_parts(bus: u8, addr: u8, vid: u16, pid: u16)
    ensures
        path_parts(device_path(bus, addr, vid, pid)) == seq![
            bus_part(bus),
            addr_part(addr),
            vid_part(vid),
            pid_part(pid),
        ],
{
    let (b, a, v, p) = (bus_part(bus), addr_part(addr), vid_part(vid), pid_part(pid));
    let path = device_path(bus, addr, vid, pid);
    let rest = b.push(',') + (a.push(',') + (v.push(',') + p));
    lemma_device_parts(bus, addr, vid, pid);
    assert(path.take("iokit:"@.len() as int) =~= "iokit:"@);
    assert("iokit:"@.is_prefix_of(path));
    assert(path.skip("iokit:"@.len() as int) =~= rest);
    lemma_split(b, a.push(',') + (v.push(',') + p), ',');
    lemma_split(a, v.push(',') + p, ',');
    lemma_split(v, p, ',');
    lemma_split(p, Seq::empty(), ',');
    assert(path_parts(path) =~= seq![b, a, v, p]);
}

/// The path of a device leads back to its bus number and its address.
pub proof fn law_path_reads_back(bus: u8, addr: u8, vid: u16, pid: u16)
    ensures
        place_in_path(device_path(bus, addr, vid, pid)) == Ok::<(u8, u8), ErrorView>((bus, addr)),
{
    lemma_device_parts(bus, addr, vid, pid);
    lemma_path_parts(bus, addr, vid, pid);
    law_numeral_reads_back(bus as int, 10, 0xFF);
    law_numeral_reads_back(addr as int, 10, 0xFF);
    reveal_strlit("bus");
    reveal_strlit("addr");
    assert("bus"@[0] == 'b');
    assert("addr"@[0] == 'a');
    assert(seq!['v', 'i', 'd'][0] == 'v' && seq!['p', 'i', 'd'][0] == 'p');
    let parts = path_parts(device_path(bus, addr, vid, pid));
    let p3 = parts.drop_last();
    let p2 = p3.drop_last();
    let p1 = p2.drop_last();
    assert(parts.last() == pid_part(pid));
    assert(p3.last() == vid_part(vid));
    assert(p2.last() == addr_part(addr));
    assert(p1.last() == bus_part(bus));
    assert(number_of(parts, "bus"@) == number_of(p3, "bus"@));
    assert(number_of(p3, "bus"@) == number_of(p2, "bus"@));
    assert(number_of(p2, "bus"@) == number_of(p1, "bus"@));
    assert(number_of(parts, "addr"@) == number_of(p3, "addr"@));
    assert(number_of(p3, "addr"@) == number_of(p2, "addr"@));
}

/// A property is kept where it fits, and otherwise cut to its lowest bits. A missing one counts
/// as 0.
pub proof fn law_property_keeps_its_lowest_bits(n: i64)
    ensures
        byte_of(Some(n)) == n & 0xFF,
        0 <= n <= 255 ==> byte_of(Some(n)) == n,
        byte_of(None) == 0,
{
    assert(#[verifier::truncate] (n as u8) == n & 0xFF) by (bit_vector);
    assert(0 <= n <= 255 ==> n & 0xFF == n) by (bit_vector);
}

/// A device is listed exactly where it has a vendor and a product number, whatever else is
/// missing. Its entry has the numbers and the texts of its own properties.
pub proof fn law_entry_has_its_own_properties(p: RegistryProperties)
    ensures
        registered_device(p) is Some <==> p.id_vendor is Some && p.id_product is Some,
        registered_device(p) matches Some(i) ==> {
            &&& i.vendor_id == p.id_vendor->0 & 0xFFFF
            &&& 0 <= p.id_vendor->0 <= 65535 ==> i.vendor_id == p.id_vendor->0
            &&& i.product_id == p.id_product->0 & 0xFFFF
            &&& 0 <= p.id_product->0 <= 65535 ==> i.product_id == p.id_product->0
            &&& i.bus_number == byte_of(p.bus_number)
            &&& i.device_address == byte_of(p.address)
            &&& i.path == device_path(i.bus_number, i.device_address, i.vendor_id, i.product_id)
            &&& i.manufacturer is Some <==> p.vendor_name is Some
            &&& p.vendor_name matches Some(s) ==> i.manufacturer == Some(s@)
            &&& i.product is Some <==> p.product_name is Some
            &&& p.product_name matches Some(s) ==> i.product == Some(s@)
            &&& i.serial_number is Some <==> p.serial_number is Some
            &&& p.serial_number matches Some(s) ==> i.serial_number == Some(s@)
        },
{
    if let (Some(v), Some(n)) = (p.id_vendor, p.id_product) {
        assert(#[verifier::truncate] (v as u16) == v & 0xFFFF) by (bit_vector);
        assert(0 <= v <= 65535 ==> v & 0xFFFF == v) by (bit_vector);
        assert(#[verifier::truncate] (n as u16) == n & 0xFFFF) by (bit_vector);
        assert(0 <= n <= 65535 ==> n & 0xFFFF == n) by (bit_vector);
    }
}

/// A path tells the bus and the address in decimal digits, and the vendor and the product number
/// in four hexadecimal digits each.
pub proof fn law_path_tells_all_numbers(bus: u8, addr: u8, vid: u16, pid: u16)
    ensures
        ({
            let (b, a) = (numeral(bus as int, 10), numeral(addr as int, 10));
            let (v, p) = (hex_fixed(vid as int, 4), hex_fixed(pid as int, 4));
            &&& device_path(bus, addr, vid, pid) == "iokit:bus="@ + b + ",addr="@ + a + ",vid="@ + v
                + ",pid="@ + p
            &&& digits_value(b, 10) == bus && digits_value(a, 10) == addr
            &&& v.len() == 4 && digits_value(v, 16) == vid
            &&& p.len() == 4 && digits_value(p, 16) == pid
        }),
{
    lemma_numeral(bus as int, 10);
    lemma_numeral(addr as int, 10);
    reveal_with_fuel(pow, 5);
    law_hex_fixed_reads_back(vid as int, 4);
    law_hex_fixed_reads_back(pid as int, 4);
    reveal_strlit("iokit:bus=");
    reveal_strlit("iokit:");
    reveal_strlit("bus=");
    reveal_strlit(",addr=");
    reveal_strlit("addr=");
    reveal_strlit(",vid=");
    reveal_strlit("vid=");
    reveal_strlit(",pid=");
    reveal_strlit("pid=");
    assert("iokit:bus="@ =~= "iokit:"@ + "bus="@);
    assert(",addr="@ =~= seq![','] + "addr="@);
    assert(",vid="@ =~= seq![','] + "vid="@);
    assert(",pid="@ =~= seq![','] + "pid="@);
    let (b, a) = (numeral(bus as int, 10), numeral(addr as int, 10));
    let (v, p) = (hex_fixed(vid as int, 4), hex_fixed(pid as int, 4));
    assert(device_path(bus, addr, vid, pid) =~= "iokit:bus="@ + b + ",addr="@ + a + ",vid="@ + v
        + ",pid="@ + p);
}

/// The key of a part is what stands in front of its first equals sign, and the value what stands
/// behind it, both without the white space around them. A part without that sign is all key.
pub proof fn law_part_is_key_and_value(key: Seq<char>, value: Seq<char>)
    requires
        forall|i: int| 0 <= i < key.len() ==> key[i] != '=',
    ensures
        key_of(key.push('=') + value) == trimmed(key),
        value_of(key.push('=') + value) == trimmed(value),
        key_of(key) == trimmed(key),
        value_of(key).len() == 0,
{
    let part = key.push('=') + value;
    let n = key.len() as int;
    lemma_first_index(part, '=', n);
    assert(part.take(n) =~= key);
    assert(part.skip(n + 1) =~= value);
    lemma_first_index(key, '=', n);
    assert(key.take(n) =~= key);
}

/// A path has the parts between its commas, behind the scheme or without it.
pub proof fn law_path_has_its_parts(parts: Seq<Seq<char>>)
    requires
        parts.len() > 0,
        forall|i: int, k: int|
            0 <= i < parts.len() && 0 <= k < parts[i].len() ==> #[trigger] parts[i][k] != ',',
    ensures
        path_parts("iokit:"@ + joined(parts, ',')) == parts,
        !"iokit:"@.is_prefix_of(joined(parts, ',')) ==> path_parts(joined(parts, ',')) == parts,
{
    let rest = joined(parts, ',');
    let path = "iokit:"@ + rest;
    assert(path.take("iokit:"@.len() as int) =~= "iokit:"@);
    assert(path.skip("iokit:"@.len() as int) =~= rest);
    law_splitting_undoes_joining(parts, ',');
}

/// The last part with a key tells its number, and parts with other keys do not matter.
pub proof fn law_last_part_with_the_key_counts(
    parts: Seq<Seq<char>>,
    part: Seq<char>,
    key: Seq<char>,
)
    ensures
        key_of(part) == key ==> number_of(parts.push(part), key) == unsigned_value(
            value_of(part),
            10,
            255,
        ),
        key_of(part) != key ==> number_of(parts.push(part), key) == number_of(parts, key),
        number_of(Seq::empty(), key) is None,
{
    assert(parts.push(part).drop_last() =~= parts);
}

/// A path leads to a place exactly where it tells a bus and an address, and to that place. The
/// complaint about any other path says what is missing, and which path it is.
pub proof fn law_path_leads_to_its_place(path: Seq<char>)
    ensures
        ({
            let bus = number_of(path_parts(path), seq!['b', 'u', 's']);
            let addr = number_of(path_parts(path), seq!['a', 'd', 'd', 'r']);
            &&& place_in_path(path) is Ok <==> bus is Some && addr is Some
            &&& place_in_path(path) matches Ok((b, a)) ==> bus == Some(b as int) && addr == Some(
                a as int,
            )
            &&& bus is None ==> place_in_path(path) == Err::<(u8, u8), ErrorView>(
                ErrorView::Other("invalid iokit path (missing bus): "@ + path),
            )
            &&& bus is Some && addr is None ==> place_in_path(path) == Err::<(u8, u8), ErrorView>(
                ErrorView::Other("invalid iokit path (missing addr): "@ + path),
            )
        }),
{
    reveal_strlit("bus");
    reveal_strlit("addr");
    assert("bus"@ =~= seq!['b', 'u', 's']);
    assert("addr"@ =~= seq!['a', 'd', 'd', 'r']);
    lemma_number_is_a_byte(path_parts(path), "bus"@);
    lemma_number_is_a_byte(path_parts(path), "addr"@);
}

/// A number in a path is that of a byte.
proof fn lemma_number_is_a_byte(parts: Seq<Seq<char>>, key: Seq<char>)
    ensures
        number_of(parts, key) matches Some(n) ==> 0 <= n <= 255,
    decreases parts.len(),
{
    if parts.len() > 0 {
        lemma_number_is_a_byte(parts.drop_last(), key);
        lemma_value_grows(unsigned_part(value_of(parts.last())), 0, 10);
    }
}

} // verus!
