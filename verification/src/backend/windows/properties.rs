//! What the registry properties of a device tell: its path, its numbers and its place.

use vstd::prelude::*;

use crate::numeral::{
    all_digits, digit_value, digits_value, law_numbers_are_digits, lemma_value_grows,
    parse_unsigned, unsigned_part, unsigned_value,
};
use crate::text::{
    chars_of, copied, find, first_occurrence, is_first_occurrence,
    law_first_occurrence_has_none_in_front, lemma_first_occurrence, occurs_at, upper_text,
};
use crate::utf16::{
    decode_utf16_lossy, law_terminated_text_reads_back, law_words_read_back, law_words_until_zero,
    le_words, length_until_zero, read_le_words, until_zero, utf16_text, utf16_units, word_bytes,
};

verus! {

/// The characters of a label.
pub open spec fn vid_label() -> Seq<char> {
    "VID_"@
}

pub open spec fn pid_label() -> Seq<char> {
    "PID_"@
}

pub open spec fn port_label() -> Seq<char> {
    "PORT_#"@
}

pub open spec fn hub_label() -> Seq<char> {
    "HUB_#"@
}

/// The four characters behind the first occurrence of a label.
pub open spec fn field_behind(text: Seq<char>, label: Seq<char>) -> Option<Seq<char>> {
    match first_occurrence(text, label) {
        Some(p) => if p + label.len() + 4 <= text.len() {
            Some(text.subrange(p + label.len(), p + label.len() + 4))
        } else {
            None
        },
        None => None,
    }
}

/// Takes the four characters behind the first occurrence of a label.
fn take_field(text: &[char], label: &str) -> (r: Option<Vec<char>>)
    ensures
        match r {
            Some(f) => field_behind(text@, label@) == Some(f@),
            None => field_behind(text@, label@) is None,
        },
{
    let l: Vec<char> = chars_of(label);
    match find(text, l.as_slice()) {
        Some(p) => {
            let start: usize = p + l.len();
            if text.len() - start >= 4 {
                Some(copied(text, start, start + 4))
            } else {
                None
            }
        },
        None => None,
    }
}

/// The vendor and product numbers in a hardware ID: each is the four hexadecimal digits behind
/// its label. Where one of them is missing there are none.
pub open spec fn vid_pid_of(hw_id: Seq<char>) -> Option<(u16, u16)> {
    match (field_behind(hw_id, vid_label()), field_behind(hw_id, pid_label())) {
        (Some(v), Some(p)) => match (unsigned_value(v, 16, 0xFFFF), unsigned_value(p, 16, 0xFFFF)) {
            (Some(vid), Some(pid)) => Some((vid as u16, pid as u16)),
            _ => None,
        },
        _ => None,
    }
}

/// Parse "USB\VID_045E&PID_07A5..." into (0x045E, 0x07A5).
pub fn parse_vid_pid(hw_id: &str) -> (r: Option<(u16, u16)>)
    ensures
        r == vid_pid_of(hw_id@),
{
    let text: Vec<char> = chars_of(hw_id);
    let vid: Vec<char> = match take_field(text.as_slice(), "VID_") {
        Some(f) => f,
        None => return None,
    };
    let pid: Vec<char> = match take_field(text.as_slice(), "PID_") {
        Some(f) => f,
        None => return None,
    };
    match (
        parse_unsigned(vid.as_slice(), 16, 0xFFFF),
        parse_unsigned(pid.as_slice(), 16, 0xFFFF),
    ) {
        (Some(v), Some(p)) => Some((v as u16, p as u16)),
        _ => None,
    }
}

/// The numbers in the first hardware ID of a list that holds any. The list is a row of
/// zero-terminated texts and ends at its end or where a text is empty behind another.
pub open spec fn vid_pid_in(words: Seq<u16>) -> Option<(u16, u16)>
    decreases words.len(),
{
    if words.len() == 0 {
        None
    } else {
        let id = until_zero(words);
        let next = id.len() + 1;
        match vid_pid_of(upper_text(utf16_text(id))) {
            Some(r) => Some(r),
            None => if next >= words.len() || words[next as int] == 0 {
                None
            } else {
                vid_pid_in(words.skip(next as int))
            },
        }
    }
}

/// The numbers of a device whose hardware IDs are the given registry property, 0 where the
/// property is missing or holds none.
pub open spec fn vid_pid_of_property(property: Option<Seq<u8>>) -> (u16, u16) {
    match property {
        Some(bytes) => match vid_pid_in(le_words(bytes)) {
            Some(r) => r,
            None => (0, 0),
        },
        None => (0, 0),
    }
}

/// The bytes of an optional property.
pub open spec fn bytes_view(b: Option<Vec<u8>>) -> Option<Seq<u8>> {
    match b {
        Some(b) => Some(b@),
        None => None,
    }
}

/// Reads the vendor and product numbers from the hardware IDs of a device.
pub fn read_vid_pid(property: &Option<Vec<u8>>) -> (r: (u16, u16))
    ensures
        r == vid_pid_of_property(bytes_view(*property)),
{
    let bytes: &Vec<u8> = match property {
        Some(bytes) => bytes,
        None => return (0, 0),
    };
    let words: Vec<u16> = read_le_words(bytes.as_slice());
    let mut pos: usize = 0;
    assert(words@.skip(0) =~= words@);
    while pos < words.len()
        invariant_except_break
            pos <= words@.len(),
            vid_pid_in(words@.skip(pos as int)) == vid_pid_in(words@),
            words@ == le_words(bytes@),
            bytes_view(*property) == Some(bytes@),
        ensures
            vid_pid_in(words@) is None,
        decreases words@.len() - pos,
    {
        let ghost rest = words@.skip(pos as int);
        let n: usize = length_until_zero(words.as_slice(), pos);
        let id: &[u16] = vstd::slice::slice_subrange(words.as_slice(), pos, pos + n);
        assert(id@ == until_zero(rest));
        let hw_id: String = decode_utf16_lossy(id).as_str().to_uppercase();
        if let Some(r) = parse_vid_pid(hw_id.as_str()) {
            return r;
        }
        if words.len() - pos - n <= 1 {
            break;
        }
        assert(rest[n + 1] == words@[pos + n + 1]);
        assert(rest.skip(n + 1) =~= words@.skip(pos + n + 1));
        pos = pos + n + 1;
        if words[pos] == 0 {
            break;
        }
    }
    (0, 0)
}

/// `s` without the zeros in front.
pub open spec fn without_zeros(s: Seq<char>) -> Seq<char>
    decreases s.len(),
{
    if s.len() > 0 && s[0] == '0' {
        without_zeros(s.skip(1))
    } else {
        s
    }
}

/// The decimal number of four characters behind a label, which must be at most 255. It is 0
/// where there is none.
pub open spec fn number_behind(text: Seq<char>, label: Seq<char>) -> u8 {
    match field_behind(text, label) {
        Some(f) => match unsigned_value(without_zeros(f), 10, 0xFF) {
            Some(n) => n as u8,
            None => 0,
        },
        None => 0,
    }
}

/// Reads the decimal number of four characters behind a label.
fn read_number(text: &[char], label: &str) -> (n: u8)
    ensures
        n == number_behind(text@, label@),
{
    let field: Vec<char> = match take_field(text, label) {
        Some(f) => f,
        None => return 0,
    };
    let mut start: usize = 0;
    assert(field@.skip(0) =~= field@);
    while start < field.len() && field[start] == '0'
        invariant
            start <= field@.len(),
            without_zeros(field@.skip(start as int)) == without_zeros(field@),
        decreases field@.len() - start,
    {
        assert(field@.skip(start as int).skip(1) =~= field@.skip(start + 1));
        start += 1;
    }
    let digits: Vec<char> = copied(field.as_slice(), start, field.len());
    assert(digits@ =~= field@.skip(start as int));
    match parse_unsigned(digits.as_slice(), 10, 0xFF) {
        Some(n) => n as u8,
        None => 0,
    }
}

/// The hub and the port in a location such as "Port_#0001.Hub_#0003".
pub open spec fn location_of(text: Seq<char>) -> (u8, u8) {
    (number_behind(text, hub_label()), number_behind(text, port_label()))
}

/// The hub and the port of a device whose location is the given registry property.
pub open spec fn location_of_property(property: Option<Seq<u8>>) -> Option<(u8, u8)> {
    match property {
        Some(bytes) => Some(location_of(upper_text(utf16_text(until_zero(le_words(bytes)))))),
        None => None,
    }
}

/// Reads the hub and the port of a location in upper case.
pub fn parse_location(text: &str) -> (r: (u8, u8))
    ensures
        r == location_of(text@),
{
    let chars: Vec<char> = chars_of(text);
    (read_number(chars.as_slice(), "HUB_#"), read_number(chars.as_slice(), "PORT_#"))
}

/// Reads the hub and the port from the location of a device. Enumeration takes them for the
/// bus number and the device address.
pub fn read_location_info(property: &Option<Vec<u8>>) -> (r: Option<(u8, u8)>)
    ensures
        r == location_of_property(bytes_view(*property)),
{
    match property {
        Some(bytes) => {
            let words: Vec<u16> = read_le_words(bytes.as_slice());
            let n: usize = length_until_zero(words.as_slice(), 0);
            assert(words@.skip(0) =~= words@);
            let text: &[u16] = vstd::slice::slice_subrange(words.as_slice(), 0, n);
            let location: String = decode_utf16_lossy(text).as_str().to_uppercase();
            Some(parse_location(location.as_str()))
        },
        None => None,
    }
}

/// The path in the detail data of a device interface: zero-terminated UTF-16 behind a size of
/// four bytes. There is none in data that is too short, and an empty one does not count.
pub open spec fn path_in_detail(detail: Seq<u8>) -> Option<Seq<char>> {
    let path = utf16_text(until_zero(le_words(detail.skip(4))));
    if detail.len() <= 5 || path.len() == 0 {
        None
    } else {
        Some(path)
    }
}

/// Takes the path from the detail data of a device interface.
pub fn read_device_path(detail: &[u8]) -> (r: Option<String>)
    ensures
        match r {
            Some(path) => path_in_detail(detail@) == Some(path@),
            None => path_in_detail(detail@) is None,
        },
{
    if detail.len() <= 5 {
        return None;
    }
    let tail: &[u8] = vstd::slice::slice_subrange(detail, 4, detail.len());
    assert(tail@ =~= detail@.skip(4));
    let words: Vec<u16> = read_le_words(tail);
    let n: usize = length_until_zero(words.as_slice(), 0);
    assert(words@.skip(0) =~= words@);
    let path: String = decode_utf16_lossy(
        vstd::slice::slice_subrange(words.as_slice(), 0, n),
    );
    if path.as_str().is_empty() {
        None
    } else {
        Some(path)
    }
}

/// The path of an interface is read back from its detail data, whatever the size in front and
/// the bytes behind are.
pub proof fn law_device_path_reads_back(size: Seq<u8>, path: Seq<char>, tail: Seq<u16>)
    requires
        size.len() == 4,
        path.len() > 0,
        forall|i: int| 0 <= i < path.len() ==> path[i] != '\0',
    ensures
        path_in_detail(size + word_bytes(utf16_units(path).push(0) + tail)) == Some(path),
{
    let words = utf16_units(path).push(0) + tail;
    let detail = size + word_bytes(words);
    assert(detail.skip(4) =~= word_bytes(words));
    law_words_read_back(words);
    law_terminated_text_reads_back(path, tail);
}

/// Where a label occurs first in a text that has none of its first characters in front of it.
proof fn lemma_label_at(text: Seq<char>, label: Seq<char>, p: int)
    requires
        label.len() > 0,
        occurs_at(text, label, p),
        forall|i: int| 0 <= i < p ==> text[i] != label[0],
    ensures
        first_occurrence(text, label) == Some(p),
{
    assert forall|j: int| j < p implies !#[trigger] occurs_at(text, label, j) by {
        if occurs_at(text, label, j) {
            assert(text.subrange(j, j + label.len())[0] == text[j]);
        }
    }
    assert(is_first_occurrence(text, label, Some(p)));
    lemma_first_occurrence(text, label, Some(p));
}

/// Digits denote their value.
proof fn lemma_digits_denote(s: Seq<char>, radix: int, max: int)
    requires
        s.len() > 0,
        all_digits(s, radix),
        2 <= radix <= 36,
        digits_value(s, radix) <= max,
    ensures
        unsigned_value(s, radix, max) == Some(digits_value(s, radix)),
{
    assert(digit_value(s[0]) < radix);
    assert(digit_value('+') == 36);
}

/// Four hexadecimal digits have a value of 16 bits.
proof fn lemma_four_digits(s: Seq<char>)
    requires
        s.len() == 4,
        all_digits(s, 16),
    ensures
        0 <= digits_value(s, 16) <= 0xFFFF,
{
    reveal_with_fuel(digits_value, 5);
    let s3 = s.drop_last();
    let s2 = s3.drop_last();
    let s1 = s2.drop_last();
    assert(s1.drop_last().len() == 0);
    assert(digit_value(s[0]) < 16 && digit_value(s[1]) < 16);
    assert(digit_value(s[2]) < 16 && digit_value(s[3]) < 16);
    assert(s1.last() == s[0] && s2.last() == s[1] && s3.last() == s[2] && s.last() == s[3]);
    lemma_digit_value(s[0]);
    lemma_digit_value(s[1]);
    lemma_digit_value(s[2]);
    lemma_digit_value(s[3]);
}

/// The value of a digit is not negative.
proof fn lemma_digit_value(c: char)
    ensures
        0 <= digit_value(c),
{
}

/// The hardware ID of a USB device.
pub open spec fn hardware_id(vid: Seq<char>, pid: Seq<char>, tail: Seq<char>) -> Seq<char> {
    seq!['U', 'S', 'B', '\\', 'V', 'I', 'D', '_'] + vid + seq!['&', 'P', 'I', 'D', '_'] + pid + tail
}

/// The numbers of a device are read from its hardware ID, whatever stands behind them.
pub proof fn law_hardware_id_tells_the_numbers(vid: Seq<char>, pid: Seq<char>, tail: Seq<char>)
    requires
        vid.len() == 4 && all_digits(vid, 16),
        pid.len() == 4 && all_digits(pid, 16),
    ensures
        vid_pid_of(hardware_id(vid, pid, tail)) == Some(
            (digits_value(vid, 16) as u16, digits_value(pid, 16) as u16),
        ),
{
    reveal_strlit("VID_");
    reveal_strlit("PID_");
    let id = hardware_id(vid, pid, tail);
    assert(id.subrange(4, 8) =~= vid_label());
    assert(id.subrange(8, 12) =~= vid);
    assert(id.subrange(13, 17) =~= pid_label());
    assert(id.subrange(17, 21) =~= pid);
    assert(vid_label()[0] == 'V' && pid_label()[0] == 'P');
    lemma_label_at(id, vid_label(), 4);
    assert forall|i: int| 0 <= i < 13 implies id[i] != 'P' by {
        if 8 <= i < 12 {
            assert(id[i] == vid[i - 8]);
            assert(digit_value(vid[i - 8]) < 16);
        } else if i < 4 {
        } else if i < 8 {
            assert(id[i] == vid_label()[i - 4]);
        }
    }
    lemma_label_at(id, pid_label(), 13);
    lemma_four_digits(vid);
    lemma_four_digits(pid);
    lemma_digits_denote(vid, 16, 0xFFFF);
    lemma_digits_denote(pid, 16, 0xFFFF);
}

/// Zeros in front do not change a value.
proof fn lemma_zeros_in_front(s: Seq<char>)
    requires
        all_digits(s, 10),
    ensures
        all_digits(without_zeros(s), 10),
        digits_value(without_zeros(s), 10) == digits_value(s, 10),
        without_zeros(s).len() == 0 ==> digits_value(s, 10) == 0,
    decreases s.len(),
{
    if s.len() > 0 && s[0] == '0' {
        let rest = s.skip(1);
        assert forall|i: int| 0 <= i < rest.len() implies digit_value(#[trigger] rest[i]) < 10 by {
            assert(rest[i] == s[i + 1]);
        }
        lemma_zeros_in_front(rest);
        lemma_leading_zero(s);
    }
}

/// A zero in front does not change a value.
proof fn lemma_leading_zero(s: Seq<char>)
    requires
        s.len() > 0,
        s[0] == '0',
    ensures
        digits_value(s, 10) == digits_value(s.skip(1), 10),
    decreases s.len(),
{
    if s.len() == 1 {
        reveal_with_fuel(digits_value, 2);
        assert(s.drop_last().len() == 0);
    } else {
        lemma_leading_zero(s.drop_last());
        assert(s.drop_last().skip(1) =~= s.skip(1).drop_last());
        assert(s.skip(1).last() == s.last());
    }
}

/// The location of a USB device in upper case.
pub open spec fn usb_location(port: Seq<char>, hub: Seq<char>) -> Seq<char> {
    seq!['P', 'O', 'R', 'T', '_', '#'] + port + seq!['.', 'H', 'U', 'B', '_', '#'] + hub
}

/// The hub and the port of a device are read from its location, with or without zeros in front.
pub proof fn law_location_tells_hub_and_port(port: Seq<char>, hub: Seq<char>)
    requires
        port.len() == 4 && all_digits(port, 10) && digits_value(port, 10) <= 0xFF,
        hub.len() == 4 && all_digits(hub, 10) && digits_value(hub, 10) <= 0xFF,
    ensures
        location_of(usb_location(port, hub)) == (
            digits_value(hub, 10) as u8,
            digits_value(port, 10) as u8,
        ),
{
    reveal_strlit("PORT_#");
    reveal_strlit("HUB_#");
    let text = usb_location(port, hub);
    assert(text.subrange(0, 6) =~= port_label());
    assert(text.subrange(6, 10) =~= port);
    assert(text.subrange(11, 16) =~= hub_label());
    assert(text.subrange(16, 20) =~= hub);
    assert(hub_label()[0] == 'H');
    lemma_label_at(text, port_label(), 0);
    assert forall|i: int| 0 <= i < 11 implies text[i] != 'H' by {
        if i < 6 {
            assert(text[i] == port_label()[i]);
        } else if i < 10 {
            assert(text[i] == port[i - 6]);
            assert(digit_value(port[i - 6]) < 10);
        }
    }
    lemma_label_at(text, hub_label(), 11);
    lemma_zeros_in_front(port);
    lemma_zeros_in_front(hub);
    if without_zeros(port).len() > 0 {
        lemma_digits_denote(without_zeros(port), 10, 0xFF);
    }
    if without_zeros(hub).len() > 0 {
        lemma_digits_denote(without_zeros(hub), 10, 0xFF);
    }
}

// ---------------------------------------------------------------------------
// Laws on every text
// ---------------------------------------------------------------------------

/// The field of a label is the four characters behind its first occurrence, whatever stands in
/// front of the label and behind the field. There is none where fewer characters follow, or
/// where the label does not occur.
pub proof fn law_field_stands_behind_its_label(
    front: Seq<char>,
    label: Seq<char>,
    field: Seq<char>,
    tail: Seq<char>,
)
    ensures
        (forall|j: int|
            0 <= j < front.len() ==> #[trigger] (front + label + field + tail).subrange(
                j,
                j + label.len(),
            ) != label) ==> {
            let text = front + label + field + tail;
            &&& field.len() == 4 ==> field_behind(text, label) == Some(field)
            &&& field.len() + tail.len() < 4 ==> field_behind(text, label) is None
        },
        (forall|j: int|
            0 <= j <= front.len() - label.len() ==> #[trigger] front.subrange(j, j + label.len())
                != label) ==> field_behind(front, label) is None,
{
    let text = front + label + field + tail;
    let n = front.len() as int;
    assert(text.subrange(n, n + label.len()) =~= label);
    law_first_occurrence_has_none_in_front(text, label, n);
    law_first_occurrence_has_none_in_front(front, label, 0);
    if field.len() == 4 {
        assert(text.subrange(n + label.len(), n + label.len() + 4) =~= field);
    }
}

/// A hardware ID tells the two numbers behind its labels, in either order of the labels, and
/// none where a label or a number is missing.
pub proof fn law_numbers_stand_behind_their_labels(id: Seq<char>)
    ensures
        ({
            let vid = field_behind(id, seq!['V', 'I', 'D', '_']);
            let pid = field_behind(id, seq!['P', 'I', 'D', '_']);
            &&& vid_pid_of(id) is Some <==> {
                &&& vid is Some && unsigned_value(vid->0, 16, 65535) is Some
                &&& pid is Some && unsigned_value(pid->0, 16, 65535) is Some
            }
            &&& vid_pid_of(id) matches Some((v, p)) ==> {
                &&& unsigned_value(vid->0, 16, 65535) == Some(v as int)
                &&& unsigned_value(pid->0, 16, 65535) == Some(p as int)
            }
        }),
{
    reveal_strlit("VID_");
    reveal_strlit("PID_");
    assert(vid_label() =~= seq!['V', 'I', 'D', '_']);
    assert(pid_label() =~= seq!['P', 'I', 'D', '_']);
    if vid_pid_of(id) is Some {
        lemma_number_fits(field_behind(id, vid_label())->0, 16, 0xFFFF);
        lemma_number_fits(field_behind(id, pid_label())->0, 16, 0xFFFF);
    }
}

/// A number that is read is not negative and within its limit.
proof fn lemma_number_fits(s: Seq<char>, radix: int, max: int)
    requires
        2 <= radix <= 36,
    ensures
        unsigned_value(s, radix, max) matches Some(n) ==> 0 <= n <= max,
{
    lemma_value_grows(unsigned_part(s), 0, radix);
}

/// A list of hardware IDs tells the numbers of its first ID where that holds any, and otherwise
/// those of the rest of the list, unless the list ends there. The length of an ID does not
/// matter, nor does whether the last one has a terminator.
pub proof fn law_first_hardware_id_with_numbers_counts(id: Seq<u16>, rest: Seq<u16>)
    requires
        forall|i: int| 0 <= i < id.len() ==> id[i] != 0,
    ensures
        ({
            let list = id.push(0) + rest;
            let numbers = vid_pid_of(upper_text(utf16_text(id)));
            &&& numbers is Some ==> vid_pid_in(list) == numbers
            &&& numbers is None && (rest.len() == 0 || rest[0] == 0) ==> vid_pid_in(list) is None
            &&& numbers is None && rest.len() > 0 && rest[0] != 0 ==> vid_pid_in(list)
                == vid_pid_in(rest)
        }),
        id.len() > 0 ==> vid_pid_in(id) == vid_pid_of(upper_text(utf16_text(id))),
        vid_pid_in(Seq::empty()) is None,
{
    let list = id.push(0) + rest;
    law_words_until_zero(id, rest);
    assert(list.skip(id.len() as int + 1) =~= rest);
    if rest.len() > 0 {
        assert(list[id.len() as int + 1] == rest[0]);
    }
}

/// A hardware ID anywhere in a list tells the numbers of the device, whatever the IDs in front
/// of it are that hold none, and whatever stands behind it.
pub proof fn law_hardware_ids_without_numbers_are_passed_over(
    front: Seq<Seq<u16>>,
    id: Seq<u16>,
    rest: Seq<u16>,
)
    requires
        forall|k: int| 0 <= k < front.len() ==> (#[trigger] front[k]).len() > 0,
        forall|k: int, i: int|
            0 <= k < front.len() && 0 <= i < front[k].len() ==> #[trigger] front[k][i] != 0,
        forall|k: int|
            0 <= k < front.len() ==> vid_pid_of(upper_text(utf16_text(#[trigger] front[k]))) is None,
        id.len() > 0,
        forall|i: int| 0 <= i < id.len() ==> id[i] != 0,
        vid_pid_of(upper_text(utf16_text(id))) is Some,
    ensures
        vid_pid_in(terminated(front) + (id.push(0) + rest)) == vid_pid_of(
            upper_text(utf16_text(id)),
        ),
    decreases front.len(),
{
    let list = terminated(front) + (id.push(0) + rest);
    if front.len() == 0 {
        assert(list =~= id.push(0) + rest);
        law_first_hardware_id_with_numbers_counts(id, rest);
    } else {
        let (first, others) = (front[0], front.skip(1));
        let tail = terminated(others) + (id.push(0) + rest);
        assert forall|i: int| 0 <= i < first.len() implies first[i] != 0 by {
            assert(front[0][i] != 0);
        }
        assert forall|k: int| 0 <= k < others.len() implies (#[trigger] others[k]).len() > 0
            && vid_pid_of(upper_text(utf16_text(others[k]))) is None by {
            assert(others[k] == front[k + 1]);
        }
        assert forall|k: int, i: int|
            0 <= k < others.len() && 0 <= i < others[k].len() implies #[trigger] others[k][i]
            != 0 by {
            assert(others[k] == front[k + 1]);
            assert(front[k + 1][i] != 0);
        }
        law_hardware_ids_without_numbers_are_passed_over(others, id, rest);
        law_first_hardware_id_with_numbers_counts(first, tail);
        assert(list =~= first.push(0) + tail);
        assert(tail.len() > 0 && tail[0] != 0) by {
            if others.len() > 0 {
                assert(others[0] == front[1]);
                assert(front[1].len() > 0 && front[1][0] != 0);
                assert(tail[0] == others[0][0]);
            } else {
                assert(tail[0] == id[0]);
            }
        }
    }
}

/// A row of texts, each with a terminator behind it.
pub open spec fn terminated(ids: Seq<Seq<u16>>) -> Seq<u16>
    decreases ids.len(),
{
    if ids.len() == 0 {
        Seq::empty()
    } else {
        ids[0].push(0) + terminated(ids.skip(1))
    }
}

/// A property of hardware IDs tells the numbers of its list, and 0 for both where it is missing
/// or its list has none.
pub proof fn law_hardware_ids_property(list: Seq<u16>)
    ensures
        vid_pid_in(list) matches Some(numbers) ==> vid_pid_of_property(Some(word_bytes(list)))
            == numbers,
        vid_pid_in(list) is None ==> vid_pid_of_property(Some(word_bytes(list))) == (0u16, 0u16),
        vid_pid_of_property(None) == (0u16, 0u16),
{
    law_words_read_back(list);
}

/// The number of a label is the decimal one of its field, with zeros in front or without. It is
/// 0 where that is too large, and where there is no field.
pub proof fn law_number_stands_behind_its_label(text: Seq<char>, label: Seq<char>)
    ensures
        field_behind(text, label) is None ==> number_behind(text, label) == 0,
        field_behind(text, label) matches Some(f) ==> {
            (forall|i: int| 0 <= i < f.len() ==> '0' <= #[trigger] f[i] <= '9') ==> {
                &&& digits_value(f, 10) <= 255 ==> number_behind(text, label) == digits_value(f, 10)
                &&& digits_value(f, 10) > 255 ==> number_behind(text, label) == 0
            }
        },
        field_behind(text, label) matches Some(f) ==> {
            (exists|i: int|
                0 <= i < f.len() && !('0' <= #[trigger] f[i] <= '9') && f[i] != '+')
                ==> number_behind(text, label) == 0
        },
{
    if let Some(f) = field_behind(text, label) {
        if forall|i: int| 0 <= i < f.len() ==> '0' <= #[trigger] f[i] <= '9' {
            assert forall|i: int| 0 <= i < f.len() implies digit_value(#[trigger] f[i]) < 10 by {
                assert('0' <= f[i] <= '9');
            }
            lemma_zeros_in_front(f);
            let digits = without_zeros(f);
            lemma_value_grows(digits, 0, 10);
            if digits.len() > 0 {
                law_numbers_are_digits(digits, 10, 255);
            }
        }
        if exists|i: int| 0 <= i < f.len() && !('0' <= #[trigger] f[i] <= '9') && f[i] != '+' {
            let i = choose|i: int|
                0 <= i < f.len() && !('0' <= #[trigger] f[i] <= '9') && f[i] != '+';
            let k = lemma_stays_behind_zeros(f, i);
            law_numbers_are_digits(without_zeros(f), 10, 255);
            lemma_digit_of_ten(f[i]);
        }
    }
}

/// The zeros in front of a field are left out, all of them and nothing else, and what remains
/// is read as a decimal number.
pub proof fn law_zeros_in_front_are_left_out(zeros: Seq<char>, s: Seq<char>)
    requires
        forall|i: int| 0 <= i < zeros.len() ==> zeros[i] == '0',
        s.len() > 0 ==> s[0] != '0',
    ensures
        without_zeros(zeros + s) == s,
        forall|text: Seq<char>, label: Seq<char>|
            field_behind(text, label) == Some(zeros + s) ==> {
                let n = #[trigger] number_behind(text, label);
                &&& unsigned_value(s, 10, 255) matches Some(v) ==> n == v
                &&& unsigned_value(s, 10, 255) is None ==> n == 0
            },
    decreases zeros.len(),
{
    let all = zeros + s;
    if zeros.len() > 0 {
        assert(all[0] == zeros[0]);
        assert(all.skip(1) =~= zeros.skip(1) + s);
        assert forall|i: int| 0 <= i < zeros.skip(1).len() implies zeros.skip(1)[i] == '0' by {
            assert(zeros.skip(1)[i] == zeros[i + 1]);
        }
        law_zeros_in_front_are_left_out(zeros.skip(1), s);
    } else {
        assert(all =~= s);
    }
    lemma_number_fits(s, 10, 255);
}

/// Only `0` to `9` are digits of radix 10.
proof fn lemma_digit_of_ten(c: char)
    ensures
        !('0' <= c <= '9') ==> digit_value(c) >= 10,
{
}

/// A character other than zero is not among the zeros in front.
proof fn lemma_stays_behind_zeros(s: Seq<char>, i: int) -> (k: int)
    requires
        0 <= i < s.len(),
        s[i] != '0',
    ensures
        0 <= k < without_zeros(s).len(),
        without_zeros(s)[k] == s[i],
    decreases s.len(),
{
    if s[0] == '0' {
        assert(s.skip(1)[i - 1] == s[i]);
        lemma_stays_behind_zeros(s.skip(1), i - 1)
    } else {
        i
    }
}

/// The hub of a location comes from the label of hubs and the port from that of ports, wherever
/// they stand.
pub proof fn law_location_has_its_own_labels(text: Seq<char>)
    ensures
        location_of(text).0 == number_behind(text, seq!['H', 'U', 'B', '_', '#']),
        location_of(text).1 == number_behind(text, seq!['P', 'O', 'R', 'T', '_', '#']),
{
    reveal_strlit("PORT_#");
    reveal_strlit("HUB_#");
    assert(port_label() =~= seq!['P', 'O', 'R', 'T', '_', '#']);
    assert(hub_label() =~= seq!['H', 'U', 'B', '_', '#']);
}

/// The location of a property is that of its whole text in upper case, up to the terminator or
/// to the end.
pub proof fn law_location_property(units: Seq<u16>, tail: Seq<u16>)
    requires
        forall|i: int| 0 <= i < units.len() ==> units[i] != 0,
    ensures
        location_of_property(Some(word_bytes(units.push(0) + tail))) == Some(
            location_of(upper_text(utf16_text(units))),
        ),
        location_of_property(Some(word_bytes(units))) == Some(
            location_of(upper_text(utf16_text(units))),
        ),
        location_of_property(None) is None,
{
    law_words_read_back(units.push(0) + tail);
    law_words_read_back(units);
    law_words_until_zero(units, tail);
}

/// Detail data without a whole word, or with a terminator in front of everything, has no path.
/// A path need not have a terminator.
pub proof fn law_path_is_up_to_its_end(
    detail: Seq<u8>,
    size: Seq<u8>,
    units: Seq<u16>,
    tail: Seq<u16>,
)
    requires
        size.len() == 4,
        units.len() > 0,
        forall|i: int| 0 <= i < units.len() ==> units[i] != 0,
    ensures
        detail.len() < 6 ==> path_in_detail(detail) is None,
        detail.len() >= 6 && detail[4] == 0 && detail[5] == 0 ==> path_in_detail(detail) is None,
        path_in_detail(size + word_bytes(units)) == Some(utf16_text(units)),
        path_in_detail(size + word_bytes(units.push(0) + tail)) == Some(utf16_text(units)),
{
    if detail.len() >= 6 && detail[4] == 0 && detail[5] == 0 {
        let words = le_words(detail.skip(4));
        assert(words[0] == 0);
        assert(utf16_text(until_zero(words)).len() == 0);
    }
    let words = units.push(0) + tail;
    assert((size + word_bytes(units)).skip(4) =~= word_bytes(units));
    assert((size + word_bytes(words)).skip(4) =~= word_bytes(words));
    law_words_read_back(units);
    law_words_read_back(words);
    law_words_until_zero(units, tail);
}

} // verus!
