use rust_usb::numeral::{parse_unsigned, write_hex_fixed, write_numeral};
use rust_usb::text::{chars_of, find, index_of, string_of, trim};
use rust_usb::utf16::{decode_utf16_lossy, encode_utf16_z, length_until_zero, read_le_words};

fn text(chars: Vec<char>) -> String {
    string_of(&chars)
}

#[test]
fn numerals_are_read_like_those_of_std() {
    for s in ["", "+", "0", "+7", "-1", "255", "256", "00255", "ff", "FFFF", "+FfFf", "10000", "1 ", "g", "+-1"] {
        let chars = chars_of(s);
        assert_eq!(parse_unsigned(&chars, 10, 255).map(|n| n as u8), s.parse::<u8>().ok());
        assert_eq!(
            parse_unsigned(&chars, 16, 0xFFFF).map(|n| n as u16),
            u16::from_str_radix(s, 16).ok()
        );
    }
}

#[test]
fn numerals_are_written_like_those_of_std() {
    for n in [0u32, 9, 10, 15, 16, 255, 256, 65535, 0xE00002C5, u32::MAX] {
        assert_eq!(text(write_numeral(n, 10)), format!("{n}"));
        assert_eq!(text(write_numeral(n, 16)), format!("{n:x}"));
        assert_eq!(text(write_hex_fixed(n, 8)), format!("{n:08x}"));
    }
    assert_eq!(text(write_hex_fixed(0x81, 2)), "81");
    assert_eq!(text(write_hex_fixed(0x1, 2)), "01");
}

#[test]
fn written_numerals_are_read_back() {
    for n in [0u32, 1, 9, 10, 99, 100, 255] {
        assert_eq!(parse_unsigned(&write_numeral(n, 10), 10, 255), Some(n));
        assert_eq!(parse_unsigned(&write_numeral(n, 16), 16, 255), Some(n));
    }
}

#[test]
fn white_space_is_trimmed_like_by_std() {
    for s in ["", " ", "a", "  a b\t\n", "\u{a0}x\u{3000}", "\u{85}\u{2003}\u{200b}y\u{2029}", "\r\n12\r\n"] {
        assert_eq!(text(trim(&chars_of(s))), s.trim());
    }
}

#[test]
fn first_occurrence_is_found() {
    let hay = chars_of("VIVID_VID_12");
    assert_eq!(find(&hay, &chars_of("VID_")), Some(2));
    assert_eq!(find(&hay, &chars_of("VID_1")), Some(6));
    assert_eq!(find(&hay, &chars_of("PID_")), None);
    assert_eq!(find(&hay, &chars_of("VIVID_VID_123")), None);
    assert_eq!(find(&hay, &[]), Some(0));
    assert_eq!(index_of(&hay, 3, 'V'), 6);
    assert_eq!(index_of(&hay, 0, 'x'), 12);
}

#[test]
fn utf16_is_decoded_like_by_std() {
    let cases: [&[u16]; 7] = [
        &[],
        &[0x48, 0x69],
        &[0xD83D, 0xDE00, 0x21],
        &[0xD83D],
        &[0xDE00, 0xD83D, 0x41],
        &[0xD83D, 0xD83D, 0xDE00],
        &[0xFFFF, 0xE000, 0xD7FF, 0xDBFF, 0xDFFF],
    ];
    for units in cases {
        assert_eq!(decode_utf16_lossy(units), String::from_utf16_lossy(units));
    }
}

#[test]
fn text_is_decoded_as_it_was_encoded() {
    for s in ["", "abc", "\u{e9}\u{20ac}\u{1F600}\u{10FFFF}", "\u{FFFF}\u{D7FF}\u{E000}\u{10000}"] {
        let units = encode_utf16_z(s);
        let mut expected: Vec<u16> = s.encode_utf16().collect();
        expected.push(0);
        assert_eq!(units, expected);
        let n = length_until_zero(&units, 0);
        assert_eq!(decode_utf16_lossy(&units[..n]), s);
    }
}

#[test]
fn words_are_little_endian() {
    assert_eq!(read_le_words(&[0x34, 0x12, 0xFF, 0x00, 0x99]), vec![0x1234, 0x00FF]);
    assert_eq!(read_le_words(&[1]), Vec::<u16>::new());
    assert_eq!(length_until_zero(&[5, 0, 6, 7], 0), 1);
    assert_eq!(length_until_zero(&[5, 0, 6, 7], 2), 2);
}
