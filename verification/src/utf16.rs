//! Little-endian words and UTF-16 text.

use vstd::prelude::*;

use crate::text::chars_of;

verus! {

/// The number that two bytes denote, the less significant first.
pub open spec fn le16(low: u8, high: u8) -> u16 {
    (low + 256 * high) as u16
}

/// Puts two bytes together, the less significant first.
pub fn read_le16(low: u8, high: u8) -> (r: u16)
    ensures
        r == le16(low, high),
{
    low as u16 + 256 * (high as u16)
}

/// The words of a byte sequence. A last byte without a partner belongs to none.
pub open spec fn le_words(bytes: Seq<u8>) -> Seq<u16> {
    Seq::new((bytes.len() / 2) as nat, |i: int| le16(bytes[2 * i], bytes[2 * i + 1]))
}

/// Reads the words of a byte sequence.
pub fn read_le_words(bytes: &[u8]) -> (words: Vec<u16>)
    ensures
        words@ == le_words(bytes@),
{
    let mut words: Vec<u16> = Vec::new();
    let mut i: usize = 0;
    while bytes.len() - i >= 2
        invariant
            i <= bytes.len(),
            i == 2 * words@.len(),
            forall|k: int|
                0 <= k < words@.len() ==> #[trigger] words@[k] == le16(
                    bytes@[2 * k],
                    bytes@[2 * k + 1],
                ),
        decreases bytes@.len() - i,
    {
        words.push(read_le16(bytes[i], bytes[i + 1]));
        i += 2;
    }
    assert(words@ =~= le_words(bytes@));
    words
}

/// The words in front of the first zero.
pub open spec fn until_zero(words: Seq<u16>) -> Seq<u16>
    decreases words.len(),
{
    if words.len() == 0 || words[0] == 0 {
        Seq::empty()
    } else {
        seq![words[0]] + until_zero(words.skip(1))
    }
}

/// `until_zero` is the prefix up to the first zero, or up to the end if there is none.
pub proof fn lemma_until_zero(words: Seq<u16>, n: int)
    requires
        0 <= n <= words.len(),
        forall|i: int| 0 <= i < n ==> words[i] != 0,
        n < words.len() ==> words[n] == 0,
    ensures
        until_zero(words) == words.take(n),
    decreases words.len(),
{
    if n > 0 {
        lemma_until_zero(words.skip(1), n - 1);
        assert(seq![words[0]] + words.skip(1).take(n - 1) =~= words.take(n));
    } else {
        assert(words.take(0) =~= Seq::empty());
    }
}

/// The number of words from `from` on that stand in front of the next zero.
pub fn length_until_zero(words: &[u16], from: usize) -> (n: usize)
    requires
        from <= words@.len(),
    ensures
        from + n <= words@.len(),
        until_zero(words@.skip(from as int)) == words@.subrange(from as int, from + n),
        forall|i: int| from <= i < from + n ==> words@[i] != 0,
        from + n < words@.len() ==> words@[from + n] == 0,
{
    let mut n: usize = 0;
    while n < words.len() - from && words[from + n] != 0
        invariant
            from + n <= words.len(),
            forall|i: int| from <= i < from + n ==> words@[i] != 0,
        decreases words@.len() - n,
    {
        n += 1;
    }
    proof {
        lemma_until_zero(words@.skip(from as int), n as int);
        assert(words@.skip(from as int).take(n as int) =~= words@.subrange(from as int, from + n));
    }
    n
}

pub open spec fn is_high_surrogate(u: u16) -> bool {
    0xD800 <= u <= 0xDBFF
}

pub open spec fn is_low_surrogate(u: u16) -> bool {
    0xDC00 <= u <= 0xDFFF
}

/// The scalar value of a surrogate pair.
pub open spec fn pair_value(high: u16, low: u16) -> int {
    0x1_0000 + (high - 0xD800) * 0x400 + (low - 0xDC00)
}

/// The text of a UTF-16 sequence, in which a surrogate without its partner counts as U+FFFD.
pub open spec fn utf16_text(units: Seq<u16>) -> Seq<char>
    decreases units.len(),
{
    if units.len() == 0 {
        Seq::empty()
    } else if is_high_surrogate(units[0]) && units.len() > 1 && is_low_surrogate(units[1]) {
        seq![pair_value(units[0], units[1]) as char] + utf16_text(units.skip(2))
    } else if is_high_surrogate(units[0]) || is_low_surrogate(units[0]) {
        seq!['\u{FFFD}'] + utf16_text(units.skip(1))
    } else {
        seq![units[0] as char] + utf16_text(units.skip(1))
    }
}

/// Decodes UTF-16, replacing what is not well formed by U+FFFD.
pub fn decode_utf16_lossy(units: &[u16]) -> (s: String)
    ensures
        s@ == utf16_text(units@),
{
    let mut s: String = String::new();
    let mut i: usize = 0;
    assert(units@.skip(0) =~= units@);
    while i < units.len()
        invariant
            i <= units@.len(),
            s@ + utf16_text(units@.skip(i as int)) == utf16_text(units@),
        decreases units@.len() - i,
    {
        let ghost rest = units@.skip(i as int);
        let ghost before = s@;
        let u: u16 = units[i];
        assert(rest.skip(1) =~= units@.skip(i + 1));
        if 0xD800 <= u && u <= 0xDFFF {
            if u <= 0xDBFF && units.len() - i > 1 && 0xDC00 <= units[i + 1] && units[i + 1] <= 0xDFFF {
                let low: u16 = units[i + 1];
                let code: u32 = 0x1_0000 + (u as u32 - 0xD800) * 0x400 + (low as u32 - 0xDC00);
                let c: char = match char::from_u32(code) {
                    Some(c) => c,
                    None => '\u{FFFD}',
                };
                assert(code == pair_value(u, low));
                s.push(c);
                assert(rest.skip(2) =~= units@.skip(i + 2));
                assert(s@ + utf16_text(units@.skip(i + 2)) =~= before + utf16_text(rest));
                i += 2;
            } else {
                s.push('\u{FFFD}');
                assert(s@ + utf16_text(units@.skip(i + 1)) =~= before + utf16_text(rest));
                i += 1;
            }
        } else {
            let c: char = match char::from_u32(u as u32) {
                Some(c) => c,
                None => '\u{FFFD}',
            };
            s.push(c);
            assert(s@ + utf16_text(units@.skip(i + 1)) =~= before + utf16_text(rest));
            i += 1;
        }
    }
    assert(s@ + utf16_text(units@.skip(i as int)) =~= s@);
    s
}

// ---------------------------------------------------------------------------
// Encoding
// ---------------------------------------------------------------------------

/// The UTF-16 units of a character.
pub open spec fn char_units(c: char) -> Seq<u16> {
    let code = c as u32;
    if code < 0x1_0000 {
        seq![code as u16]
    } else {
        seq![
            (0xD800 + (code - 0x1_0000) / 0x400) as u16,
            (0xDC00 + (code - 0x1_0000) % 0x400) as u16,
        ]
    }
}

/// Every character is a Unicode scalar value, and its units stand for it.
proof fn lemma_char_units(c: char)
    ensures
        c as u32 <= 0x10FFFF,
        c as u32 >= 0x1_0000 ==> {
            let u = char_units(c);
            &&& is_high_surrogate(u[0])
            &&& is_low_surrogate(u[1])
            &&& pair_value(u[0], u[1]) as char == c
        },
        (c as u32) < 0x1_0000 ==> {
            let u = char_units(c);
            &&& !is_high_surrogate(u[0])
            &&& !is_low_surrogate(u[0])
            &&& u[0] as char == c
        },
{
}

/// The UTF-16 units of a text.
pub open spec fn utf16_units(s: Seq<char>) -> Seq<u16>
    decreases s.len(),
{
    if s.len() == 0 {
        Seq::empty()
    } else {
        char_units(s[0]) + utf16_units(s.skip(1))
    }
}

/// The UTF-16 units of a text and of one more character.
proof fn lemma_units_push(s: Seq<char>, c: char)
    ensures
        utf16_units(s.push(c)) == utf16_units(s) + char_units(c),
    decreases s.len(),
{
    if s.len() == 0 {
        assert(s.push(c).skip(1) =~= Seq::<char>::empty());
        assert(char_units(c) + utf16_units(s.push(c).skip(1)) =~= char_units(c));
        assert(utf16_units(s) + char_units(c) =~= char_units(c));
    } else {
        lemma_units_push(s.skip(1), c);
        assert(s.push(c).skip(1) =~= s.skip(1).push(c));
        assert(char_units(s[0]) + (utf16_units(s.skip(1)) + char_units(c)) =~= (char_units(s[0])
            + utf16_units(s.skip(1))) + char_units(c));
    }
}

/// Encodes a text with a zero behind it.
pub fn encode_utf16_z(s: &str) -> (units: Vec<u16>)
    ensures
        units@ == utf16_units(s@).push(0),
{
    let chars: Vec<char> = chars_of(s);
    let mut units: Vec<u16> = Vec::new();
    assert(chars@.take(0) =~= Seq::empty());
    for i in 0..chars.len()
        invariant
            units@ == utf16_units(chars@.take(i as int)),
    {
        let ghost before = units@;
        let c: char = chars[i];
        let code: u32 = c as u32;
        if code < 0x1_0000 {
            units.push(code as u16);
        } else {
            units.push((0xD800 + (code - 0x1_0000) / 0x400) as u16);
            units.push((0xDC00 + (code - 0x1_0000) % 0x400) as u16);
        }
        assert(units@ =~= before + char_units(c));
        proof {
            lemma_units_push(chars@.take(i as int), c);
            assert(chars@.take(i + 1) =~= chars@.take(i as int).push(c));
        }
    }
    assert(chars@.take(chars@.len() as int) =~= chars@);
    units.push(0);
    units
}

/// A text is decoded as it was encoded.
pub proof fn law_utf16_reads_back(s: Seq<char>)
    ensures
        utf16_text(utf16_units(s)) == s,
    decreases s.len(),
{
    let units = utf16_units(s);
    if s.len() == 0 {
        assert(utf16_text(units) =~= s);
    } else {
        let c = s[0];
        let rest = s.skip(1);
        law_utf16_reads_back(rest);
        let n = char_units(c).len() as int;
        assert(units.skip(n) =~= utf16_units(rest));
        assert(units[0] == char_units(c)[0]);
        lemma_char_units(c);
        if c as u32 >= 0x1_0000 {
            assert(units[1] == char_units(c)[1]);
        }
        assert(seq![c] + rest =~= s);
    }
}

/// A text without the character zero has no unit that is zero.
pub proof fn lemma_units_without_zero(s: Seq<char>)
    requires
        forall|i: int| 0 <= i < s.len() ==> s[i] != '\0',
    ensures
        forall|i: int| 0 <= i < utf16_units(s).len() ==> utf16_units(s)[i] != 0,
    decreases s.len(),
{
    if s.len() > 0 {
        assert forall|i: int| 0 <= i < s.skip(1).len() implies s.skip(1)[i] != '\0' by {
            assert(s.skip(1)[i] == s[i + 1]);
        }
        lemma_units_without_zero(s.skip(1));
        assert(s[0] != '\0');
        let n = char_units(s[0]).len() as int;
        assert forall|i: int| 0 <= i < utf16_units(s).len() implies utf16_units(s)[i] != 0 by {
            if i < n {
                lemma_char_units(s[0]);
                assert(utf16_units(s)[i] == char_units(s[0])[i]);
            } else {
                assert(utf16_units(s)[i] == utf16_units(s.skip(1))[i - n]);
            }
        }
    }
}

/// A text is read back from zero-terminated UTF-16, unless it holds the terminator itself.
/// What stands behind the terminator does not matter.
pub proof fn law_terminated_text_reads_back(s: Seq<char>, tail: Seq<u16>)
    requires
        forall|i: int| 0 <= i < s.len() ==> s[i] != '\0',
    ensures
        utf16_text(until_zero(utf16_units(s).push(0) + tail)) == s,
{
    lemma_units_without_zero(s);
    law_utf16_reads_back(s);
    let units = utf16_units(s);
    let words = units.push(0) + tail;
    lemma_until_zero(words, units.len() as int);
    assert(words.take(units.len() as int) =~= units);
}

/// The bytes of a sequence of words, the less significant of each first.
pub open spec fn word_bytes(words: Seq<u16>) -> Seq<u8> {
    Seq::new(
        2 * words.len(),
        |i: int|
            if i % 2 == 0 {
                (words[i / 2] % 0x100) as u8
            } else {
                (words[i / 2] / 0x100) as u8
            },
    )
}

/// Words are read back from their bytes.
pub proof fn law_words_read_back(words: Seq<u16>)
    ensures
        le_words(word_bytes(words)) == words,
{
    assert forall|i: int| 0 <= i < words.len() implies #[trigger] le_words(word_bytes(words))[i]
        == words[i] by {
        assert((2 * i) / 2 == i && (2 * i + 1) / 2 == i);
        assert((2 * i) % 2 == 0 && (2 * i + 1) % 2 == 1);
    }
    assert(le_words(word_bytes(words)) =~= words);
}

/// The words of a byte sequence are its pairs, each with the less significant byte first.
pub proof fn law_words_are_pairs_of_bytes(bytes: Seq<u8>)
    ensures
        2 * le_words(bytes).len() <= bytes.len() <= 2 * le_words(bytes).len() + 1,
        forall|i: int|
            0 <= i < le_words(bytes).len() ==> #[trigger] le_words(bytes)[i] == bytes[2 * i] + 256
                * bytes[2 * i + 1],
{
}

/// The words in front of the first zero are all in front of it, and all where there is none.
pub proof fn law_words_until_zero(front: Seq<u16>, tail: Seq<u16>)
    requires
        forall|i: int| 0 <= i < front.len() ==> front[i] != 0,
    ensures
        until_zero(front.push(0) + tail) == front,
        until_zero(front) == front,
{
    let words = front.push(0) + tail;
    lemma_until_zero(words, front.len() as int);
    assert(words.take(front.len() as int) =~= front);
    lemma_until_zero(front, front.len() as int);
    assert(front.take(front.len() as int) =~= front);
}

/// UTF-16 is decoded unit by unit: a unit that is no surrogate is the character with its
/// number.
pub proof fn law_unit_is_its_character(c: char, rest: Seq<u16>)
    requires
        (c as u32) < 0x1_0000,
    ensures
        utf16_text(seq![c as u16] + rest) == seq![c] + utf16_text(rest),
        utf16_text(Seq::empty()) == Seq::<char>::empty(),
{
    let units = seq![c as u16] + rest;
    assert(units.skip(1) =~= rest);
}

/// A surrogate pair is one character, whose number its halves tell.
pub proof fn law_pair_is_one_character(c: char, high: u16, low: u16, rest: Seq<u16>)
    requires
        0xD800 <= high < 0xDC00,
        0xDC00 <= low < 0xE000,
        c as u32 == 0x1_0000 + (high - 0xD800) * 1024 + (low - 0xDC00),
    ensures
        utf16_text(seq![high, low] + rest) == seq![c] + utf16_text(rest),
{
    let units = seq![high, low] + rest;
    assert(units.skip(2) =~= rest);
    assert(units[0] == high && units[1] == low);
}

/// A surrogate without its partner is replaced, and what follows is decoded as if it began
/// there.
pub proof fn law_lone_surrogate_is_replaced(u: u16, rest: Seq<u16>)
    requires
        0xD800 <= u < 0xE000,
        u >= 0xDC00 || rest.len() == 0 || !(0xDC00 <= rest[0] < 0xE000),
    ensures
        utf16_text(seq![u] + rest) == seq!['\u{FFFD}'] + utf16_text(rest),
{
    let units = seq![u] + rest;
    assert(units.skip(1) =~= rest);
    assert(units[0] == u);
    if rest.len() > 0 {
        assert(units[1] == rest[0]);
    }
}

/// UTF-16 has one unit for a character below U+10000 and a surrogate pair for any other, in the
/// order of the text.
pub proof fn law_units_of_each_character(s: Seq<char>, c: char)
    ensures
        utf16_units(Seq::empty()) == Seq::<u16>::empty(),
        (c as u32) < 0x1_0000 ==> utf16_units(s.push(c)) == utf16_units(s).push(c as u16),
        c as u32 >= 0x1_0000 ==> {
            let units = utf16_units(s.push(c));
            let n = utf16_units(s).len() as int;
            &&& units.len() == n + 2
            &&& units.take(n) == utf16_units(s)
            &&& 0xD800 <= units[n] < 0xDC00 && 0xDC00 <= units[n + 1] < 0xE000
            &&& c as u32 == 0x1_0000 + (units[n] - 0xD800) * 1024 + (units[n + 1] - 0xDC00)
        },
{
    lemma_units_push(s, c);
    lemma_char_units(c);
    if (c as u32) < 0x1_0000 {
        assert(utf16_units(s) + char_units(c) =~= utf16_units(s).push(c as u16));
    } else {
        let n = utf16_units(s).len() as int;
        assert((utf16_units(s) + char_units(c)).take(n) =~= utf16_units(s));
    }
}

} // verus!
