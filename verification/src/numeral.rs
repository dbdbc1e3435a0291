//! Unsigned numerals: reading them and writing them.

use vstd::arithmetic::power::pow;
use vstd::prelude::*;

verus! {

/// The value of a character as a digit: 0 to 9, and 10 to 35 for a letter of either case.
/// Any other character has a value that is no digit of any radix.
pub open spec fn digit_value(c: char) -> int {
    if '0' <= c && c <= '9' {
        c as u32 - '0' as u32
    } else if 'a' <= c && c <= 'z' {
        c as u32 - 'a' as u32 + 10
    } else if 'A' <= c && c <= 'Z' {
        c as u32 - 'A' as u32 + 10
    } else {
        36
    }
}

/// The value of a sequence of digits, the most significant first.
pub open spec fn digits_value(s: Seq<char>, radix: int) -> int
    decreases s.len(),
{
    if s.len() == 0 {
        0
    } else {
        digits_value(s.drop_last(), radix) * radix + digit_value(s.last())
    }
}

/// Whether every character is a digit in `radix`.
pub open spec fn all_digits(s: Seq<char>, radix: int) -> bool {
    forall|i: int| 0 <= i < s.len() ==> digit_value(#[trigger] s[i]) < radix
}

/// What stands behind an optional plus sign.
pub open spec fn unsigned_part(s: Seq<char>) -> Seq<char> {
    if s.len() > 0 && s[0] == '+' {
        s.skip(1)
    } else {
        s
    }
}

/// The number that `s` denotes: an optional plus sign and at least one digit, with a value of
/// at most `max`. Anything else denotes no number.
pub open spec fn unsigned_value(s: Seq<char>, radix: int, max: int) -> Option<int> {
    let digits = unsigned_part(s);
    if digits.len() > 0 && all_digits(digits, radix) && digits_value(digits, radix) <= max {
        Some(digits_value(digits, radix))
    } else {
        None
    }
}

fn digit(c: char) -> (d: u32)
    ensures
        d == digit_value(c),
        d <= 36,
{
    let u: u32 = c as u32;
    if '0' <= c && c <= '9' {
        u - 48
    } else if 'a' <= c && c <= 'z' {
        u - 97 + 10
    } else if 'A' <= c && c <= 'Z' {
        u - 65 + 10
    } else {
        36
    }
}

/// More digits do not make a value smaller.
pub proof fn lemma_value_grows(s: Seq<char>, k: int, radix: int)
    requires
        0 <= k <= s.len(),
        radix >= 1,
    ensures
        0 <= digits_value(s.take(k), radix) <= digits_value(s, radix),
    decreases s.len(),
{
    if s.len() == 0 {
        assert(s.take(k) =~= s);
    } else {
        lemma_value_grows(s.drop_last(), if k < s.len() { k } else { k - 1 }, radix);
        let front = digits_value(s.drop_last(), radix);
        assert(0 <= front && front <= front * radix) by {
            lemma_value_grows(s.drop_last(), 0, radix);
            assert(front <= front * radix) by (nonlinear_arith)
                requires
                    0 <= front,
                    radix >= 1,
            ;
        }
        if k < s.len() {
            assert(s.drop_last().take(k) =~= s.take(k));
        } else {
            assert(s.take(k) =~= s);
        }
    }
}

/// Reads an unsigned numeral of at most `max`.
pub fn parse_unsigned(chars: &[char], radix: u32, max: u32) -> (r: Option<u32>)
    requires
        2 <= radix <= 36,
    ensures
        r is Some <==> unsigned_value(chars@, radix as int, max as int) is Some,
        r is Some ==> unsigned_value(chars@, radix as int, max as int) == Some(r->0 as int),
{
    let start: usize = if chars.len() > 0 && chars[0] == '+' {
        1
    } else {
        0
    };
    let ghost digits = unsigned_part(chars@);
    assert(digits =~= chars@.skip(start as int));
    if start == chars.len() {
        return None;
    }
    let mut value: u64 = 0;
    let mut i: usize = start;
    while i < chars.len()
        invariant
            2 <= radix <= 36,
            start <= i <= chars@.len(),
            start < chars@.len(),
            digits == unsigned_part(chars@),
            digits == chars@.skip(start as int),
            value == digits_value(digits.take(i - start), radix as int),
            value <= max,
            forall|j: int| 0 <= j < i - start ==> digit_value(#[trigger] digits[j]) < radix,
        decreases chars@.len() - i,
    {
        let d: u32 = digit(chars[i]);
        assert(digits[i - start] == chars@[i as int]);
        if d >= radix {
            return None;
        }
        let ghost before = value;
        assert(before * radix <= 0xffff_ffff * 36) by (nonlinear_arith)
            requires
                before <= 0xffff_ffff,
                radix <= 36,
        ;
        value = value * (radix as u64) + d as u64;
        i += 1;
        proof {
            assert(digits.take(i - start).drop_last() =~= digits.take(i - start - 1));
            if value > max {
                lemma_value_grows(digits, i - start, radix as int);
            }
        }
        if value > max as u64 {
            return None;
        }
    }
    assert(digits.take(i - start) =~= digits);
    Some(value as u32)
}

/// The character of a digit below 36, in lower case.
pub open spec fn digit_char(d: int) -> char {
    if d < 10 {
        (d + 48) as char
    } else {
        (d - 10 + 97) as char
    }
}

/// Division by a radix leaves a smaller quotient and a digit.
pub proof fn lemma_quotient(n: int, radix: int)
    by (nonlinear_arith)
    requires
        2 <= radix <= n,
    ensures
        0 <= n / radix < n,
        0 <= n % radix < radix,
        n == (n / radix) * radix + n % radix,
{
}

/// The numeral of `n` without leading zeros, in lower case.
pub open spec fn numeral(n: int, radix: int) -> Seq<char>
    decreases n,
{
    if 2 <= radix <= n {
        proof {
            lemma_quotient(n, radix);
        }
        numeral(n / radix, radix).push(digit_char(n % radix))
    } else {
        seq![digit_char(n)]
    }
}

/// The last `width` hexadecimal digits of `n`, in lower case.
pub open spec fn hex_fixed(n: int, width: nat) -> Seq<char>
    decreases width,
{
    if width == 0 {
        Seq::empty()
    } else {
        hex_fixed(n / 16, (width - 1) as nat).push(digit_char(n % 16))
    }
}

fn char_of_digit(d: u32) -> (c: char)
    requires
        d < 36,
    ensures
        c == digit_char(d as int),
{
    if d < 10 {
        (d as u8 + 48) as char
    } else {
        (d as u8 - 10 + 97) as char
    }
}

/// Writes `n` in `radix` without leading zeros.
pub fn write_numeral(n: u32, radix: u32) -> (r: Vec<char>)
    requires
        2 <= radix <= 36,
    ensures
        r@ == numeral(n as int, radix as int),
    decreases n,
{
    if n < radix {
        let mut r: Vec<char> = Vec::new();
        r.push(char_of_digit(n));
        r
    } else {
        proof {
            lemma_quotient(n as int, radix as int);
        }
        let mut r: Vec<char> = write_numeral(n / radix, radix);
        r.push(char_of_digit(n % radix));
        r
    }
}

/// Writes the last `width` hexadecimal digits of `n`.
pub fn write_hex_fixed(n: u32, width: u8) -> (r: Vec<char>)
    ensures
        r@ == hex_fixed(n as int, width as nat),
    decreases width,
{
    if width == 0 {
        Vec::new()
    } else {
        let mut r: Vec<char> = write_hex_fixed(n / 16, width - 1);
        r.push(char_of_digit(n % 16));
        r
    }
}

/// Reading a numeral gives back the number that it was written for.
pub proof fn law_numeral_reads_back(n: int, radix: int, max: int)
    requires
        0 <= n <= max,
        2 <= radix <= 36,
    ensures
        unsigned_value(numeral(n, radix), radix, max) == Some(n),
    decreases n,
{
    lemma_numeral(n, radix);
    let s = numeral(n, radix);
    assert(digit_value(s[0]) < radix);
    assert(digit_value('+') == 36);
}

/// A numeral has digits only, and their value is the number.
pub proof fn lemma_numeral(n: int, radix: int)
    requires
        0 <= n,
        2 <= radix <= 36,
    ensures
        numeral(n, radix).len() > 0,
        all_digits(numeral(n, radix), radix),
        digits_value(numeral(n, radix), radix) == n,
    decreases n,
{
    reveal_with_fuel(digits_value, 2);
    if n >= radix {
        lemma_quotient(n, radix);
        lemma_numeral(n / radix, radix);
        assert(numeral(n, radix).drop_last() =~= numeral(n / radix, radix));
    } else {
        assert(numeral(n, radix).drop_last() =~= Seq::empty());
    }
}

/// A hexadecimal numeral of fixed width has as many digits as its width.
pub proof fn lemma_hex_fixed(n: int, width: nat)
    requires
        0 <= n,
    ensures
        hex_fixed(n, width).len() == width,
        all_digits(hex_fixed(n, width), 16),
    decreases width,
{
    if width > 0 {
        lemma_hex_fixed(n / 16, (width - 1) as nat);
    }
}

/// The digits are `0` to `9` and the letters of either case, and nothing else is a digit.
pub proof fn law_digits_have_their_values(d: int, c: char)
    ensures
        0 <= d < 10 ==> digit_value((48 + d) as char) == d,
        10 <= d < 36 ==> digit_value((97 + d - 10) as char) == d && digit_value(
            (65 + d - 10) as char,
        ) == d,
        !('0' <= c <= '9') && !('a' <= c <= 'z') && !('A' <= c <= 'Z') ==> digit_value(c) >= 36,
{
}

/// One more digit multiplies the value by the radix and adds that of the digit.
pub proof fn law_digits_add_up(s: Seq<char>, c: char, radix: int)
    ensures
        digits_value(Seq::empty(), radix) == 0,
        digits_value(s.push(c), radix) == digits_value(s, radix) * radix + digit_value(c),
{
    assert(s.push(c).drop_last() =~= s);
}

/// A text of digits denotes their value where that is not too large, with a plus sign in front
/// or without. A text that is empty or has any other character denotes no number.
pub proof fn law_numbers_are_digits(s: Seq<char>, radix: int, max: int)
    requires
        2 <= radix <= 36,
    ensures
        s.len() > 0 && (forall|i: int| 0 <= i < s.len() ==> digit_value(#[trigger] s[i]) < radix)
            ==> {
            let value = digits_value(s, radix);
            &&& value <= max ==> unsigned_value(s, radix, max) == Some(value)
            &&& value <= max ==> unsigned_value(seq!['+'] + s, radix, max) == Some(value)
            &&& value > max ==> unsigned_value(s, radix, max) is None
            &&& value > max ==> unsigned_value(seq!['+'] + s, radix, max) is None
        },
        s.len() == 0 ==> unsigned_value(s, radix, max) is None && unsigned_value(
            seq!['+'] + s,
            radix,
            max,
        ) is None,
        forall|i: int|
            0 <= i < s.len() && digit_value(#[trigger] s[i]) >= radix && !(i == 0 && s[0] == '+')
                ==> unsigned_value(s, radix, max) is None && unsigned_value(
                seq!['+'] + s,
                radix,
                max,
            ) is None,
{
    let signed = seq!['+'] + s;
    assert(signed.skip(1) =~= s);
    assert(digit_value('+') == 36);
    assert forall|i: int|
        0 <= i < s.len() && digit_value(#[trigger] s[i]) >= radix && !(i == 0 && s[0]
            == '+') implies unsigned_value(s, radix, max) is None && unsigned_value(
        signed,
        radix,
        max,
    ) is None by {
        if s[0] == '+' {
            assert(s.skip(1)[i - 1] == s[i]);
        }
    }
}

/// A numeral begins with the digit zero only where it is that digit, and has no capitals.
pub proof fn law_numeral_is_the_shortest(n: int, radix: int)
    requires
        0 <= n,
        2 <= radix <= 36,
    ensures
        n > 0 ==> numeral(n, radix)[0] != '0',
        n < radix ==> numeral(n, radix).len() == 1,
        forall|i: int|
            0 <= i < numeral(n, radix).len() ==> !('A' <= #[trigger] numeral(n, radix)[i] <= 'Z'),
    decreases n,
{
    if n >= radix {
        lemma_quotient(n, radix);
        assert(n / radix > 0) by (nonlinear_arith)
            requires
                2 <= radix <= n,
        ;
        law_numeral_is_the_shortest(n / radix, radix);
        lemma_numeral(n / radix, radix);
    }
}

/// A hexadecimal numeral of fixed width has the value that it was written for, where that fits,
/// and no capitals.
pub proof fn law_hex_fixed_reads_back(n: int, width: nat)
    requires
        0 <= n < pow(16, width),
    ensures
        hex_fixed(n, width).len() == width,
        all_digits(hex_fixed(n, width), 16),
        digits_value(hex_fixed(n, width), 16) == n,
        forall|i: int| 0 <= i < width ==> !('A' <= #[trigger] hex_fixed(n, width)[i] <= 'Z'),
    decreases width,
{
    reveal(pow);
    lemma_hex_fixed(n, width);
    if width > 0 {
        let rest = (width - 1) as nat;
        assert(pow(16, width) == 16 * pow(16, rest));
        law_hex_fixed_reads_back(n / 16, rest);
        assert(hex_fixed(n, width).drop_last() =~= hex_fixed(n / 16, rest));
    }
}

} // verus!
