//! Strings as sequences of characters: white space, search and separators.

use vstd::prelude::*;

verus! {

broadcast use vstd::string::group_string_axioms;

/// `String::push` appends one character.
pub assume_specification[ String::push ](s: &mut String, c: char)
    ensures
        final(s)@ == old(s)@.push(c),
;

/// `char::from_u32` gives the character of a Unicode scalar value, and nothing for any other
/// number.
pub assume_specification[ char::from_u32 ](code: u32) -> (r: Option<char>)
    ensures
        r == if is_scalar(code as int) {
            Some(code as char)
        } else {
            None
        },
;

/// Whether a number is a Unicode scalar value.
pub open spec fn is_scalar(code: int) -> bool {
    0 <= code <= 0xD7FF || 0xE000 <= code <= 0x10FFFF
}

/// What `str::to_uppercase` makes of a text.
pub uninterp spec fn uppercased(s: Seq<char>) -> Seq<char>;

/// The ASCII letters in upper case, everything else as it is.
pub open spec fn ascii_upper(c: char) -> char {
    if 'a' <= c && c <= 'z' {
        (c as u32 - 32) as char
    } else {
        c
    }
}

/// A text in upper case. The Unicode rules change the letters `a` to `z` alone in a text of
/// ASCII characters.
pub open spec fn upper_text(s: Seq<char>) -> Seq<char> {
    if is_ascii_text(s) {
        s.map_values(|c: char| ascii_upper(c))
    } else {
        uppercased(s)
    }
}

/// `str::to_uppercase` maps a text by the Unicode rules for upper case. The contract states
/// the result for a text of ASCII characters, and names it for any other.
pub assume_specification[ str::to_uppercase ](s: &str) -> (r: String)
    ensures
        !is_ascii_text(s@) ==> r@ == uppercased(s@),
        is_ascii_text(s@) ==> r@ == s@.map_values(|c: char| ascii_upper(c)),
;

/// Whether a text has ASCII characters only.
pub open spec fn is_ascii_text(s: Seq<char>) -> bool {
    forall|i: int| 0 <= i < s.len() ==> (#[trigger] s[i] as u32) < 128
}

/// The characters of a string.
pub fn chars_of(s: &str) -> (v: Vec<char>)
    ensures
        v@ == s@,
{
    let mut v: Vec<char> = Vec::new();
    for c in it: s.chars()
        invariant
            it.seq() == s@,
            v@ == s@.take(it.index() as int),
    {
        v.push(c);
    }
    v
}

/// The string made of the given characters.
pub fn string_of(chars: &[char]) -> (s: String)
    ensures
        s@ == chars@,
{
    let mut s: String = String::new();
    for i in 0..chars.len()
        invariant
            s@ == chars@.take(i as int),
    {
        s.push(chars[i]);
        assert(chars@.take(i + 1) =~= chars@.take(i as int).push(chars@[i as int]));
    }
    assert(chars@.take(chars@.len() as int) =~= chars@);
    s
}

// ---------------------------------------------------------------------------
// White space and search
// ---------------------------------------------------------------------------

/// The characters with the Unicode property White_Space.
pub open spec fn is_white(c: char) -> bool {
    ||| 0x09 <= c as u32 <= 0x0D
    ||| c as u32 == 0x20
    ||| c as u32 == 0x85
    ||| c as u32 == 0xA0
    ||| c as u32 == 0x1680
    ||| 0x2000 <= c as u32 <= 0x200A
    ||| c as u32 == 0x2028
    ||| c as u32 == 0x2029
    ||| c as u32 == 0x202F
    ||| c as u32 == 0x205F
    ||| c as u32 == 0x3000
}

fn white(c: char) -> (b: bool)
    ensures
        b == is_white(c),
{
    let u: u32 = c as u32;
    (0x09 <= u && u <= 0x0D) || u == 0x20 || u == 0x85 || u == 0xA0 || u == 0x1680 || (0x2000 <= u
        && u <= 0x200A) || u == 0x2028 || u == 0x2029 || u == 0x202F || u == 0x205F || u == 0x3000
}

/// `s` without the white space in front.
pub open spec fn trimmed_front(s: Seq<char>) -> Seq<char>
    decreases s.len(),
{
    if s.len() > 0 && is_white(s[0]) {
        trimmed_front(s.skip(1))
    } else {
        s
    }
}

/// `s` without the white space at its end.
pub open spec fn trimmed_back(s: Seq<char>) -> Seq<char>
    decreases s.len(),
{
    if s.len() > 0 && is_white(s.last()) {
        trimmed_back(s.drop_last())
    } else {
        s
    }
}

/// `s` without the white space at either end.
pub open spec fn trimmed(s: Seq<char>) -> Seq<char> {
    trimmed_back(trimmed_front(s))
}

/// Removes white space at either end.
pub fn trim(chars: &[char]) -> (r: Vec<char>)
    ensures
        r@ == trimmed(chars@),
{
    let mut start: usize = 0;
    assert(chars@.skip(0) =~= chars@);
    while start < chars.len() && white(chars[start])
        invariant
            start <= chars@.len(),
            trimmed_front(chars@.skip(start as int)) == trimmed_front(chars@),
        decreases chars@.len() - start,
    {
        assert(chars@.skip(start as int).skip(1) =~= chars@.skip(start + 1));
        start += 1;
    }
    let ghost front = chars@.skip(start as int);
    assert(front == trimmed_front(chars@));
    let mut end: usize = chars.len();
    assert(chars@.subrange(start as int, end as int) =~= front);
    while start < end && white(chars[end - 1])
        invariant
            start <= end <= chars@.len(),
            trimmed_back(chars@.subrange(start as int, end as int)) == trimmed_back(front),
        decreases end,
    {
        assert(chars@.subrange(start as int, end as int).drop_last() =~= chars@.subrange(
            start as int,
            end - 1,
        ));
        end -= 1;
    }
    let r: Vec<char> = copied(chars, start, end);
    r
}

/// A copy of `chars[start..end]`.
pub fn copied(chars: &[char], start: usize, end: usize) -> (r: Vec<char>)
    requires
        start <= end <= chars@.len(),
    ensures
        r@ == chars@.subrange(start as int, end as int),
{
    vstd::slice::slice_to_vec(vstd::slice::slice_subrange(chars, start, end))
}

/// Whether `needle` stands in `hay` at position `i`.
pub open spec fn occurs_at(hay: Seq<char>, needle: Seq<char>, i: int) -> bool {
    &&& 0 <= i
    &&& i + needle.len() <= hay.len()
    &&& hay.subrange(i, i + needle.len()) == needle
}

/// `r` is the position of the first occurrence of `needle` in `hay`, if there is one.
pub open spec fn is_first_occurrence(hay: Seq<char>, needle: Seq<char>, r: Option<int>) -> bool {
    match r {
        Some(i) => occurs_at(hay, needle, i) && (forall|j: int|
            j < i ==> !#[trigger] occurs_at(hay, needle, j)),
        None => forall|j: int| !#[trigger] occurs_at(hay, needle, j),
    }
}

/// The position of the first occurrence of `needle` in `hay`, if there is one.
pub open spec fn first_occurrence(hay: Seq<char>, needle: Seq<char>) -> Option<int> {
    choose|r: Option<int>| is_first_occurrence(hay, needle, r)
}

/// There is only one first occurrence.
pub proof fn lemma_first_occurrence(hay: Seq<char>, needle: Seq<char>, r: Option<int>)
    requires
        is_first_occurrence(hay, needle, r),
    ensures
        first_occurrence(hay, needle) == r,
{
    let c = first_occurrence(hay, needle);
    assert(is_first_occurrence(hay, needle, c));
    if r is Some && c is Some {
        if c->0 < r->0 {
            assert(!occurs_at(hay, needle, c->0));
        }
        if r->0 < c->0 {
            assert(!occurs_at(hay, needle, r->0));
        }
    } else if r is Some {
        assert(!occurs_at(hay, needle, r->0));
    } else if c is Some {
        assert(!occurs_at(hay, needle, c->0));
    }
}

/// Looks for the first occurrence of `needle` in `hay`.
pub fn find(hay: &[char], needle: &[char]) -> (r: Option<usize>)
    ensures
        match r {
            Some(i) => first_occurrence(hay@, needle@) == Some(i as int) && i + needle@.len()
                <= hay.len(),
            None => first_occurrence(hay@, needle@) == None::<int>,
        },
{
    let n: usize = needle.len();
    if n > hay.len() {
        proof {
            assert(is_first_occurrence(hay@, needle@, None));
            lemma_first_occurrence(hay@, needle@, None);
        }
        return None;
    }
    let mut i: usize = 0;
    while i <= hay.len() - n
        invariant
            n == needle@.len(),
            n <= hay@.len(),
            i <= hay@.len() - n + 1,
            forall|j: int| j < i ==> !#[trigger] occurs_at(hay@, needle@, j),
        decreases hay@.len() - n + 1 - i,
    {
        let mut k: usize = 0;
        while k < n && hay[i + k] == needle[k]
            invariant
                n == needle@.len(),
                i + n <= hay.len(),
                k <= n,
                forall|j: int| 0 <= j < k ==> hay@[i + j] == #[trigger] needle@[j],
            decreases n - k,
        {
            k += 1;
        }
        if k == n {
            assert(hay@.subrange(i as int, i + n) =~= needle@);
            proof {
                assert(is_first_occurrence(hay@, needle@, Some(i as int)));
                lemma_first_occurrence(hay@, needle@, Some(i as int));
            }
            return Some(i);
        }
        assert(hay@.subrange(i as int, i + n)[k as int] == hay@[i + k]);
        i += 1;
    }
    proof {
        assert(is_first_occurrence(hay@, needle@, None));
        lemma_first_occurrence(hay@, needle@, None);
    }
    None
}

/// The position of the first `c` in `s`, or the length of `s` where there is none.
pub open spec fn first_index(s: Seq<char>, c: char) -> int
    decreases s.len(),
{
    if s.len() == 0 || s[0] == c {
        0
    } else {
        1 + first_index(s.skip(1), c)
    }
}

/// `first_index` is the position that has no `c` in front of it.
pub proof fn lemma_first_index(s: Seq<char>, c: char, n: int)
    requires
        0 <= n <= s.len(),
        forall|i: int| 0 <= i < n ==> s[i] != c,
        n < s.len() ==> s[n] == c,
    ensures
        first_index(s, c) == n,
    decreases s.len(),
{
    if n > 0 {
        assert forall|i: int| 0 <= i < n - 1 implies s.skip(1)[i] != c by {
            assert(s.skip(1)[i] == s[i + 1]);
        }
        lemma_first_index(s.skip(1), c, n - 1);
    }
}

/// Looks for the first `c` from position `from` on.
pub fn index_of(chars: &[char], from: usize, c: char) -> (r: usize)
    requires
        from <= chars@.len(),
    ensures
        from <= r <= chars.len(),
        r - from == first_index(chars@.skip(from as int), c),
        r < chars@.len() ==> chars@[r as int] == c,
{
    let mut r: usize = from;
    while r < chars.len() && chars[r] != c
        invariant
            from <= r <= chars.len(),
            forall|i: int| from <= i < r ==> chars@[i] != c,
        decreases chars@.len() - r,
    {
        r += 1;
    }
    proof {
        lemma_first_index(chars@.skip(from as int), c, r - from);
    }
    r
}

/// The parts of `s` between the separators.
pub open spec fn split(s: Seq<char>, sep: char) -> Seq<Seq<char>>
    decreases s.len(),
{
    let n = first_index(s, sep);
    if 0 <= n < s.len() {
        seq![s.take(n)] + split(s.skip(n + 1), sep)
    } else {
        seq![s]
    }
}

/// A part without separators in front of a separator is the first part.
pub proof fn lemma_split(part: Seq<char>, rest: Seq<char>, sep: char)
    requires
        !part.contains(sep),
    ensures
        split(part.push(sep) + rest, sep) == seq![part] + split(rest, sep),
        split(part, sep) == seq![part],
{
    let s = part.push(sep) + rest;
    let n = part.len() as int;
    assert forall|i: int| 0 <= i < n implies s[i] != sep by {
        assert(part[i] == s[i]);
    }
    lemma_first_index(s, sep, n);
    assert(s.take(n) =~= part);
    assert(s.skip(n + 1) =~= rest);
    assert forall|i: int| 0 <= i < n implies part[i] != sep by {
        assert(part.contains(part[i]));
    }
    lemma_first_index(part, sep, n);
}

/// White space at the ends is all that trimming removes.
pub proof fn lemma_nothing_to_trim(s: Seq<char>)
    requires
        s.len() > 0 ==> !is_white(s[0]) && !is_white(s.last()),
    ensures
        trimmed(s) == s,
{
}

// ---------------------------------------------------------------------------
// Laws
// ---------------------------------------------------------------------------

/// White space is what Unicode calls so.
pub proof fn law_white_space(c: char)
    ensures
        is_white(c) <==> (c == ' ' || '\t' <= c <= '\r' || c == '\u{85}' || c == '\u{a0}' || c
            == '\u{1680}' || '\u{2000}' <= c <= '\u{200a}' || c == '\u{2028}' || c == '\u{2029}'
            || c == '\u{202f}' || c == '\u{205f}' || c == '\u{3000}'),
{
}

/// White space in front does not matter.
proof fn lemma_white_front(front: Seq<char>, rest: Seq<char>)
    requires
        forall|i: int| 0 <= i < front.len() ==> is_white(#[trigger] front[i]),
    ensures
        trimmed_front(front + rest) == trimmed_front(rest),
    decreases front.len(),
{
    let s = front + rest;
    if front.len() > 0 {
        assert(is_white(front[0]));
        assert(s[0] == front[0]);
        assert forall|i: int| 0 <= i < front.skip(1).len() implies is_white(
            #[trigger] front.skip(1)[i],
        ) by {
            assert(front.skip(1)[i] == front[i + 1]);
        }
        lemma_white_front(front.skip(1), rest);
        assert(s.skip(1) =~= front.skip(1) + rest);
    } else {
        assert(s =~= rest);
    }
}

/// White space at the end does not matter.
proof fn lemma_white_back(rest: Seq<char>, back: Seq<char>)
    requires
        forall|i: int| 0 <= i < back.len() ==> is_white(#[trigger] back[i]),
    ensures
        trimmed_back(rest + back) == trimmed_back(rest),
    decreases back.len(),
{
    let s = rest + back;
    if back.len() > 0 {
        assert(is_white(back[back.len() - 1]));
        assert(s.last() == back.last());
        assert forall|i: int| 0 <= i < back.drop_last().len() implies is_white(
            #[trigger] back.drop_last()[i],
        ) by {
            assert(back.drop_last()[i] == back[i]);
        }
        lemma_white_back(rest, back.drop_last());
        assert(s.drop_last() =~= rest + back.drop_last());
    } else {
        assert(s =~= rest);
    }
}

/// Trimming removes all white space at the ends of a text, and nothing else.
pub proof fn law_trimming_removes_white_space(front: Seq<char>, s: Seq<char>, back: Seq<char>)
    requires
        forall|i: int| 0 <= i < front.len() ==> is_white(#[trigger] front[i]),
        forall|i: int| 0 <= i < back.len() ==> is_white(#[trigger] back[i]),
        s.len() > 0 ==> !is_white(s[0]) && !is_white(s[s.len() - 1]),
    ensures
        trimmed(front + s + back) == s,
{
    assert(front + s + back =~= front + (s + back));
    lemma_white_front(front, s + back);
    if s.len() > 0 {
        assert((s + back)[0] == s[0]);
        lemma_white_back(s, back);
    } else {
        assert(s + back =~= back + Seq::<char>::empty());
        lemma_white_front(back, Seq::empty());
    }
}

/// The first occurrence of a text is the one that has none in front of it.
pub proof fn law_first_occurrence_has_none_in_front(hay: Seq<char>, needle: Seq<char>, i: int)
    ensures
        0 <= i <= hay.len() - needle.len() && hay.subrange(i, i + needle.len()) == needle && (forall|
            j: int,
        |
            0 <= j < i ==> #[trigger] hay.subrange(j, j + needle.len()) != needle)
            ==> first_occurrence(hay, needle) == Some(i),
        (forall|j: int|
            0 <= j <= hay.len() - needle.len() ==> #[trigger] hay.subrange(j, j + needle.len())
                != needle) ==> first_occurrence(hay, needle) is None,
{
    if 0 <= i <= hay.len() - needle.len() && hay.subrange(i, i + needle.len()) == needle && (forall|
        j: int,
    |
        0 <= j < i ==> #[trigger] hay.subrange(j, j + needle.len()) != needle) {
        assert(is_first_occurrence(hay, needle, Some(i)));
        lemma_first_occurrence(hay, needle, Some(i));
    }
    if forall|j: int|
        0 <= j <= hay.len() - needle.len() ==> #[trigger] hay.subrange(j, j + needle.len())
            != needle {
        assert(is_first_occurrence(hay, needle, None));
        lemma_first_occurrence(hay, needle, None);
    }
}

/// The parts with a separator between each two.
pub open spec fn joined(parts: Seq<Seq<char>>, sep: char) -> Seq<char>
    decreases parts.len(),
{
    if parts.len() == 0 {
        Seq::empty()
    } else if parts.len() == 1 {
        parts[0]
    } else {
        parts[0].push(sep) + joined(parts.skip(1), sep)
    }
}

/// Splitting a text at its separators undoes joining parts that have none.
pub proof fn law_splitting_undoes_joining(parts: Seq<Seq<char>>, sep: char)
    requires
        parts.len() > 0,
        forall|i: int, k: int|
            0 <= i < parts.len() && 0 <= k < parts[i].len() ==> #[trigger] parts[i][k] != sep,
    ensures
        split(joined(parts, sep), sep) == parts,
    decreases parts.len(),
{
    assert(!parts[0].contains(sep));
    if parts.len() > 1 {
        let rest = parts.skip(1);
        assert forall|i: int, k: int|
            0 <= i < rest.len() && 0 <= k < rest[i].len() implies #[trigger] rest[i][k] != sep by {
            assert(rest[i] == parts[i + 1]);
            assert(parts[i + 1][k] != sep);
        }
        law_splitting_undoes_joining(rest, sep);
        lemma_split(parts[0], joined(rest, sep), sep);
        assert(seq![parts[0]] + rest =~= parts);
    } else {
        lemma_split(parts[0], Seq::empty(), sep);
        assert(seq![parts[0]] =~= parts);
    }
}

/// In a text of ASCII characters the small letters become the capital ones, and every other
/// character stays.
pub proof fn law_upper_case_of_ascii(s: Seq<char>, i: int)
    requires
        forall|k: int| 0 <= k < s.len() ==> (#[trigger] s[k] as u32) < 128,
        0 <= i < s.len(),
    ensures
        upper_text(s).len() == s.len(),
        'a' <= s[i] <= 'z' ==> upper_text(s)[i] as u32 == s[i] as u32 - 'a' as u32 + 'A' as u32,
        !('a' <= s[i] <= 'z') ==> upper_text(s)[i] == s[i],
{
}

} // verus!
