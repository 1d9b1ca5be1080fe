//! Classes of characters, the folding of ASCII case and trimming.

use vstd::prelude::*;

verus! {

/// An ASCII decimal digit.
pub open spec fn is_digit(c: char) -> bool {
    '0' <= c && c <= '9'
}

/// An ASCII letter or decimal digit.
pub open spec fn is_alphanumeric(c: char) -> bool {
    ||| is_digit(c)
    ||| 'a' <= c && c <= 'z'
    ||| 'A' <= c && c <= 'Z'
}

/// An ASCII hexadecimal digit, in either case.
pub open spec fn is_hex_digit(c: char) -> bool {
    ||| is_digit(c)
    ||| 'a' <= c && c <= 'f'
    ||| 'A' <= c && c <= 'F'
}

/// Space, horizontal tab, line feed, form feed or carriage return.
pub open spec fn is_ascii_space(c: char) -> bool {
    c == ' ' || c == '\t' || c == '\n' || c == '\x0C' || c == '\r'
}

/// A character with the Unicode property White_Space.
pub open spec fn is_unicode_space(c: char) -> bool {
    let code = c as int;
    ||| 0x09 <= code <= 0x0D
    ||| code == 0x20 || code == 0x85 || code == 0xA0 || code == 0x1680
    ||| 0x2000 <= code <= 0x200A
    ||| code == 0x2028 || code == 0x2029 || code == 0x202F || code == 0x205F || code == 0x3000
}

/// The lower-case form of an ASCII letter; any other character is kept.
pub open spec fn lower_char(c: char) -> char {
    if 'A' <= c && c <= 'Z' {
        (c as int + 32) as char
    } else {
        c
    }
}

/// A text with its ASCII letters in lower case.
pub open spec fn lower_text(text: Seq<char>) -> Seq<char> {
    text.map_values(|c: char| lower_char(c))
}

/// The lower-case form of a byte that is an ASCII letter; any other byte is kept.
pub open spec fn lower_byte(b: u8) -> u8 {
    if 65 <= b <= 90 {
        (b + 32) as u8
    } else {
        b
    }
}

/// The text whose characters are the given bytes, each byte one code point.
pub open spec fn chars_of(bytes: Seq<u8>) -> Seq<char> {
    bytes.map_values(|b: u8| b as char)
}

/// The bytes of a text that holds nothing but code points below 256.
pub open spec fn bytes_of(text: Seq<char>) -> Seq<u8> {
    text.map_values(|c: char| c as u8)
}

/// A text without its leading and its trailing white space.
pub open spec fn trimmed(text: Seq<char>) -> Seq<char>
    decreases text.len(),
{
    if text.len() == 0 {
        text
    } else if is_unicode_space(text.first()) {
        trimmed(text.drop_first())
    } else if is_unicode_space(text.last()) {
        trimmed(text.drop_last())
    } else {
        text
    }
}

/// Whether a byte is an ASCII letter or decimal digit.
pub fn alphanumeric_byte(b: u8) -> (r: bool)
    ensures
        r == is_alphanumeric(b as char),
{
    (48 <= b && b <= 57) || (97 <= b && b <= 122) || (65 <= b && b <= 90)
}

/// Whether a byte is an ASCII hexadecimal digit, in either case.
pub fn hex_digit_byte(b: u8) -> (r: bool)
    ensures
        r == is_hex_digit(b as char),
{
    (48 <= b && b <= 57) || (97 <= b && b <= 102) || (65 <= b && b <= 70)
}

/// The lower-case form of a byte that is an ASCII letter; any other byte is kept.
pub fn fold_byte(b: u8) -> (r: u8)
    ensures
        r == lower_byte(b),
{
    if 65 <= b && b <= 90 {
        b + 32
    } else {
        b
    }
}

/// The lower-case form of an ASCII letter; any other character is kept.
pub fn fold_char(c: char) -> (r: char)
    ensures
        r == lower_char(c),
{
    if 'A' <= c && c <= 'Z' {
        (c as u8 + 32) as char
    } else {
        c
    }
}

/// Whether two texts agree but for the case of their ASCII letters.
pub fn eq_ignore_case(a: &str, b: &str) -> (r: bool)
    ensures
        r == (lower_text(a@) == lower_text(b@)),
{
    let n = a.unicode_len();
    if n != b.unicode_len() {
        assert(lower_text(a@).len() != lower_text(b@).len());
        return false;
    }
    for i in 0..n
        invariant
            n == a@.len(),
            n == b@.len(),
            forall|j: int| 0 <= j < i ==> lower_char(a@[j]) == lower_char(b@[j]),
    {
        if fold_char(a.get_char(i)) != fold_char(b.get_char(i)) {
            assert(lower_text(a@)[i as int] != lower_text(b@)[i as int]);
            return false;
        }
    }
    assert(lower_text(a@) =~= lower_text(b@));
    true
}

/// Whether two texts are the same.
pub fn same_text(a: &str, b: &str) -> (r: bool)
    ensures
        r == (a@ == b@),
{
    let n = a.unicode_len();
    if n != b.unicode_len() {
        return false;
    }
    for i in 0..n
        invariant
            n == a@.len(),
            n == b@.len(),
            forall|j: int| 0 <= j < i ==> a@[j] == b@[j],
    {
        if a.get_char(i) != b.get_char(i) {
            return false;
        }
    }
    assert(a@ =~= b@);
    true
}

/// Whether two byte strings are the same.
pub fn same_bytes(a: &Vec<u8>, b: &Vec<u8>) -> (r: bool)
    ensures
        r == (a@ == b@),
{
    if a.len() != b.len() {
        return false;
    }
    for i in 0..a.len()
        invariant
            a@.len() == b@.len(),
            forall|j: int| 0 <= j < i ==> a@[j] == b@[j],
    {
        if a[i] != b[i] {
            return false;
        }
    }
    assert(a@ =~= b@);
    true
}

/// Whether a character has the Unicode property White_Space.
fn unicode_space(c: char) -> (r: bool)
    ensures
        r == is_unicode_space(c),
{
    let code: u32 = c as u32;
    (0x09 <= code && code <= 0x0D) || code == 0x20 || code == 0x85 || code == 0xA0 || code == 0x1680
        || (0x2000 <= code && code <= 0x200A) || code == 0x2028 || code == 0x2029 || code == 0x202F
        || code == 0x205F || code == 0x3000
}

/// A text without its leading and its trailing white space.
pub fn trim_text(text: &str) -> (r: String)
    ensures
        r@ == trimmed(text@),
{
    let n = text.unicode_len();
    let mut from: usize = 0;
    assert(text@.subrange(0, n as int) =~= text@);
    while from < n && unicode_space(text.get_char(from))
        invariant
            n == text@.len(),
            from <= n,
            trimmed(text@.subrange(from as int, n as int)) == trimmed(text@),
        decreases n - from,
    {
        assert(text@.subrange(from as int, n as int).drop_first() =~= text@.subrange(
            from + 1,
            n as int,
        ));
        from = from + 1;
    }
    let mut to: usize = n;
    while from < to && unicode_space(text.get_char(to - 1))
        invariant
            n == text@.len(),
            from <= to <= n,
            from < to ==> !is_unicode_space(text@[from as int]),
            trimmed(text@.subrange(from as int, to as int)) == trimmed(text@),
        decreases to - from,
    {
        assert(text@.subrange(from as int, to as int).drop_last() =~= text@.subrange(
            from as int,
            to - 1,
        ));
        to = to - 1;
    }
    text.substring_char(from, to).to_owned()
}

} // verus!
