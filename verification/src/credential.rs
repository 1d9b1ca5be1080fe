//! Bearer tokens and the DNS label that stands for one.

use hmac::{Hmac, KeyInit, Mac};
use sha2::Sha256;
use vstd::prelude::*;

use crate::text::hex_digit_byte;

verus! {

/// The lower-case hexadecimal digit of a value below 16.
pub open spec fn hex_digit(value: int) -> char {
    if value < 10 {
        (48 + value) as char
    } else {
        (87 + value) as char
    }
}

/// Bytes in lower-case hexadecimal, two digits for each byte.
pub open spec fn hex_text(bytes: Seq<u8>) -> Seq<char> {
    Seq::new(
        2 * bytes.len(),
        |i: int|
            if i % 2 == 0 {
                hex_digit(bytes[i / 2] as int / 16)
            } else {
                hex_digit(bytes[i / 2] as int % 16)
            },
    )
}

/// Bit `k` of a byte string, the most significant bit of a byte first; behind
/// the last byte the bits are zero.
pub open spec fn bit(bytes: Seq<u8>, k: int) -> int {
    let weights = seq![128int, 64, 32, 16, 8, 4, 2, 1];
    if 0 <= k < 8 * bytes.len() {
        (bytes[k / 8] as int / weights[k % 8]) % 2
    } else {
        0
    }
}

/// Group `i` of the five-bit groups of a byte string.
pub open spec fn five_bits(bytes: Seq<u8>, i: int) -> int {
    16 * bit(bytes, 5 * i) + 8 * bit(bytes, 5 * i + 1) + 4 * bit(bytes, 5 * i + 2) + 2 * bit(
        bytes,
        5 * i + 3,
    ) + bit(bytes, 5 * i + 4)
}

/// The lower-case base32hex digit (RFC 4648) of a value below 32.
pub open spec fn base32_digit(value: int) -> char {
    if value < 10 {
        (48 + value) as char
    } else {
        (87 + value) as char
    }
}

/// Bytes in lower-case base32hex without padding.
pub open spec fn base32_text(bytes: Seq<u8>) -> Seq<char> {
    Seq::new(
        ((8 * bytes.len() + 4) / 5) as nat,
        |i: int| base32_digit(five_bits(bytes, i)),
    )
}

/// A token: 32 hexadecimal digits.
pub open spec fn is_token(text: Seq<char>) -> bool {
    &&& text.len() == 32
    &&& forall|i: int| 0 <= i < text.len() ==> crate::text::is_hex_digit(#[trigger] text[i])
}

/// The HMAC-SHA256 of a message under a key.
pub uninterp spec fn hmac_sha256(key: Seq<u8>, message: Seq<u8>) -> Seq<u8>;

/// The tag of a token under the service's secret. The credential for the token
/// is stored under it.
pub open spec fn tag_of(secret: Seq<u8>, token: Seq<char>) -> Seq<u8> {
    hmac_sha256(secret, vstd::utf8::encode_utf8(token))
}

/// Calls `rand::random`. Nothing is claimed of the bytes but their number.
#[verifier::external_body]
pub(crate) fn random_bytes() -> (r: [u8; 16]) {
    rand::random()
}

/// Calls `hex::encode`. Claimed: the text is the bytes in lower-case
/// hexadecimal.
#[verifier::external_body]
fn hex_encode(bytes: &[u8; 16]) -> (r: String)
    ensures
        r@ == hex_text(bytes@),
{
    hex::encode(bytes)
}

/// Computes `Hmac::<Sha256>` of hmac and sha2, whose key may have any length.
/// Claimed: the tag is a function of the key and the message, and is 32 bytes
/// long.
#[verifier::external_body]
pub(crate) fn hmac_tag(key: &Vec<u8>, message: &str) -> (r: Vec<u8>)
    ensures
        r@ == hmac_sha256(key@, vstd::utf8::encode_utf8(message@)),
        r@.len() == 32,
{
    let mut hash = Hmac::<Sha256>::new_from_slice(key).expect("a key of any length");
    hash.update(message.as_bytes());
    hash.finalize().into_bytes().to_vec()
}

/// Calls `base32::encode` with the alphabet `Rfc4648HexLower` and no padding.
/// Claimed: the text is the bytes in lower-case base32hex.
#[verifier::external_body]
fn base32_encode(bytes: &Vec<u8>) -> (r: String)
    ensures
        r@ == base32_text(bytes@),
{
    base32::encode(base32::Alphabet::Rfc4648HexLower { padding: false }, bytes)
}

/// The token that stands for these random bytes.
pub fn token_from_bytes(bytes: &[u8; 16]) -> (r: String)
    ensures
        r@ == hex_text(bytes@),
        is_token(r@),
{
    proof {
        lemma_hex_text_is_token(bytes@);
    }
    hex_encode(bytes)
}

/// Whether a text has the form of a token.
pub fn valid_token(token: &str) -> (r: bool)
    ensures
        r == is_token(token@),
{
    if !token.is_ascii() {
        proof {
            if is_token(token@) {
                assert forall|i: int| 0 <= i < token@.len() implies (token@[i] as int) < 128 by {
                    assert(crate::text::is_hex_digit(token@[i]));
                }
                assert(token.is_ascii());
            }
        }
        return false;
    }
    let bytes = token.as_bytes();
    assert(bytes@.len() == token@.len());
    if bytes.len() != 32 {
        return false;
    }
    for i in 0..bytes.len()
        invariant
            bytes@.len() == token@.len(),
            forall|j: int| 0 <= j < token@.len() ==> bytes@[j] as char == #[trigger] token@[j],
            forall|j: int| 0 <= j < i ==> crate::text::is_hex_digit(#[trigger] token@[j]),
    {
        if !hex_digit_byte(bytes[i]) {
            assert(!crate::text::is_hex_digit(token@[i as int]));
            return false;
        }
    }
    true
}

/// The label for the credential with this tag.
pub fn label_of_tag(tag: &Vec<u8>) -> (r: String)
    ensures
        r@ == base32_text(tag@),
        forall|i: int| 0 <= i < r@.len() ==> crate::text::is_alphanumeric(#[trigger] r@[i]),
{
    proof {
        lemma_base32_alphanumeric(tag@);
    }
    base32_encode(tag)
}

/// What `hex_text` makes of sixteen bytes has the form of a token: a token that
/// the service issues is one that it accepts.
pub proof fn lemma_hex_text_is_token(bytes: Seq<u8>)
    requires
        bytes.len() == 16,
    ensures
        is_token(hex_text(bytes)),
{
    let text = hex_text(bytes);
    assert forall|i: int| 0 <= i < text.len() implies crate::text::is_hex_digit(
        #[trigger] text[i],
    ) by {
        let b = bytes[i / 2] as int;
        assert(0 <= b / 16 < 16 && 0 <= b % 16 < 16);
    }
}

/// Base32hex is made of letters and digits.
pub proof fn lemma_base32_alphanumeric(bytes: Seq<u8>)
    ensures
        forall|i: int|
            0 <= i < base32_text(bytes).len() ==> crate::text::is_alphanumeric(
                #[trigger] base32_text(bytes)[i],
            ),
{
    assert forall|i: int| 0 <= i < base32_text(bytes).len() implies crate::text::is_alphanumeric(
        #[trigger] base32_text(bytes)[i],
    ) by {
        assert forall|k: int| 0 <= #[trigger] bit(bytes, k) <= 1 by {}
        assert(0 <= five_bits(bytes, i) < 32);
    }
}

/// A bit of a byte string can be told from the base32hex text.
proof fn lemma_base32_bit(a: Seq<u8>, b: Seq<u8>, k: int)
    requires
        a.len() == b.len(),
        base32_text(a) == base32_text(b),
        0 <= k < 8 * a.len(),
    ensures
        bit(a, k) == bit(b, k),
{
    let i = k / 5;
    assert forall|j: int| 0 <= #[trigger] bit(a, j) <= 1 && 0 <= bit(b, j) <= 1 by {}
    assert(0 <= bit(b, 5 * i) <= 1 && 0 <= bit(b, 5 * i + 1) <= 1 && 0 <= bit(b, 5 * i + 2) <= 1
        && 0 <= bit(b, 5 * i + 3) <= 1 && 0 <= bit(b, 5 * i + 4) <= 1);
    assert(0 <= bit(a, 5 * i) <= 1 && 0 <= bit(a, 5 * i + 1) <= 1 && 0 <= bit(a, 5 * i + 2) <= 1
        && 0 <= bit(a, 5 * i + 3) <= 1 && 0 <= bit(a, 5 * i + 4) <= 1);
    assert(0 <= five_bits(a, i) < 32 && 0 <= five_bits(b, i) < 32);
    assert(0 <= i < base32_text(a).len() && 0 <= i < base32_text(b).len());
    assert(base32_text(a)[i] == base32_digit(five_bits(a, i)));
    assert(base32_text(b)[i] == base32_digit(five_bits(b, i)));
    assert(five_bits(a, i) == five_bits(b, i));
    assert(k == 5 * i || k == 5 * i + 1 || k == 5 * i + 2 || k == 5 * i + 3 || k == 5 * i + 4);
}

/// A byte is the sum of its bits.
pub proof fn lemma_byte_bits(bytes: Seq<u8>, j: int)
    requires
        0 <= j < bytes.len(),
    ensures
        bytes[j] == 128 * bit(bytes, 8 * j) + 64 * bit(bytes, 8 * j + 1) + 32 * bit(
            bytes,
            8 * j + 2,
        ) + 16 * bit(bytes, 8 * j + 3) + 8 * bit(bytes, 8 * j + 4) + 4 * bit(bytes, 8 * j + 5) + 2
            * bit(bytes, 8 * j + 6) + bit(bytes, 8 * j + 7),
{
    let b = bytes[j] as int;
    assert(b / 64 == 2 * (b / 128) + (b / 64) % 2);
    assert(b / 32 == 2 * (b / 64) + (b / 32) % 2);
    assert(b / 16 == 2 * (b / 32) + (b / 16) % 2);
    assert(b / 8 == 2 * (b / 16) + (b / 8) % 2);
    assert(b / 4 == 2 * (b / 8) + (b / 4) % 2);
    assert(b / 2 == 2 * (b / 4) + (b / 2) % 2);
    assert(b == 2 * (b / 2) + b % 2);
    assert(bit(bytes, 8 * j) == (b / 128) % 2);
    assert(bit(bytes, 8 * j + 1) == (b / 64) % 2);
    assert(bit(bytes, 8 * j + 2) == (b / 32) % 2);
    assert(bit(bytes, 8 * j + 3) == (b / 16) % 2);
    assert(bit(bytes, 8 * j + 4) == (b / 8) % 2);
    assert(bit(bytes, 8 * j + 5) == (b / 4) % 2);
    assert(bit(bytes, 8 * j + 6) == (b / 2) % 2);
    assert(bit(bytes, 8 * j + 7) == (b / 1) % 2);
}

/// A base32hex text of a length stands for one byte string only.
pub proof fn lemma_base32_injective(a: Seq<u8>, b: Seq<u8>)
    requires
        a.len() == b.len(),
        base32_text(a) == base32_text(b),
    ensures
        a == b,
{
    assert forall|j: int| 0 <= j < a.len() implies a[j] == b[j] by {
        lemma_byte_bits(a, j);
        lemma_byte_bits(b, j);
        lemma_base32_bit(a, b, 8 * j);
        lemma_base32_bit(a, b, 8 * j + 1);
        lemma_base32_bit(a, b, 8 * j + 2);
        lemma_base32_bit(a, b, 8 * j + 3);
        lemma_base32_bit(a, b, 8 * j + 4);
        lemma_base32_bit(a, b, 8 * j + 5);
        lemma_base32_bit(a, b, 8 * j + 6);
        lemma_base32_bit(a, b, 8 * j + 7);
    }
    assert(a =~= b);
}

/// Base32hex is in lower case.
pub proof fn lemma_base32_lower(bytes: Seq<u8>)
    ensures
        crate::name::lower_label(crate::text::bytes_of(base32_text(bytes)))
            == crate::text::bytes_of(base32_text(bytes)),
        crate::text::chars_of(crate::text::bytes_of(base32_text(bytes))) == base32_text(bytes),
{
    let text = base32_text(bytes);
    let label = crate::text::bytes_of(text);
    assert forall|i: int| 0 <= i < text.len() implies crate::text::lower_byte(label[i]) == label[i]
        && label[i] as char == text[i] by {
        assert forall|k: int| 0 <= #[trigger] bit(bytes, k) <= 1 by {}
        assert(0 <= five_bits(bytes, i) < 32);
        assert(text[i] == base32_digit(five_bits(bytes, i)));
    }
    assert(crate::name::lower_label(label) =~= label);
    assert(crate::text::chars_of(label) =~= text);
}

} // verus!
