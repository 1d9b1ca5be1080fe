//! What holds of texts and names, character by character.

use vstd::prelude::*;

use crate::error::ErrorView;
use crate::record::AddressView;

verus! {

/// The same character but for the case of an ASCII letter.
pub open spec fn alike_char(a: char, b: char) -> bool {
    ||| a == b
    ||| 'A' <= a <= 'Z' && b as int == a as int + 32
    ||| 'A' <= b <= 'Z' && a as int == b as int + 32
}

/// The same text but for the case of ASCII letters.
pub open spec fn alike_text(a: Seq<char>, b: Seq<char>) -> bool {
    &&& a.len() == b.len()
    &&& forall|i: int| 0 <= i < a.len() ==> alike_char(#[trigger] a[i], b[i])
}

/// The same byte but for the case of an ASCII letter.
pub open spec fn alike_byte(a: u8, b: u8) -> bool {
    ||| a == b
    ||| 65 <= a <= 90 && b == a + 32
    ||| 65 <= b <= 90 && a == b + 32
}

/// The same label but for the case of ASCII letters.
pub open spec fn alike_label(a: Seq<u8>, b: Seq<u8>) -> bool {
    &&& a.len() == b.len()
    &&& forall|i: int| 0 <= i < a.len() ==> alike_byte(#[trigger] a[i], b[i])
}

/// The same name but for the case of ASCII letters.
pub open spec fn alike_name(a: Seq<Seq<u8>>, b: Seq<Seq<u8>>) -> bool {
    &&& a.len() == b.len()
    &&& forall|i: int| 0 <= i < a.len() ==> alike_label(#[trigger] a[i], b[i])
}

/// Two texts agree without case just where each character is the same but for
/// the case of an ASCII letter.
pub proof fn law_texts_compare_without_case(a: Seq<char>, b: Seq<char>)
    ensures
        crate::text::lower_text(a) == crate::text::lower_text(b) <==> alike_text(a, b),
{
    let x = crate::text::lower_text(a);
    let y = crate::text::lower_text(b);
    if x == y {
        assert(x.len() == a.len() && y.len() == b.len());
        assert forall|i: int| 0 <= i < a.len() implies alike_char(#[trigger] a[i], b[i]) by {
            assert(x[i] == y[i]);
        }
    }
    if alike_text(a, b) {
        assert forall|i: int| 0 <= i < a.len() implies x[i] == y[i] by {
            assert(alike_char(a[i], b[i]));
        }
        assert(x =~= y);
    }
}

/// Two labels are the same label just where each byte is the same but for the
/// case of an ASCII letter.
pub proof fn law_labels_compare_without_case(a: Seq<u8>, b: Seq<u8>)
    ensures
        crate::name::lower_label(a) == crate::name::lower_label(b) <==> alike_label(a, b),
{
    let x = crate::name::lower_label(a);
    let y = crate::name::lower_label(b);
    if x == y {
        assert(x.len() == a.len() && y.len() == b.len());
        assert forall|i: int| 0 <= i < a.len() implies alike_byte(#[trigger] a[i], b[i]) by {
            assert(x[i] == y[i]);
        }
    }
    if alike_label(a, b) {
        assert forall|i: int| 0 <= i < a.len() implies x[i] == y[i] by {
            assert(alike_byte(a[i], b[i]));
        }
        assert(x =~= y);
    }
}

/// Two names are the same name just where they have as many labels and each
/// byte is the same but for the case of an ASCII letter.
pub proof fn law_names_compare_without_case(a: Seq<Seq<u8>>, b: Seq<Seq<u8>>)
    ensures
        crate::name::lower_name(a) == crate::name::lower_name(b) <==> alike_name(a, b),
{
    let x = crate::name::lower_name(a);
    let y = crate::name::lower_name(b);
    if x == y {
        assert(x.len() == a.len() && y.len() == b.len());
        assert forall|i: int| 0 <= i < a.len() implies alike_label(#[trigger] a[i], b[i]) by {
            assert(x[i] == y[i]);
            law_labels_compare_without_case(a[i], b[i]);
        }
    }
    if alike_name(a, b) {
        assert forall|i: int| 0 <= i < a.len() implies x[i] == y[i] by {
            assert(alike_label(a[i], b[i]));
            law_labels_compare_without_case(a[i], b[i]);
        }
        assert(x =~= y);
    }
}

/// A name in lower case has the length of its labels and no capital letter.
pub proof fn law_lower_names(n: Seq<Seq<u8>>)
    ensures
        alike_name(crate::name::lower_name(n), n),
        forall|i: int, j: int|
            0 <= i < n.len() && 0 <= j < n[i].len() ==> !(65 <= #[trigger] crate::name::lower_name(
                n,
            )[i][j] <= 90),
{
    let x = crate::name::lower_name(n);
    assert forall|i: int| 0 <= i < x.len() implies alike_label(#[trigger] x[i], n[i]) by {
        assert(x[i] == crate::name::lower_label(n[i]));
    }
}

/// The classes of characters and bytes, and their lower case, by range.
pub proof fn law_character_classes(c: char, b: u8)
    ensures
        crate::text::is_digit(c) <==> '0' <= c <= '9',
        crate::text::is_alphanumeric(c) <==> '0' <= c <= '9' || 'a' <= c <= 'z' || 'A' <= c <= 'Z',
        crate::text::is_hex_digit(c) <==> '0' <= c <= '9' || 'a' <= c <= 'f' || 'A' <= c <= 'F',
        crate::text::is_ascii_space(c) <==> c == ' ' || c == '\t' || c == '\n' || c == '\x0C' || c
            == '\r',
        crate::text::is_unicode_space(c) <==> is_blank(c),
        alike_char(crate::text::lower_char(c), c),
        !('A' <= crate::text::lower_char(c) <= 'Z'),
        alike_byte(crate::text::lower_byte(b), b),
        !(65 <= crate::text::lower_byte(b) <= 90),
{
}

/// Bytes and characters below 256 stand for each other, one for one.
pub proof fn law_bytes_and_characters(bytes: Seq<u8>, text: Seq<char>)
    ensures
        crate::text::chars_of(bytes).len() == bytes.len(),
        forall|i: int|
            0 <= i < bytes.len() ==> #[trigger] crate::text::chars_of(bytes)[i] == bytes[i] as char,
        crate::text::bytes_of(text).len() == text.len(),
        forall|i: int|
            0 <= i < text.len() ==> #[trigger] crate::text::bytes_of(text)[i] == text[i] as u8,
        crate::text::bytes_of(crate::text::chars_of(bytes)) == bytes,
{
    assert(crate::text::bytes_of(crate::text::chars_of(bytes)) =~= bytes);
}

/// An ASCII letter, a digit or a hyphen.
pub open spec fn is_hostname_char(c: char) -> bool {
    ||| '0' <= c <= '9'
    ||| 'a' <= c <= 'z'
    ||| 'A' <= c <= 'Z'
    ||| c == '-'
}

/// A text is a hostname just where it has 1 to 63 characters, each of them a
/// letter, a digit or a hyphen, and neither begins nor ends with a hyphen.
pub proof fn law_hostname_characters(text: Seq<char>)
    ensures
        crate::name::is_hostname(text) <==> {
            &&& 1 <= text.len() <= 63
            &&& text[0] != '-'
            &&& text[text.len() - 1] != '-'
            &&& forall|i: int| 0 <= i < text.len() ==> is_hostname_char(#[trigger] text[i])
        },
{
    if crate::name::is_hostname(text) {
        assert forall|i: int| 0 <= i < text.len() implies is_hostname_char(#[trigger] text[i]) by {
            assert(crate::text::is_alphanumeric(text[i]) || text[i] == '-');
        }
    }
}

/// A text has the form of a token just where it has 32 characters, each of them
/// a digit or a letter from a to f in either case.
pub proof fn law_token_characters(text: Seq<char>)
    ensures
        crate::credential::is_token(text) <==> {
            &&& text.len() == 32
            &&& forall|i: int|
                0 <= i < text.len() ==> {
                    ||| '0' <= #[trigger] text[i] <= '9'
                    ||| 'a' <= text[i] <= 'f'
                    ||| 'A' <= text[i] <= 'F'
                }
        },
{
    if crate::credential::is_token(text) {
        assert forall|i: int| 0 <= i < text.len() implies {
            ||| '0' <= #[trigger] text[i] <= '9'
            ||| 'a' <= text[i] <= 'f'
            ||| 'A' <= text[i] <= 'F'
        } by {
            assert(crate::text::is_hex_digit(text[i]));
        }
    }
}

/// A token has two digits for each of its bytes, that for the higher half first.
pub proof fn law_token_digits(bytes: Seq<u8>)
    ensures
        crate::credential::hex_text(bytes).len() == 2 * bytes.len(),
        forall|i: int|
            0 <= i < bytes.len() ==> {
                &&& crate::credential::hex_text(bytes)[2 * i] == "0123456789abcdef"@[
                    #[trigger] bytes[i] as int / 16]
                &&& crate::credential::hex_text(bytes)[2 * i + 1] == "0123456789abcdef"@[
                    bytes[i] as int % 16]
            },
{
    reveal_strlit("0123456789abcdef");
    assert forall|i: int| 0 <= i < bytes.len() implies {
        &&& crate::credential::hex_text(bytes)[2 * i] == "0123456789abcdef"@[
            #[trigger] bytes[i] as int / 16]
        &&& crate::credential::hex_text(bytes)[2 * i + 1] == "0123456789abcdef"@[
            bytes[i] as int % 16]
    } by {
        assert((2 * i) / 2 == i && (2 * i + 1) / 2 == i);
        assert((2 * i) % 2 == 0 && (2 * i + 1) % 2 == 1);
        assert(0 <= bytes[i] as int / 16 < 16 && 0 <= bytes[i] as int % 16 < 16);
    }
}

/// A character with the Unicode property White_Space.
pub open spec fn is_blank(c: char) -> bool {
    ||| c == '\t' || c == '\n' || c == '\x0B' || c == '\x0C' || c == '\r' || c == ' '
    ||| c == '\u{85}' || c == '\u{A0}' || c == '\u{1680}'
    ||| '\u{2000}' <= c <= '\u{200A}'
    ||| c == '\u{2028}' || c == '\u{2029}' || c == '\u{202F}' || c == '\u{205F}'
    ||| c == '\u{3000}'
}

/// A text that holds nothing but white space.
pub open spec fn all_blank(text: Seq<char>) -> bool {
    forall|i: int| 0 <= i < text.len() ==> is_blank(#[trigger] text[i])
}

/// A text that is empty, or neither begins nor ends with white space.
pub open spec fn is_trim(text: Seq<char>) -> bool {
    text.len() > 0 ==> !is_blank(text[0]) && !is_blank(text[text.len() - 1])
}

/// Trimming takes off the white space at both ends and nothing else.
pub proof fn law_trimming_keeps_the_middle(
    before: Seq<char>,
    middle: Seq<char>,
    after: Seq<char>,
)
    requires
        all_blank(before),
        all_blank(after),
        is_trim(middle),
    ensures
        crate::text::trimmed(before + middle + after) == middle,
    decreases before.len() + after.len(),
{
    let text = before + middle + after;
    if before.len() > 0 {
        assert(is_blank(before[0]));
        assert(text.first() == before[0]);
        assert(crate::text::is_unicode_space(text.first()));
        assert(text.drop_first() =~= before.drop_first() + middle + after);
        law_trimming_keeps_the_middle(before.drop_first(), middle, after);
    } else if after.len() > 0 {
        assert(is_blank(after.last()));
        assert(text.last() == after.last());
        assert(crate::text::is_unicode_space(text.last()));
        if middle.len() > 0 {
            assert(text.first() == middle[0]);
            assert(text.drop_last() =~= before + middle + after.drop_last());
            law_trimming_keeps_the_middle(before, middle, after.drop_last());
        } else {
            assert(text =~= after);
            assert(is_blank(after[0]));
            assert(text.drop_first() =~= before + middle + after.drop_first());
            law_trimming_keeps_the_middle(before, middle, after.drop_first());
        }
    } else {
        assert(text =~= middle);
        if middle.len() > 0 {
            assert(text.first() == middle[0] && text.last() == middle[middle.len() - 1]);
        }
    }
}

/// The length of a name on the wire is that of its labels with a byte for each,
/// and one more.
pub proof fn law_wire_length(label: Seq<u8>, rest: Seq<Seq<u8>>)
    ensures
        crate::name::encoded_len(Seq::empty()) == 1,
        crate::name::encoded_len(seq![label] + rest) == 1 + label.len() + crate::name::encoded_len(
            rest,
        ),
{
    assert((seq![label] + rest).drop_first() =~= rest);
}

/// Labels make up a name just where each has 1 to 63 bytes and all of them have
/// at most 255 bytes on the wire.
pub proof fn law_label_limits(labels: Seq<Seq<u8>>)
    ensures
        crate::name::valid_labels(labels) <==> {
            &&& forall|i: int| 0 <= i < labels.len() ==> 1 <= (#[trigger] labels[i]).len() <= 63
            &&& crate::name::encoded_len(labels) <= 255
        },
{
}

/// The base of a name is what stands behind its first label, and the root is
/// its own base.
pub proof fn law_base_drops_one_label(label: Seq<u8>, rest: Seq<Seq<u8>>)
    ensures
        crate::name::base_of(seq![label] + rest) == rest,
        crate::name::base_of(Seq::empty()) == Seq::<Seq<u8>>::empty(),
{
    assert((seq![label] + rest).drop_first() =~= rest);
}

/// A name lies in a zone just where its last labels are, but for case, those of
/// the zone.
pub proof fn law_zone_is_a_suffix(zone: Seq<Seq<u8>>, name: Seq<Seq<u8>>)
    ensures
        crate::name::zone_of(zone, name) <==> {
            &&& zone.len() <= name.len()
            &&& alike_name(name.skip(name.len() - zone.len()), zone)
        },
{
    if zone.len() <= name.len() {
        let tail = name.skip(name.len() - zone.len());
        law_names_compare_without_case(tail, zone);
        assert(crate::name::lower_name(name).skip(name.len() - zone.len())
            =~= crate::name::lower_name(tail));
    }
}

/// A text of 1 to 63 letters, digits, underscores and hyphens, of which the
/// first is no hyphen.
pub open spec fn is_plain_label(text: Seq<char>) -> bool {
    &&& 1 <= text.len() <= 63
    &&& text[0] != '-'
    &&& forall|i: int|
        0 <= i < text.len() ==> is_hostname_char(#[trigger] text[i]) || text[i] == '_'
}

/// Texts one after the other, each with a dot behind it.
pub open spec fn dots(pieces: Seq<Seq<char>>) -> Seq<char>
    decreases pieces.len(),
{
    if pieces.len() == 0 {
        Seq::empty()
    } else {
        pieces[0] + seq!['.'] + dots(pieces.drop_first())
    }
}

/// The bytes of each of these texts, of which each character is one byte.
pub open spec fn as_labels(pieces: Seq<Seq<char>>) -> Seq<Seq<u8>> {
    Seq::new(
        pieces.len(),
        |i: int| Seq::new(pieces[i].len(), |j: int| pieces[i][j] as u8),
    )
}

/// How many bytes these texts take on the wire as labels of a name.
pub open spec fn wire_len(pieces: Seq<Seq<char>>) -> int
    decreases pieces.len(),
{
    if pieces.len() == 0 {
        1
    } else {
        pieces[0].len() + 1 + wire_len(pieces.drop_first())
    }
}

/// Labels with dots behind them are the text of the name with these labels, and
/// the name is printed as that text, where there are labels and they fit.
pub proof fn law_dotted_labels_are_a_name(pieces: Seq<Seq<char>>)
    requires
        pieces.len() > 0,
        forall|i: int| 0 <= i < pieces.len() ==> is_plain_label(#[trigger] pieces[i]),
        wire_len(pieces) <= 255,
    ensures
        crate::config::named(dots(pieces)) == Ok::<Seq<Seq<u8>>, ErrorView>(as_labels(pieces)),
        crate::name::name_of(dots(pieces)) == Ok::<Seq<Seq<u8>>, Seq<char>>(as_labels(pieces)),
        crate::name::text_of_name(as_labels(pieces)) == dots(pieces),
        crate::name::encoded_len(as_labels(pieces)) == wire_len(pieces),
{
    lemma_dots(pieces);
    let text = dots(pieces);
    crate::name::lemma_text_of_name(text);
}

pub proof fn lemma_dots(pieces: Seq<Seq<char>>)
    requires
        pieces.len() > 0,
        forall|i: int| 0 <= i < pieces.len() ==> is_plain_label(#[trigger] pieces[i]),
        wire_len(pieces) <= 255,
    ensures
        crate::name::labels_of_text(dots(pieces)) == Some(as_labels(pieces)),
        crate::name::encoded_len(as_labels(pieces)) == wire_len(pieces),
        !dots(pieces).contains('\\'),
        dots(pieces).len() > 0,
        dots(pieces).last() == '.',
    decreases pieces.len(),
{
    let head = pieces[0];
    let rest = pieces.drop_first();
    let text = dots(pieces);
    assert(is_plain_label(pieces[0]));
    lemma_plain_label(head);
    assert(as_labels(pieces) =~= seq![crate::text::bytes_of(head)] + as_labels(rest)) by {
        assert forall|i: int| 0 <= i < pieces.len() implies #[trigger] as_labels(pieces)[i] == (
        seq![crate::text::bytes_of(head)] + as_labels(rest))[i] by {
            if i == 0 {
                assert(as_labels(pieces)[0] =~= crate::text::bytes_of(head));
            } else {
                assert(rest[i - 1] == pieces[i]);
            }
        }
    }
    law_wire_length(crate::text::bytes_of(head), as_labels(rest));
    if rest.len() == 0 {
        assert(as_labels(rest) =~= Seq::<Seq<u8>>::empty());
        assert(dots(rest) =~= Seq::<char>::empty());
        assert(text =~= head + seq!['.']);
        assert(text.drop_last() =~= head);
        assert(crate::name::split_dots(head) =~= seq![head]);
        let labels = seq![head].map_values(|p: Seq<char>| crate::text::bytes_of(p));
        assert(labels =~= as_labels(pieces));
        assert(text != seq!['.']);
    } else {
        assert forall|i: int| 0 <= i < rest.len() implies is_plain_label(#[trigger] rest[i]) by {
            assert(rest[i] == pieces[i + 1]);
        }
        assert(wire_len(rest) <= 255);
        lemma_dots(rest);
        crate::name::lemma_prefixed_name(head, dots(rest));
    }
    assert(!text.contains('\\')) by {
        if text.contains('\\') {
            let i = choose|i: int| 0 <= i < text.len() && text[i] == '\\';
            if i < head.len() {
                assert(head[i] == '\\');
            } else if i > head.len() {
                assert(dots(rest)[i - head.len() - 1] == '\\');
            }
        }
    }
}

pub proof fn lemma_plain_label(text: Seq<char>)
    requires
        is_plain_label(text),
    ensures
        crate::name::is_label_text(text),
        !text.contains('.'),
        !text.contains('\\'),
{
    assert forall|i: int| 0 <= i < text.len() implies text[i] != '.' && text[i] != '\\'
        && crate::name::is_safe(text[i], i == 0) by {
        assert(is_hostname_char(text[i]) || text[i] == '_');
    }
}

/// Where a text without escapes is read as a name, the name is printed as that
/// text again: reading loses nothing.
pub proof fn law_reading_names_is_lossless(text: Seq<char>, name: Seq<Seq<u8>>)
    requires
        text.len() > 0,
        text[text.len() - 1] == '.',
        !text.contains('\\'),
        crate::config::named(text) == Ok::<Seq<Seq<u8>>, ErrorView>(name),
    ensures
        crate::name::text_of_name(name) == text,
        crate::name::name_of(text) == Ok::<Seq<Seq<u8>>, Seq<char>>(name),
        crate::name::encoded_len(name) <= 255,
{
    crate::name::lemma_text_of_name(text);
    assert(crate::name::encoded_len(Seq::empty()) == 1);
}

/// A text in lower case and with a dot at its end: each character is that of the
/// given text without its last dot, but for the case of ASCII letters.
pub open spec fn is_absolute_form(text: Seq<char>, absolute: Seq<char>) -> bool {
    let n = if text.len() > 0 && text[text.len() - 1] == '.' {
        text.len() - 1
    } else {
        text.len() as int
    };
    &&& absolute.len() == n + 1
    &&& absolute[n] == '.'
    &&& forall|i: int|
        0 <= i < n ==> alike_char(#[trigger] absolute[i], text[i]) && !('A' <= absolute[i] <= 'Z')
}

/// The absolute form of a domain name keeps every character but for case, and
/// there is one such form only.
pub proof fn law_absolute_form_keeps_characters(text: Seq<char>, other: Seq<char>)
    ensures
        is_absolute_form(text, crate::name::absolute_text(text)),
        is_absolute_form(text, other) ==> other == crate::name::absolute_text(text),
{
    let absolute = crate::name::absolute_text(text);
    if is_absolute_form(text, other) {
        assert forall|i: int| 0 <= i < other.len() implies other[i] == absolute[i] by {
            if i < other.len() - 1 {
                assert(alike_char(other[i], text[i]));
            }
        }
        assert(other =~= absolute);
    }
}

/// A character of a domain name's label.
pub open spec fn is_domain_char(c: char) -> bool {
    is_hostname_char(c) || c == '_' || c == '#'
}

/// A text is that of a domain name where it is the root's, or is made of labels
/// of 1 to 255 letters, digits, hyphens, underscores and number signs, with dots
/// between them and with or without one at the end.
pub proof fn law_domain_names_are_accepted(pieces: Seq<Seq<char>>)
    requires
        pieces.len() > 0,
        forall|i: int|
            0 <= i < pieces.len() ==> 1 <= (#[trigger] pieces[i]).len() <= 255 && forall|j: int|
                0 <= j < pieces[i].len() ==> is_domain_char(#[trigger] pieces[i][j]),
    ensures
        crate::name::is_fqdn(dots(pieces)),
        crate::name::is_fqdn(dots(pieces).drop_last()),
        crate::name::is_fqdn(Seq::empty()),
        crate::name::is_fqdn(seq!['.']),
{
    let text = dots(pieces);
    lemma_domain_pieces(pieces);
    let inner = text.drop_last();
    assert(crate::name::without_dot(text) =~= inner);
    assert(crate::name::without_dot(inner) =~= inner);
    assert forall|i: int| 0 <= i < inner.len() implies crate::name::is_fqdn_char(
        #[trigger] inner[i],
    ) || inner[i] == '.' by {
        assert(is_domain_char(text[i]) || text[i] == '.');
    }
    assert(crate::name::without_dot(seq!['.']) =~= Seq::<char>::empty());
}

proof fn lemma_domain_pieces(pieces: Seq<Seq<char>>)
    requires
        pieces.len() > 0,
        forall|i: int|
            0 <= i < pieces.len() ==> 1 <= (#[trigger] pieces[i]).len() <= 255 && forall|j: int|
                0 <= j < pieces[i].len() ==> is_domain_char(#[trigger] pieces[i][j]),
    ensures
        dots(pieces).len() >= 2,
        dots(pieces).last() == '.',
        dots(pieces)[dots(pieces).len() - 2] != '.',
        crate::name::split_dots(dots(pieces).drop_last()) == pieces,
        forall|i: int|
            0 <= i < dots(pieces).len() ==> is_domain_char(#[trigger] dots(pieces)[i]) || dots(
                pieces,
            )[i] == '.',
    decreases pieces.len(),
{
    let head = pieces[0];
    let rest = pieces.drop_first();
    let text = dots(pieces);
    assert(1 <= pieces[0].len() <= 255);
    assert forall|j: int| 0 <= j < head.len() implies head[j] != '.' by {
        assert(is_domain_char(pieces[0][j]));
    }
    assert(!head.contains('.'));
    if rest.len() == 0 {
        assert(dots(rest) =~= Seq::<char>::empty());
        assert(text =~= head + seq!['.']);
        assert(text.drop_last() =~= head);
        assert(pieces =~= seq![head]);
    } else {
        assert forall|i: int| 0 <= i < rest.len() implies 1 <= (#[trigger] rest[i]).len() <= 255
            && forall|j: int| 0 <= j < rest[i].len() ==> is_domain_char(#[trigger] rest[i][j]) by {
            assert(rest[i] == pieces[i + 1]);
        }
        lemma_domain_pieces(rest);
        let below = dots(rest);
        assert(text.drop_last() =~= head + seq!['.'] + below.drop_last());
        crate::name::lemma_split_prefix(head, below.drop_last());
        assert(seq![head] + rest =~= pieces);
        assert(text[text.len() - 2] == below[below.len() - 2]);
    }
    assert forall|i: int| 0 <= i < text.len() implies is_domain_char(#[trigger] text[i]) || text[i]
        == '.' by {
        if i < head.len() {
            assert(text[i] == pieces[0][i]);
        } else if i > head.len() {
            assert(text[i] == dots(rest)[i - head.len() - 1]);
        }
    }
}

/// A text that is that of a domain name is the root's, or is made of labels of 1
/// to 255 letters, digits, hyphens, underscores and number signs, with dots
/// between them and with or without one at the end.
pub proof fn law_other_names_are_refused(text: Seq<char>) -> (pieces: Seq<Seq<char>>)
    requires
        crate::name::is_fqdn(text),
    ensures
        text.len() == 0 || text == seq!['.'] || {
            &&& text == dots(pieces) || text == dots(pieces).drop_last()
            &&& pieces.len() > 0
            &&& forall|i: int|
                0 <= i < pieces.len() ==> 1 <= (#[trigger] pieces[i]).len() <= 255 && forall|j: int|
                    0 <= j < pieces[i].len() ==> is_domain_char(#[trigger] pieces[i][j])
        },
{
    let inner = crate::name::without_dot(text);
    let pieces = crate::name::split_dots(inner);
    if inner.len() == 0 {
        if text.len() > 0 {
            assert(text =~= seq!['.']);
        }
    } else {
        lemma_split_joins(inner);
        assert(dots(pieces).drop_last() =~= inner);
        if text != inner {
            assert(text =~= inner + seq!['.']);
        }
        assert forall|i: int| 0 <= i < pieces.len() implies 1 <= (#[trigger] pieces[i]).len() <= 255
            && forall|j: int| 0 <= j < pieces[i].len() ==> is_domain_char(#[trigger] pieces[i][j])
            by {
            assert(1 <= crate::name::split_dots(inner)[i].len() <= 255);
            assert forall|j: int| 0 <= j < pieces[i].len() implies is_domain_char(
                #[trigger] pieces[i][j],
            ) by {
                assert(inner.contains(pieces[i][j]) && pieces[i][j] != '.');
                let k = choose|k: int| 0 <= k < inner.len() && inner[k] == pieces[i][j];
                assert(crate::name::is_fqdn_char(inner[k]) || inner[k] == '.');
            }
        }
    }
    pieces
}

/// The pieces between the dots of a text hold no dots, hold characters of the
/// text only, and make up the text with dots between them.
proof fn lemma_split_joins(text: Seq<char>)
    ensures
        crate::name::split_dots(text).len() > 0,
        dots(crate::name::split_dots(text)) == text + seq!['.'],
        forall|i: int, j: int|
            0 <= i < crate::name::split_dots(text).len() && 0 <= j < crate::name::split_dots(
                text,
            )[i].len() ==> text.contains(#[trigger] crate::name::split_dots(text)[i][j])
                && crate::name::split_dots(text)[i][j] != '.',
    decreases text.len(),
{
    let pieces = crate::name::split_dots(text);
    if text.contains('.') {
        let k = text.index_of_first('.').unwrap();
        text.index_of_first_ensures('.');
        let head = text.take(k);
        let tail = text.skip(k + 1);
        lemma_split_joins(tail);
        let rest = crate::name::split_dots(tail);
        assert(pieces == seq![head] + rest);
        assert(pieces.drop_first() =~= rest);
        assert(dots(pieces) =~= text + seq!['.']);
        assert forall|i: int, j: int|
            0 <= i < pieces.len() && 0 <= j < pieces[i].len() implies text.contains(
            #[trigger] pieces[i][j],
        ) && pieces[i][j] != '.' by {
            if i == 0 {
                assert(text[j] == pieces[0][j]);
            } else {
                assert(rest[i - 1][j] == pieces[i][j]);
                let m = choose|m: int| 0 <= m < tail.len() && tail[m] == pieces[i][j];
                assert(text[k + 1 + m] == pieces[i][j]);
            }
        }
    } else {
        assert(pieces =~= seq![text]);
        assert(pieces.drop_first() =~= Seq::<Seq<char>>::empty());
        assert(dots(pieces.drop_first()) =~= Seq::<char>::empty());
        assert(dots(pieces) =~= text + seq!['.']);
        assert forall|i: int, j: int|
            0 <= i < pieces.len() && 0 <= j < pieces[i].len() implies text.contains(
            #[trigger] pieces[i][j],
        ) && pieces[i][j] != '.' by {
            assert(text[j] == pieces[i][j]);
        }
    }
}

/// The value of a text of decimal digits.
pub open spec fn decimal_value(text: Seq<char>) -> int
    decreases text.len(),
{
    if text.len() == 0 {
        0
    } else {
        10 * decimal_value(text.drop_last()) + (text.last() as int - '0' as int)
    }
}

/// A number in decimal is made of digits, has the value of the number, and
/// begins with a zero just where it is zero.
pub proof fn law_decimal_has_its_value(n: u8)
    ensures
        decimal_value(crate::address::decimal(n)) == n,
        forall|i: int|
            0 <= i < crate::address::decimal(n).len() ==> '0' <= #[trigger] crate::address::decimal(
                n,
            )[i] <= '9',
        crate::address::decimal(n).len() > 0,
        crate::address::decimal(n)[0] == '0' ==> n == 0,
{
    let text = crate::address::decimal(n);
    reveal_with_fuel(decimal_value, 4);
    if n >= 10 {
        assert(text.drop_last().last() == text[text.len() - 2]);
        if n >= 100 {
            assert(text.drop_last().drop_last().last() == text[0]);
        }
    }
}

/// The text of an IPv4 address is the decimal texts of its four octets with dots
/// between them.
pub proof fn law_ipv4_text_has_four_pieces(a: u8, b: u8, c: u8, d: u8)
    ensures
        crate::address::text_of(AddressView::V4(seq![a, b, c, d])) + seq!['.'] == dots(
            seq![
                crate::address::decimal(a),
                crate::address::decimal(b),
                crate::address::decimal(c),
                crate::address::decimal(d),
            ],
        ),
{
    let w = crate::address::decimal(a);
    let x = crate::address::decimal(b);
    let y = crate::address::decimal(c);
    let v = crate::address::decimal(d);
    reveal_with_fuel(dots, 5);
    assert(seq![w, x, y, v].drop_first() =~= seq![x, y, v]);
    assert(seq![x, y, v].drop_first() =~= seq![y, v]);
    assert(seq![y, v].drop_first() =~= seq![v]);
    assert(seq![v].drop_first() =~= Seq::<Seq<char>>::empty());
    assert(crate::address::text_of(AddressView::V4(seq![a, b, c, d])) + seq!['.'] =~= dots(
        seq![w, x, y, v],
    ));
}

/// A text stands for an IPv4 address just where it is that address's text, and
/// for an IPv6 address where it is read as one and is no IPv4 address's text.
pub proof fn law_addresses_are_read(text: Seq<char>, octets: Seq<u8>, segments: Seq<u16>)
    requires
        octets.len() == 4,
    ensures
        crate::address::address_of(text) == Some(AddressView::V4(octets)) <==> text
            == crate::address::ipv4_text(octets),
        crate::address::address_of(text) == Some(AddressView::V6(segments)) <==> {
            &&& crate::address::ipv6_of(text) == Some(segments)
            &&& forall|o: Seq<u8>| o.len() == 4 ==> #[trigger] crate::address::ipv4_text(o) != text
        },
        crate::address::text_of(AddressView::V4(octets)) == crate::address::ipv4_text(octets),
        crate::address::text_of(AddressView::V6(segments)) == crate::address::ipv6_text(segments),
{
    if text == crate::address::ipv4_text(octets) {
        assert(crate::address::ipv4_of(text) is Some);
        crate::address::lemma_ipv4_injective(octets, crate::address::ipv4_of(text)->Some_0);
    }
}

/// The digits of base32hex in lower case.
pub open spec fn base32_alphabet() -> Seq<char> {
    "0123456789abcdefghijklmnopqrstuv"@
}

/// Five bytes make up eight digits of base32hex, which are the digits to the
/// base 32 of the number that the bytes are.
pub proof fn law_base32_of_five_bytes(b: Seq<u8>, digits: Seq<int>)
    requires
        b.len() == 5,
        digits.len() == 8,
        forall|i: int| 0 <= i < 8 ==> 0 <= #[trigger] digits[i] < 32,
        b[0] * 0x1_0000_0000 + b[1] * 0x100_0000 + b[2] * 0x1_0000 + b[3] * 0x100 + b[4] == digits[0]
            * 0x8_0000_0000 + digits[1] * 0x4000_0000 + digits[2] * 0x200_0000 + digits[3]
            * 0x10_0000 + digits[4] * 0x8000 + digits[5] * 0x400 + digits[6] * 0x20 + digits[7],
    ensures
        crate::credential::base32_text(b).len() == 8,
        forall|i: int|
            0 <= i < 8 ==> #[trigger] crate::credential::base32_text(b)[i] == base32_alphabet()[
                digits[i]],
{
    let text = crate::credential::base32_text(b);
    let g = Seq::new(8, |i: int| crate::credential::five_bits(b, i));
    assert forall|i: int| 0 <= i < 8 implies 0 <= #[trigger] g[i] < 32 by {
        lemma_five_bits_bound(b, i);
    }
    lemma_five_bytes(b);
    lemma_same_digits(g, digits);
    assert forall|i: int| 0 <= i < 8 implies #[trigger] text[i] == base32_alphabet()[digits[i]] by {
        assert(text[i] == crate::credential::base32_digit(g[i]));
        assert(g[i] == digits[i]);
        lemma_base32_alphabet(digits[i]);
    }
}

proof fn lemma_five_bits_bound(b: Seq<u8>, i: int)
    ensures
        0 <= crate::credential::five_bits(b, i) < 32,
{
    assert forall|k: int| 0 <= #[trigger] crate::credential::bit(b, k) <= 1 by {}
}

proof fn lemma_base32_alphabet(v: int)
    requires
        0 <= v < 32,
    ensures
        crate::credential::base32_digit(v) == base32_alphabet()[v],
{
    reveal_strlit("0123456789abcdefghijklmnopqrstuv");
}

/// Eight digits to the base 32 can be told from the number that they make up.
proof fn lemma_same_digits(a: Seq<int>, b: Seq<int>)
    requires
        a.len() == 8,
        b.len() == 8,
        forall|i: int| 0 <= i < 8 ==> 0 <= #[trigger] a[i] < 32,
        forall|i: int| 0 <= i < 8 ==> 0 <= #[trigger] b[i] < 32,
        a[0] * 0x8_0000_0000 + a[1] * 0x4000_0000 + a[2] * 0x200_0000 + a[3] * 0x10_0000 + a[4]
            * 0x8000 + a[5] * 0x400 + a[6] * 0x20 + a[7] == b[0] * 0x8_0000_0000 + b[1]
            * 0x4000_0000 + b[2] * 0x200_0000 + b[3] * 0x10_0000 + b[4] * 0x8000 + b[5] * 0x400
            + b[6] * 0x20 + b[7],
    ensures
        a == b,
{
    let a1 = a[0] * 32 + a[1];
    let a2 = a1 * 32 + a[2];
    let a3 = a2 * 32 + a[3];
    let a4 = a3 * 32 + a[4];
    let a5 = a4 * 32 + a[5];
    let a6 = a5 * 32 + a[6];
    let b1 = b[0] * 32 + b[1];
    let b2 = b1 * 32 + b[2];
    let b3 = b2 * 32 + b[3];
    let b4 = b3 * 32 + b[4];
    let b5 = b4 * 32 + b[5];
    let b6 = b5 * 32 + b[6];
    lemma_same_digit(a6, b6, a[7], b[7]);
    lemma_same_digit(a5, b5, a[6], b[6]);
    lemma_same_digit(a4, b4, a[5], b[5]);
    lemma_same_digit(a3, b3, a[4], b[4]);
    lemma_same_digit(a2, b2, a[3], b[3]);
    lemma_same_digit(a1, b1, a[2], b[2]);
    lemma_same_digit(a[0], b[0], a[1], b[1]);
    assert(a =~= b);
}

proof fn lemma_same_digit(x: int, y: int, a: int, b: int)
    requires
        0 <= a < 32,
        0 <= b < 32,
        x * 32 + a == y * 32 + b,
    ensures
        x == y && a == b,
{
}

/// The groups of five bits of five bytes make up the number that the bytes are.
proof fn lemma_five_bytes(b: Seq<u8>)
    requires
        b.len() == 5,
    ensures
        b[0] * 0x1_0000_0000 + b[1] * 0x100_0000 + b[2] * 0x1_0000 + b[3] * 0x100 + b[4]
            == crate::credential::five_bits(b, 0) * 0x8_0000_0000 + crate::credential::five_bits(
            b,
            1,
        ) * 0x4000_0000 + crate::credential::five_bits(b, 2) * 0x200_0000
            + crate::credential::five_bits(b, 3) * 0x10_0000 + crate::credential::five_bits(b, 4)
            * 0x8000 + crate::credential::five_bits(b, 5) * 0x400 + crate::credential::five_bits(
            b,
            6,
        ) * 0x20 + crate::credential::five_bits(b, 7),
{
    crate::credential::lemma_byte_bits(b, 0);
    crate::credential::lemma_byte_bits(b, 1);
    crate::credential::lemma_byte_bits(b, 2);
    crate::credential::lemma_byte_bits(b, 3);
    crate::credential::lemma_byte_bits(b, 4);
}

/// The base32hex of more than five bytes is that of the first five and then that
/// of the others; that of fewer is the beginning of theirs with zeros behind
/// them, as many digits as hold a bit of the bytes.
pub proof fn law_base32_goes_on(a: Seq<u8>, b: Seq<u8>, zeros: Seq<u8>)
    requires
        a.len() == 5,
        forall|i: int| 0 <= i < zeros.len() ==> #[trigger] zeros[i] == 0,
    ensures
        crate::credential::base32_text(a + b) == crate::credential::base32_text(a)
            + crate::credential::base32_text(b),
        crate::credential::base32_text(b).len() == (8 * b.len() + 4) / 5,
        crate::credential::base32_text(b) == crate::credential::base32_text(b + zeros).take(
            (8 * b.len() + 4) as int / 5,
        ),
{
    let whole = a + b;
    let x = crate::credential::base32_text(a);
    let y = crate::credential::base32_text(b);
    let t = crate::credential::base32_text(whole);
    assert forall|k: int| 0 <= k < 40 implies #[trigger] crate::credential::bit(whole, k)
        == crate::credential::bit(a, k) by {
        assert(0 <= k / 8 < 5);
        assert(whole[k / 8] == a[k / 8]);
    }
    assert forall|k: int| k >= 40 implies #[trigger] crate::credential::bit(whole, k)
        == crate::credential::bit(b, k - 40) by {
        assert((k - 40) / 8 == k / 8 - 5 && (k - 40) % 8 == k % 8);
        if k < 8 * whole.len() {
            assert(whole[k / 8] == b[k / 8 - 5]);
        }
    }
    assert(x.len() == 8);
    assert forall|i: int| 0 <= i < t.len() implies t[i] == (x + y)[i] by {
        if i < 8 {
            assert(crate::credential::five_bits(whole, i) == crate::credential::five_bits(a, i));
        } else {
            assert(crate::credential::five_bits(whole, i) == crate::credential::five_bits(
                b,
                i - 8,
            ));
        }
    }
    assert(t =~= x + y);
    let padded = b + zeros;
    assert forall|k: int| k >= 0 implies #[trigger] crate::credential::bit(padded, k)
        == crate::credential::bit(b, k) by {
        if k < 8 * b.len() {
            assert(padded[k / 8] == b[k / 8]);
        } else if k < 8 * padded.len() {
            assert(padded[k / 8] == zeros[k / 8 - b.len()]);
            assert(padded[k / 8] == 0);
        }
    }
    let p = crate::credential::base32_text(padded);
    assert forall|i: int| 0 <= i < y.len() implies y[i] == p[i] by {
        assert(crate::credential::five_bits(padded, i) == crate::credential::five_bits(b, i));
    }
    assert(y =~= p.take((8 * b.len() + 4) as int / 5));
}

/// The digits of base64.
pub open spec fn base64_alphabet() -> Seq<char> {
    "ABCDEFGHIJKLMNOPQRSTUVWXYZabcdefghijklmnopqrstuvwxyz0123456789+/"@
}

/// Three bytes make up four digits of base64, which are the digits to the base
/// 64 of the number that the bytes are; one or two bytes are padded with zeros,
/// and equals signs stand for the digits that hold none of their bits; and what
/// stands behind three bytes goes on behind their digits.
pub proof fn law_base64_by_threes(a: u8, b: u8, c: u8, digits: Seq<int>, rest: Seq<u8>)
    requires
        digits.len() == 4,
        forall|i: int| 0 <= i < 4 ==> 0 <= #[trigger] digits[i] < 64,
        a * 0x1_0000 + b * 0x100 + c == digits[0] * 0x4_0000 + digits[1] * 0x1000 + digits[2] * 0x40
            + digits[3],
    ensures
        ({
            let alphabet = base64_alphabet();
            &&& crate::keyfile::base64_text(seq![a, b, c] + rest) == seq![
                alphabet[digits[0]],
                alphabet[digits[1]],
                alphabet[digits[2]],
                alphabet[digits[3]],
            ] + crate::keyfile::base64_text(rest)
            &&& c == 0 ==> crate::keyfile::base64_text(seq![a, b]) == seq![
                alphabet[digits[0]],
                alphabet[digits[1]],
                alphabet[digits[2]],
                '=',
            ]
            &&& b == 0 && c == 0 ==> crate::keyfile::base64_text(seq![a]) == seq![
                alphabet[digits[0]],
                alphabet[digits[1]],
                '=',
                '=',
            ]
            &&& crate::keyfile::base64_text(Seq::empty()) == Seq::<char>::empty()
        }),
{
    reveal_strlit("ABCDEFGHIJKLMNOPQRSTUVWXYZabcdefghijklmnopqrstuvwxyz0123456789+/");
    let alphabet = base64_alphabet();
    let n = 65536 * a + 256 * b + c;
    assert(0 <= digits[0] < 64 && 0 <= digits[1] < 64);
    assert(0 <= digits[2] < 64 && 0 <= digits[3] < 64);
    assert(n == digits[0] * 0x4_0000 + digits[1] * 0x1000 + digits[2] * 0x40 + digits[3]);
    assert(n / 262144 == digits[0]);
    assert(n / 4096 == digits[0] * 64 + digits[1]);
    assert((n / 4096) % 64 == digits[1]);
    assert(n / 64 == digits[0] * 4096 + digits[1] * 64 + digits[2]);
    assert((n / 64) % 64 == digits[2]);
    assert(n % 64 == digits[3]);
    lemma_base64_alphabet(digits[0]);
    lemma_base64_alphabet(digits[1]);
    lemma_base64_alphabet(digits[2]);
    lemma_base64_alphabet(digits[3]);
    let quad = crate::keyfile::base64_quad(a, b, c);
    assert(quad =~= seq![
        alphabet[digits[0]],
        alphabet[digits[1]],
        alphabet[digits[2]],
        alphabet[digits[3]],
    ]);
    assert((seq![a, b, c] + rest).skip(3) =~= rest);
    if c == 0 {
        assert(crate::keyfile::base64_text(seq![a, b]) =~= quad.take(3) + seq!['=']);
    }
    if b == 0 && c == 0 {
        assert(crate::keyfile::base64_text(seq![a]) =~= quad.take(2) + seq!['=', '=']);
    }
}

proof fn lemma_base64_alphabet(v: int)
    requires
        0 <= v < 64,
    ensures
        crate::keyfile::base64_digit(v) == base64_alphabet()[v],
{
    reveal_strlit("ABCDEFGHIJKLMNOPQRSTUVWXYZabcdefghijklmnopqrstuvwxyz0123456789+/");
}

} // verus!
