//! Absolute domain names: their labels, their text and how they compare.

use hickory_client::proto::rr::Name;
use vstd::prelude::*;

use crate::text::{alphanumeric_byte, fold_byte, same_text};

verus! {

/// The length of a name on the wire, its closing root label counted.
pub open spec fn encoded_len(labels: Seq<Seq<u8>>) -> nat
    decreases labels.len(),
{
    if labels.len() == 0 {
        1
    } else {
        1 + labels[0].len() + encoded_len(labels.drop_first())
    }
}

/// Labels that a domain name can have: none is empty or longer than 63 bytes,
/// and the whole fits in 255 bytes on the wire.
pub open spec fn valid_labels(labels: Seq<Seq<u8>>) -> bool {
    &&& forall|i: int| 0 <= i < labels.len() ==> 1 <= (#[trigger] labels[i]).len() <= 63
    &&& encoded_len(labels) <= 255
}

/// A label with its ASCII letters in lower case.
pub open spec fn lower_label(label: Seq<u8>) -> Seq<u8> {
    label.map_values(|b: u8| crate::text::lower_byte(b))
}

/// A name with its ASCII letters in lower case: two names are the same name
/// when this form of them is equal.
pub open spec fn lower_name(labels: Seq<Seq<u8>>) -> Seq<Seq<u8>> {
    labels.map_values(|l: Seq<u8>| lower_label(l))
}

/// The name without its first label; the root has no label to drop.
pub open spec fn base_of(labels: Seq<Seq<u8>>) -> Seq<Seq<u8>> {
    if labels.len() > 0 {
        labels.drop_first()
    } else {
        labels
    }
}

/// Whether the labels of `zone` are, but for case, the last labels of `name`.
pub open spec fn zone_of(zone: Seq<Seq<u8>>, name: Seq<Seq<u8>>) -> bool {
    &&& zone.len() <= name.len()
    &&& lower_name(name).skip(name.len() - zone.len()) == lower_name(zone)
}

/// The byte strings that a vector of byte vectors holds.
pub open spec fn byte_strings(v: Seq<Vec<u8>>) -> Seq<Seq<u8>> {
    v.map_values(|b: Vec<u8>| b@)
}

/// One DNS label of ASCII letters, digits and hyphens that neither begins nor
/// ends with a hyphen.
pub open spec fn is_hostname(text: Seq<char>) -> bool {
    &&& 1 <= text.len() <= 63
    &&& text.first() != '-'
    &&& text.last() != '-'
    &&& forall|i: int|
        0 <= i < text.len() ==> crate::text::is_alphanumeric(#[trigger] text[i]) || text[i] == '-'
}

/// Whether a byte stands for itself in the text of a label.
pub open spec fn is_safe(c: char, first: bool) -> bool {
    ||| crate::text::is_alphanumeric(c)
    ||| c == '_'
    ||| c == '-' && !first
    ||| c == '*' && first
}

/// The piece of a dotted text between two dots reads as a label.
pub open spec fn is_label_text(piece: Seq<char>) -> bool {
    &&& 1 <= piece.len() <= 63
    &&& forall|i: int| 0 <= i < piece.len() ==> is_safe(#[trigger] piece[i], i == 0)
}

/// The pieces of a text between its dots.
pub open spec fn split_dots(text: Seq<char>) -> Seq<Seq<char>>
    decreases text.len(),
{
    if text.contains('.') {
        let i = text.index_of_first('.').unwrap();
        if 0 <= i < text.len() {
            seq![text.take(i)] + split_dots(text.skip(i + 1))
        } else {
            seq![text]
        }
    } else {
        seq![text]
    }
}

/// The labels that an absolute name's text stands for, where the text has no
/// escapes: `"."` is the root, and any other name is a run of labels, each
/// followed by a dot.
pub open spec fn labels_of_text(text: Seq<char>) -> Option<Seq<Seq<u8>>> {
    if text == seq!['.'] {
        Some(Seq::empty())
    } else {
        let pieces = split_dots(text.drop_last());
        let labels = pieces.map_values(|p: Seq<char>| crate::text::bytes_of(p));
        if (forall|i: int| 0 <= i < pieces.len() ==> is_label_text(#[trigger] pieces[i]))
            && encoded_len(labels) <= 255 {
            Some(labels)
        } else {
            None
        }
    }
}

/// One byte of a label as text. A byte that does not stand for itself is
/// escaped: by a backslash where it is printable, by a backslash and its three
/// octal digits where it is not.
pub open spec fn byte_text(b: u8, first: bool) -> Seq<char> {
    let c = b as char;
    if is_safe(c, first) {
        seq![c]
    } else if 0x20 < b < 0x7f {
        seq!['\\', c]
    } else {
        seq![
            '\\',
            (48 + b as int / 64) as char,
            (48 + (b as int / 8) % 8) as char,
            (48 + b as int % 8) as char,
        ]
    }
}

/// A label as text, from its byte `from` on.
pub open spec fn label_text(label: Seq<u8>, from: int) -> Seq<char>
    decreases label.len() - from,
{
    if 0 <= from < label.len() {
        byte_text(label[from], from == 0) + label_text(label, from + 1)
    } else {
        Seq::empty()
    }
}

/// Labels as text, each followed by a dot.
pub open spec fn dotted(labels: Seq<Seq<u8>>) -> Seq<char>
    decreases labels.len(),
{
    if labels.len() == 0 {
        Seq::empty()
    } else {
        label_text(labels[0], 0) + seq!['.'] + dotted(labels.drop_first())
    }
}

/// The text of an absolute name.
pub open spec fn text_of_name(labels: Seq<Seq<u8>>) -> Seq<char> {
    if labels.len() == 0 {
        seq!['.']
    } else {
        dotted(labels)
    }
}

/// An absolute domain name.
pub struct DnsName {
    pub(crate) labels: Vec<Vec<u8>>,
}

impl View for DnsName {
    type V = Seq<Seq<u8>>;

    closed spec fn view(&self) -> Seq<Seq<u8>> {
        byte_strings(self.labels@)
    }
}

impl Clone for DnsName {
    fn clone(&self) -> (r: Self)
        ensures
            r@ == self@,
    {
        proof {
            use_type_invariant(self);
        }
        let labels = copy_byte_strings(&self.labels);
        DnsName { labels }
    }
}

impl DnsName {
    /// A name holds labels that a name can have.
    #[verifier::type_invariant]
    pub open spec fn wf(self) -> bool {
        valid_labels(self@)
    }

    /// The name with these labels, if they can make up a name.
    pub fn from_labels(labels: Vec<Vec<u8>>) -> (r: Option<DnsName>)
        ensures
            match r {
                Some(n) => valid_labels(byte_strings(labels@)) && n@ == byte_strings(labels@),
                None => !valid_labels(byte_strings(labels@)),
            },
    {
        let ghost view = byte_strings(labels@);
        let mut total: usize = 1;
        let mut i: usize = labels.len();
        assert(view.skip(i as int) =~= Seq::empty());
        while i > 0
            invariant
                i <= labels@.len(),
                view == byte_strings(labels@),
                total <= 255,
                total == encoded_len(view.skip(i as int)),
                forall|j: int| i <= j < view.len() ==> 1 <= (#[trigger] view[j]).len() <= 63,
            decreases i,
        {
            i = i - 1;
            let n = labels[i].len();
            assert(view[i as int] == labels@[i as int]@);
            assert(view.skip(i as int).drop_first() =~= view.skip(i + 1));
            assert(view.skip(i as int)[0] == view[i as int]);
            if n == 0 || n > 63 {
                return None;
            }
            if total + n + 1 > 255 {
                proof {
                    lemma_encoded_len_suffix(view, i as int);
                }
                return None;
            }
            total = total + n + 1;
        }
        assert(view.skip(0) =~= view);
        Some(DnsName { labels })
    }

    /// The labels of the name, from the host's own to the top-level domain's.
    pub fn labels(&self) -> (r: &Vec<Vec<u8>>)
        ensures
            byte_strings(r@) == self@,
            valid_labels(self@),
    {
        proof {
            use_type_invariant(self);
        }
        &self.labels
    }

    /// Whether two names are the same name; the case of ASCII letters is ignored.
    pub fn same_name(&self, other: &DnsName) -> (r: bool)
        ensures
            r == (lower_name(self@) == lower_name(other@)),
    {
        let ghost a = lower_name(self@);
        let ghost b = lower_name(other@);
        if self.labels.len() != other.labels.len() {
            assert(a.len() != b.len());
            return false;
        }
        for i in 0..self.labels.len()
            invariant
                self.labels@.len() == other.labels@.len(),
                a == lower_name(self@),
                b == lower_name(other@),
                forall|j: int| 0 <= j < i ==> a[j] == b[j],
        {
            if !same_label(&self.labels[i], &other.labels[i]) {
                assert(a[i as int] != b[i as int]);
                return false;
            }
        }
        assert(a =~= b);
        true
    }

    /// The name without its first label; the root is its own base.
    pub fn base_name(&self) -> (r: DnsName)
        ensures
            r@ == base_of(self@),
    {
        proof {
            use_type_invariant(self);
        }
        if self.labels.len() == 0 {
            return self.clone();
        }
        let mut labels: Vec<Vec<u8>> = Vec::new();
        for i in 1..self.labels.len()
            invariant
                labels@.len() == i - 1,
                forall|j: int| 0 <= j < i - 1 ==> labels@[j]@ == self.labels@[j + 1]@,
        {
            labels.push(copy_bytes(&self.labels[i]));
        }
        proof {
            assert(byte_strings(labels@) =~= self@.drop_first());
            assert forall|i: int| 0 <= i < self@.drop_first().len() implies 1 <= (
            #[trigger] self@.drop_first()[i]).len() <= 63 by {
                assert(self@.drop_first()[i] == self@[i + 1]);
            }
        }
        DnsName { labels }
    }

    /// Whether the first label of the name is one that a client may reserve.
    pub fn has_hostname_label(&self) -> (r: bool)
        ensures
            r == (self@.len() > 0 && is_hostname(crate::text::chars_of(self@[0]))),
    {
        self.labels.len() > 0 && hostname_bytes(self.labels[0].as_slice())
    }
}

/// Labels from `from` on are no longer on the wire than all labels.
proof fn lemma_encoded_len_suffix(labels: Seq<Seq<u8>>, from: int)
    requires
        0 <= from <= labels.len(),
    ensures
        encoded_len(labels.skip(from)) <= encoded_len(labels),
    decreases from,
{
    if from == 0 {
        assert(labels.skip(0) =~= labels);
    } else {
        lemma_encoded_len_suffix(labels, from - 1);
        assert(labels.skip(from - 1).drop_first() =~= labels.skip(from));
    }
}

/// A copy of a byte string.
pub fn copy_bytes(v: &Vec<u8>) -> (r: Vec<u8>)
    ensures
        r@ == v@,
{
    let r = v.clone();
    assert(r@ =~= v@);
    r
}

/// A copy of a list of byte strings.
pub fn copy_byte_strings(v: &Vec<Vec<u8>>) -> (r: Vec<Vec<u8>>)
    ensures
        byte_strings(r@) == byte_strings(v@),
{
    let mut r: Vec<Vec<u8>> = Vec::new();
    for i in 0..v.len()
        invariant
            r@.len() == i,
            forall|j: int| 0 <= j < i ==> r@[j]@ == v@[j]@,
    {
        r.push(copy_bytes(&v[i]));
    }
    assert(byte_strings(r@) =~= byte_strings(v@));
    r
}

fn same_label(a: &Vec<u8>, b: &Vec<u8>) -> (r: bool)
    ensures
        r == (lower_label(a@) == lower_label(b@)),
{
    if a.len() != b.len() {
        assert(lower_label(a@).len() != lower_label(b@).len());
        return false;
    }
    for i in 0..a.len()
        invariant
            a@.len() == b@.len(),
            forall|j: int| 0 <= j < i ==> lower_label(a@)[j] == lower_label(b@)[j],
    {
        if fold_byte(a[i]) != fold_byte(b[i]) {
            assert(lower_label(a@)[i as int] != lower_label(b@)[i as int]);
            return false;
        }
    }
    assert(lower_label(a@) =~= lower_label(b@));
    true
}

fn hostname_bytes(bytes: &[u8]) -> (r: bool)
    ensures
        r == is_hostname(crate::text::chars_of(bytes@)),
{
    let ghost text = crate::text::chars_of(bytes@);
    let n = bytes.len();
    if n == 0 || n > 63 || bytes[0] == 45 || bytes[n - 1] == 45 {
        return false;
    }
    for i in 0..n
        invariant
            n == bytes@.len(),
            text == crate::text::chars_of(bytes@),
            forall|j: int|
                0 <= j < i ==> crate::text::is_alphanumeric(#[trigger] text[j]) || text[j] == '-',
    {
        if !alphanumeric_byte(bytes[i]) && bytes[i] != 45 {
            assert(text[i as int] == bytes@[i as int] as char);
            return false;
        }
    }
    true
}

/// Whether a client may reserve this hostname: one ASCII DNS label of letters,
/// digits and hyphens.
pub fn valid_hostname(hostname: &str) -> (r: bool)
    ensures
        r == is_hostname(hostname@),
{
    if !hostname.is_ascii() {
        return false;
    }
    let bytes = hostname.as_bytes();
    assert(crate::text::chars_of(bytes@) =~= hostname@);
    hostname_bytes(bytes)
}

/// What `Name::from_ascii` makes of a text: the labels of the name, or the
/// words of the error.
pub uninterp spec fn parsed_name(text: Seq<char>) -> Result<Seq<Seq<u8>>, Seq<char>>;

/// Calls `Name::from_ascii` of hickory-proto and keeps the labels of the name,
/// or the text of the error.
///
/// Claimed of a text that ends with a dot: which labels or which error text
/// come back depends on the text alone, and for a text without a backslash the
/// labels are the pieces between the dots, `labels_of_text`, with an error just
/// where there are none. The wording of the error is not described.
#[verifier::external_body]
fn name_from_ascii(text: &str) -> (r: Result<DnsName, String>)
    requires
        text@.len() > 0,
        text@.last() == '.',
    ensures
        (match r {
            Ok(n) => parsed_name(text@) == Ok::<Seq<Seq<u8>>, Seq<char>>(n@),
            Err(e) => parsed_name(text@) == Err::<Seq<Seq<u8>>, Seq<char>>(e@),
        }),
        !text@.contains('\\') ==> (match r {
            Ok(n) => labels_of_text(text@) == Some(n@),
            Err(_) => labels_of_text(text@) is None,
        }),
{
    match Name::from_ascii(text) {
        Ok(name) => Ok(DnsName { labels: name.iter().map(|label| label.to_vec()).collect() }),
        Err(error) => Err(error.to_string()),
    }
}

/// What the text of an absolute name stands for: its labels, or the words of
/// the error.
pub open spec fn name_of(text: Seq<char>) -> Result<Seq<Seq<u8>>, Seq<char>> {
    if text.contains('\\') {
        parsed_name(text)
    } else {
        match labels_of_text(text) {
            Some(labels) => Ok(labels),
            None => Err(parsed_name(text)->Err_0),
        }
    }
}

/// Reads the text of an absolute name.
pub(crate) fn parse_name(text: &str) -> (r: Result<DnsName, String>)
    requires
        text@.len() > 0,
        text@.last() == '.',
    ensures
        match r {
            Ok(n) => name_of(text@) == Ok::<Seq<Seq<u8>>, Seq<char>>(n@),
            Err(e) => name_of(text@) == Err::<Seq<Seq<u8>>, Seq<char>>(e@),
        },
{
    name_from_ascii(text)
}

/// Calls `Name::to_ascii` of hickory-proto on the name with these labels.
///
/// Claimed: the text is each label, escaped where it has to be, followed by a
/// dot, and a single dot for the root.
#[verifier::external_body]
pub(crate) fn name_to_ascii(name: &DnsName) -> (r: String)
    requires
        valid_labels(name@),
    ensures
        r@ == text_of_name(name@),
{
    Name::from_labels(name.labels.clone()).expect("the labels of a name").to_ascii()
}

/// A text that ends with a dot and has no escapes.
pub open spec fn is_absolute(text: Seq<char>) -> bool {
    &&& text.len() > 0
    &&& text.last() == '.'
    &&& !text.contains('\\')
}

/// A character of the labels of a fully qualified domain name.
pub open spec fn is_fqdn_char(c: char) -> bool {
    crate::text::is_alphanumeric(c) || c == '-' || c == '_' || c == '#'
}

/// A text without the dot at its end, if it has one.
pub open spec fn without_dot(text: Seq<char>) -> Seq<char> {
    if text.len() > 0 && text.last() == '.' {
        text.drop_last()
    } else {
        text
    }
}

/// The text of a fully qualified domain name, with or without a dot at its end:
/// nothing at all for the root, or labels of 1 to 255 characters with dots
/// between them.
pub open spec fn is_fqdn(text: Seq<char>) -> bool {
    let inner = without_dot(text);
    ||| inner.len() == 0
    ||| {
        &&& forall|i: int|
            0 <= i < inner.len() ==> is_fqdn_char(#[trigger] inner[i]) || inner[i] == '.'
        &&& forall|i: int|
            0 <= i < split_dots(inner).len() ==> 1 <= (#[trigger] split_dots(inner)[i]).len()
                <= 255
    }
}

/// The absolute form of the text of a fully qualified domain name: in lower
/// case and with a dot at its end.
pub open spec fn absolute_text(text: Seq<char>) -> Seq<char> {
    crate::text::lower_text(without_dot(text)) + seq!['.']
}

/// How `FQDN` words its refusal of a text.
pub uninterp spec fn fqdn_refusal(text: Seq<char>) -> Seq<char>;

/// Parses a text as an `FQDN` of fqdn and prints it again.
///
/// Claimed: just the texts that `is_fqdn` describes are accepted, and such a
/// text comes back in lower case and without a dot at its end, but as a dot
/// where it stands for the root. The wording of a refusal is a function of the
/// text and is not described.
#[verifier::external_body]
fn fqdn_from_str(text: &str) -> (r: Result<String, String>)
    ensures
        match r {
            Ok(t) => {
                &&& is_fqdn(text@)
                &&& t@ == (if without_dot(text@).len() == 0 {
                    seq!['.']
                } else {
                    crate::text::lower_text(without_dot(text@))
                })
            },
            Err(e) => !is_fqdn(text@) && e@ == fqdn_refusal(text@),
        },
{
    match text.parse::<fqdn::FQDN>() {
        Ok(name) => Ok(name.to_string()),
        Err(error) => Err(error.to_string()),
    }
}

/// Reads the text of a fully qualified domain name and brings it into its
/// absolute form.
pub fn absolute_name(text: &str) -> (r: Result<String, String>)
    ensures
        match r {
            Ok(t) => is_fqdn(text@) && t@ == absolute_text(text@) && is_absolute(t@),
            Err(e) => !is_fqdn(text@) && e@ == fqdn_refusal(text@),
        },
{
    proof {
        reveal_strlit(".");
        assert("."@ =~= seq!['.']);
    }
    let name = match fqdn_from_str(text) {
        Ok(name) => name,
        Err(words) => {
            return Err(words);
        },
    };
    let ghost inner = without_dot(text@);
    proof {
        lemma_fqdn_absolute(text@);
        if inner.len() == 0 {
            assert(absolute_text(text@) =~= seq!['.']);
        } else {
            assert(split_dots(seq!['.'])[0].len() == 0) by {
                assert(seq!['.'] =~= Seq::<char>::empty() + seq!['.'] + Seq::<char>::empty());
                lemma_split_prefix(Seq::empty(), Seq::empty());
            }
            if name@ == seq!['.'] {
                assert(name@[0] == crate::text::lower_char(inner[0]));
                assert(inner =~= seq!['.']);
            }
        }
    }
    if same_text(name.as_str(), ".") {
        Ok(name)
    } else {
        Ok(name.concat("."))
    }
}

/// The absolute form of a fully qualified domain name is an absolute text.
pub proof fn lemma_fqdn_absolute(text: Seq<char>)
    requires
        is_fqdn(text),
    ensures
        is_absolute(absolute_text(text)),
{
    let inner = without_dot(text);
    let absolute = absolute_text(text);
    assert forall|i: int| 0 <= i < absolute.len() implies absolute[i] != '\\' by {
        if i < inner.len() {
            assert(is_fqdn_char(inner[i]) || inner[i] == '.');
        }
    }
}

/// Splitting at the first dot of a text takes off the part before it.
pub proof fn lemma_split_prefix(head: Seq<char>, tail: Seq<char>)
    requires
        !head.contains('.'),
    ensures
        split_dots(head + seq!['.'] + tail) == seq![head] + split_dots(tail),
{
    let text = head + seq!['.'] + tail;
    assert(text[head.len() as int] == '.');
    assert(text.contains('.'));
    let i = text.index_of_first('.').unwrap();
    text.index_of_first_ensures('.');
    assert(i == head.len()) by {
        if i < head.len() {
            assert(head[i] == '.');
            assert(head.contains('.'));
        }
    }
    assert(text.take(i) =~= head);
    assert(text.skip(i + 1) =~= tail);
}

/// The text of a label put before the text of a name stands for that label and
/// then the labels of the name, where the label can be one, the name is not the
/// root, and the whole is not too long.
pub proof fn lemma_prefixed_name(head: Seq<char>, tail: Seq<char>)
    requires
        !head.contains('.'),
        tail.len() > 0,
        tail.last() == '.',
    ensures
        labels_of_text(head + seq!['.'] + tail) == (match labels_of_text(tail) {
            Some(n) => {
                if is_label_text(head) && n.len() > 0 && 1 + head.len() + encoded_len(n) <= 255 {
                    Some(seq![crate::text::bytes_of(head)] + n)
                } else {
                    None
                }
            },
            None => None,
        }),
{
    let text = head + seq!['.'] + tail;
    let pieces = split_dots(text.drop_last());
    let rest = split_dots(tail.drop_last());
    assert(text.drop_last() =~= head + seq!['.'] + tail.drop_last());
    lemma_split_prefix(head, tail.drop_last());
    assert(pieces == seq![head] + rest);
    assert(pieces[0] == head);
    assert(forall|i: int| 0 <= i < rest.len() ==> #[trigger] rest[i] == pieces[i + 1]);
    let labels = rest.map_values(|p: Seq<char>| crate::text::bytes_of(p));
    let all = pieces.map_values(|p: Seq<char>| crate::text::bytes_of(p));
    assert(all =~= seq![crate::text::bytes_of(head)] + labels);
    assert(all.drop_first() =~= labels);
    assert(encoded_len(all) == 1 + head.len() + encoded_len(labels));
    assert(text.len() >= 2 && text != seq!['.']);
    if tail == seq!['.'] {
        assert(tail.drop_last() =~= Seq::<char>::empty());
        assert(rest =~= seq![Seq::<char>::empty()]);
        assert(!is_label_text(pieces[1]));
    } else {
        assert(rest.len() > 0);
        if labels_of_text(tail) is Some && is_label_text(head) {
            assert forall|i: int| 0 <= i < pieces.len() implies is_label_text(
                #[trigger] pieces[i],
            ) by {
                if i > 0 {
                    assert(is_label_text(rest[i - 1]));
                }
            }
        }
        if forall|i: int| 0 <= i < pieces.len() ==> is_label_text(#[trigger] pieces[i]) {
            assert(is_label_text(pieces[0]));
            assert forall|i: int| 0 <= i < rest.len() implies is_label_text(#[trigger] rest[i]) by {
                assert(is_label_text(pieces[i + 1]));
            }
        }
    }
}

/// A text put before the text of a name, with a dot between them: where the
/// whole is a name, its last labels are those of the name.
pub proof fn lemma_suffix_name(head: Seq<char>, tail: Seq<char>)
    requires
        tail.len() > 0,
        tail.last() == '.',
        labels_of_text(head + seq!['.'] + tail) is Some,
    ensures
        labels_of_text(tail) is Some,
        ({
            let n = labels_of_text(head + seq!['.'] + tail)->Some_0;
            let m = labels_of_text(tail)->Some_0;
            m.len() <= n.len() && n.skip(n.len() - m.len()) == m
        }),
    decreases head.len(),
{
    let n = labels_of_text(head + seq!['.'] + tail)->Some_0;
    if head.contains('.') {
        let i = head.index_of_first('.').unwrap();
        head.index_of_first_ensures('.');
        let first = head.take(i);
        let rest = head.skip(i + 1);
        assert(!first.contains('.'));
        assert(head =~= first + seq!['.'] + rest);
        let below = rest + seq!['.'] + tail;
        assert(head + seq!['.'] + tail =~= first + seq!['.'] + below);
        assert(below.last() == '.');
        lemma_prefixed_name(first, below);
        lemma_suffix_name(rest, tail);
        let k = labels_of_text(below)->Some_0;
        let m = labels_of_text(tail)->Some_0;
        assert(n.skip(n.len() - m.len()) =~= k.skip(k.len() - m.len()));
    } else {
        lemma_prefixed_name(head, tail);
        let m = labels_of_text(tail)->Some_0;
        assert(n.skip(n.len() - m.len()) =~= m);
    }
}

/// A name whose last labels are those of a zone lies in the zone.
pub proof fn lemma_zone_of_suffix(zone: Seq<Seq<u8>>, name: Seq<Seq<u8>>)
    requires
        zone.len() <= name.len(),
        name.skip(name.len() - zone.len()) == zone,
    ensures
        zone_of(zone, name),
{
    assert(lower_name(name).skip(name.len() - zone.len()) =~= lower_name(zone));
}

/// The text of a name reads as the name that it was printed from.
pub proof fn lemma_text_of_name(text: Seq<char>)
    requires
        text.len() > 0,
        text.last() == '.',
        labels_of_text(text) is Some,
    ensures
        text_of_name(labels_of_text(text)->Some_0) == text,
    decreases text.len(),
{
    let n = labels_of_text(text)->Some_0;
    if text != seq!['.'] {
        let inner = text.drop_last();
        assert(text =~= inner + seq!['.']);
        if inner.contains('.') {
            let i = inner.index_of_first('.').unwrap();
            inner.index_of_first_ensures('.');
            let first = inner.take(i);
            let rest = text.skip(i + 1);
            assert(!first.contains('.'));
            assert(text =~= first + seq!['.'] + rest);
            assert(rest.last() == '.');
            lemma_prefixed_name(first, rest);
            lemma_text_of_name(rest);
            lemma_label_text(first, 0);
            assert(n.drop_first() =~= labels_of_text(rest)->Some_0);
            assert(first.skip(0) =~= first);
        } else {
            assert(split_dots(inner) =~= seq![inner]);
            let pieces = split_dots(inner);
            assert(is_label_text(pieces[0]));
            assert(n =~= seq![crate::text::bytes_of(inner)]);
            lemma_label_text(inner, 0);
            assert(inner.skip(0) =~= inner);
            assert(n.drop_first() =~= Seq::<Seq<u8>>::empty());
            assert(dotted(n.drop_first()) =~= Seq::<char>::empty());
            assert(dotted(n) =~= text);
        }
    }
}

/// A label that needs no escapes is printed as it was read.
proof fn lemma_label_text(piece: Seq<char>, from: int)
    requires
        is_label_text(piece),
        0 <= from <= piece.len(),
    ensures
        label_text(crate::text::bytes_of(piece), from) == piece.skip(from),
    decreases piece.len() - from,
{
    if from < piece.len() {
        lemma_label_text(piece, from + 1);
        let b = crate::text::bytes_of(piece)[from];
        assert(is_safe(piece[from], from == 0));
        assert(b as char == piece[from]);
        assert(piece.skip(from) =~= seq![piece[from]] + piece.skip(from + 1));
    } else {
        assert(piece.skip(from) =~= Seq::<char>::empty());
    }
}

/// A name lies in a zone that its base is.
pub proof fn lemma_zone_of_base(zone: Seq<Seq<u8>>, name: Seq<Seq<u8>>)
    requires
        name.len() > 0,
        lower_name(base_of(name)) == lower_name(zone),
    ensures
        zone_of(zone, name),
{
    assert(lower_name(zone).len() == zone.len());
    assert(lower_name(base_of(name)).len() == name.len() - 1);
    assert(lower_name(name).skip(1) =~= lower_name(base_of(name)));
}

} // verus!
