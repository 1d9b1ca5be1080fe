//! The file that holds the key for signing updates.

use base64::Engine;
use vstd::prelude::*;

use crate::name::{absolute_name, parse_name, DnsName};
use crate::text::{eq_ignore_case, same_text};

verus! {

/// Why the text of a key file cannot be cut into tokens.
#[derive(Debug, Clone, Copy, PartialEq, Eq, Structural)]
pub enum LexError {
    /// A comment begins with `/*` and has no `*/`.
    UnterminatedComment,
    /// A quoted string holds a backslash.
    EscapedString,
    /// A quoted string has no closing quote.
    UnterminatedString,
}

/// What a part of the text lasts to.
#[derive(Clone, Copy, PartialEq, Eq, Structural)]
pub enum Stop {
    /// The end of the line.
    Line,
    /// A quote, or a backslash.
    Quote,
    /// White space, a brace, a semicolon or a quote.
    Word,
}

/// Whether a part of the text stops before this character.
pub open spec fn stops(stop: Stop, c: char) -> bool {
    match stop {
        Stop::Line => c == '\n',
        Stop::Quote => c == '"' || c == '\\',
        Stop::Word => crate::text::is_ascii_space(c) || is_punctuation(c) || c == '"',
    }
}

/// A character that is a token by itself.
pub open spec fn is_punctuation(c: char) -> bool {
    c == '{' || c == '}' || c == ';'
}

/// How many characters come before the first that stops the part, or before
/// the end of the text.
pub open spec fn run(text: Seq<char>, stop: Stop) -> int
    decreases text.len(),
{
    if text.len() == 0 || stops(stop, text[0]) {
        0
    } else {
        1 + run(text.drop_first(), stop)
    }
}

/// How many characters there are up to the first `*/` and with it.
pub open spec fn comment_len(text: Seq<char>) -> Option<int>
    decreases text.len(),
{
    if text.len() < 2 {
        None
    } else if text[0] == '*' && text[1] == '/' {
        Some(2)
    } else {
        match comment_len(text.drop_first()) {
            Some(n) => Some(n + 1),
            None => None,
        }
    }
}

/// Whether a text begins with these two characters.
pub open spec fn begins(text: Seq<char>, a: char, b: char) -> bool {
    text.len() >= 2 && text[0] == a && text[1] == b
}

/// A token and the tokens behind it.
pub open spec fn put_first(
    token: Seq<char>,
    rest: Result<Seq<Seq<char>>, LexError>,
) -> Result<Seq<Seq<char>>, LexError> {
    match rest {
        Ok(tokens) => Ok(seq![token] + tokens),
        Err(error) => Err(error),
    }
}

/// The tokens of a key file: quoted strings without their quotes, braces and
/// semicolons one by one, and bare words; white space and comments separate
/// tokens. A comment is a `#` or `//` with the rest of its line, or `/* */`.
pub open spec fn tokens(text: Seq<char>) -> Result<Seq<Seq<char>>, LexError>
    decreases text.len(),
{
    if text.len() == 0 {
        Ok(Seq::empty())
    } else if crate::text::is_ascii_space(text[0]) {
        tokens(text.skip(1))
    } else if text[0] == '#' {
        proof {
            lemma_run(text.skip(1), Stop::Line);
        }
        tokens(text.skip(1 + run(text.skip(1), Stop::Line)))
    } else if begins(text, '/', '/') {
        proof {
            lemma_run(text.skip(2), Stop::Line);
        }
        tokens(text.skip(2 + run(text.skip(2), Stop::Line)))
    } else if begins(text, '/', '*') {
        proof {
            lemma_comment_len(text.skip(2));
        }
        match comment_len(text.skip(2)) {
            Some(n) => tokens(text.skip(2 + n)),
            None => Err(LexError::UnterminatedComment),
        }
    } else if text[0] == '"' {
        let n = run(text.skip(1), Stop::Quote);
        proof {
            lemma_run(text.skip(1), Stop::Quote);
        }
        if 1 + n >= text.len() {
            Err(LexError::UnterminatedString)
        } else if text[1 + n] == '\\' {
            Err(LexError::EscapedString)
        } else {
            put_first(text.subrange(1, 1 + n), tokens(text.skip(2 + n)))
        }
    } else if is_punctuation(text[0]) {
        put_first(text.take(1), tokens(text.skip(1)))
    } else {
        let n = run(text, Stop::Word);
        proof {
            lemma_run(text, Stop::Word);
        }
        put_first(text.take(n), tokens(text.skip(n)))
    }
}

/// A part of the text ends within it, at a character that stops it if not at
/// the end, and holds no such character.
pub proof fn lemma_run(text: Seq<char>, stop: Stop)
    ensures
        0 <= run(text, stop) <= text.len(),
        text.len() > 0 && !stops(stop, text[0]) ==> run(text, stop) >= 1,
        run(text, stop) < text.len() ==> stops(stop, text[run(text, stop)]),
        forall|i: int| 0 <= i < run(text, stop) ==> !stops(stop, #[trigger] text[i]),
    decreases text.len(),
{
    if text.len() == 0 || stops(stop, text[0]) {
    } else {
        let rest = text.drop_first();
        lemma_run(rest, stop);
        assert forall|i: int| 0 <= i < run(text, stop) implies !stops(stop, #[trigger] text[i]) by {
            if i > 0 {
                assert(rest[i - 1] == text[i]);
            }
        }
    }
}

/// A comment ends within the text.
pub proof fn lemma_comment_len(text: Seq<char>)
    ensures
        match comment_len(text) {
            Some(n) => 2 <= n <= text.len(),
            None => true,
        },
    decreases text.len(),
{
    if text.len() >= 2 && !(text[0] == '*' && text[1] == '/') {
        lemma_comment_len(text.drop_first());
    }
}

/// The texts that strings hold.
pub open spec fn texts(v: Seq<String>) -> Seq<Seq<char>> {
    v.map_values(|s: String| s@)
}

fn is_stop(stop: Stop, c: char) -> (r: bool)
    ensures
        r == stops(stop, c),
{
    match stop {
        Stop::Line => c == '\n',
        Stop::Quote => c == '"' || c == '\\',
        Stop::Word => is_space(c) || c == '{' || c == '}' || c == ';' || c == '"',
    }
}

fn is_space(c: char) -> (r: bool)
    ensures
        r == crate::text::is_ascii_space(c),
{
    c == ' ' || c == '\t' || c == '\n' || c == '\x0C' || c == '\r'
}

/// The position where the part that begins at `from` stops.
fn run_end(chars: &Vec<char>, from: usize, stop: Stop) -> (r: usize)
    requires
        from <= chars@.len(),
    ensures
        from <= r <= chars@.len(),
        r == from + run(chars@.skip(from as int), stop),
{
    let mut i: usize = from;
    while i < chars.len() && !is_stop(stop, chars[i])
        invariant
            from <= i <= chars@.len(),
            run(chars@.skip(from as int), stop) == i - from + run(chars@.skip(i as int), stop),
        decreases chars.len() - i,
    {
        assert(chars@.skip(i as int).drop_first() =~= chars@.skip(i + 1));
        i = i + 1;
    }
    i
}

/// The position behind the comment whose text begins at `from`.
fn comment_end(chars: &Vec<char>, from: usize) -> (r: Option<usize>)
    requires
        from <= chars@.len(),
    ensures
        match r {
            Some(end) => {
                &&& from <= end <= chars@.len()
                &&& comment_len(chars@.skip(from as int)) == Some(end - from)
            },
            None => comment_len(chars@.skip(from as int)) is None,
        },
{
    let ghost whole = comment_len(chars@.skip(from as int));
    let mut i: usize = from;
    while chars.len() - i >= 2 && !(chars[i] == '*' && chars[i + 1] == '/')
        invariant
            from <= i <= chars@.len(),
            match comment_len(chars@.skip(i as int)) {
                Some(n) => whole == Some(i - from + n),
                None => whole is None,
            },
        decreases chars.len() - i,
    {
        assert(chars@.skip(i as int).drop_first() =~= chars@.skip(i + 1));
        i = i + 1;
    }
    if chars.len() - i >= 2 {
        Some(i + 2)
    } else {
        None
    }
}

/// Tokens found before, a token and the tokens behind it make up one list.
proof fn lemma_put_first(
    before: Seq<Seq<char>>,
    token: Seq<char>,
    rest: Result<Seq<Seq<char>>, LexError>,
)
    ensures
        match rest {
            Ok(r) => {
                &&& put_first(token, rest) matches Ok(all)
                &&& before + all == before.push(token) + r
            },
            Err(e) => put_first(token, rest) == Err::<Seq<Seq<char>>, LexError>(e),
        },
{
    if let Ok(r) = rest {
        assert(before + (seq![token] + r) =~= before.push(token) + r);
    }
}

/// Reads the token, the comment or the white space that begins at `pos`: the
/// token, if there is one, and the position behind what was read.
fn lex_part(text: &str, chars: &Vec<char>, pos: usize) -> (r: Result<
    (Option<String>, usize),
    LexError,
>)
    requires
        chars@ == text@,
        pos < chars@.len(),
    ensures
        match r {
            Ok((Some(token), end)) => {
                &&& pos < end <= chars@.len()
                &&& tokens(text@.skip(pos as int)) == put_first(
                    token@,
                    tokens(text@.skip(end as int)),
                )
            },
            Ok((None, end)) => {
                &&& pos < end <= chars@.len()
                &&& tokens(text@.skip(pos as int)) == tokens(text@.skip(end as int))
            },
            Err(e) => tokens(text@.skip(pos as int)) == Err::<Seq<Seq<char>>, LexError>(e),
        },
{
    let ghost rest = text@.skip(pos as int);
    let n = chars.len();
    let c = chars[pos];
    assert(rest[0] == c);
    assert forall|k: int| 0 <= k <= rest.len() implies #[trigger] rest.skip(k) == text@.skip(
        pos + k,
    ) by {
        assert(rest.skip(k) =~= text@.skip(pos + k));
    }
    if is_space(c) {
        return Ok((None, pos + 1));
    }
    if c == '#' {
        let end = run_end(chars, pos + 1, Stop::Line);
        assert(rest.skip(1) == text@.skip(pos + 1));
        return Ok((None, end));
    }
    if c == '/' && n - pos >= 2 && chars[pos + 1] == '/' {
        let end = run_end(chars, pos + 2, Stop::Line);
        assert(begins(rest, '/', '/'));
        assert(rest.skip(2) == text@.skip(pos + 2));
        return Ok((None, end));
    }
    if c == '/' && n - pos >= 2 && chars[pos + 1] == '*' {
        assert(begins(rest, '/', '*'));
        assert(rest.skip(2) == text@.skip(pos + 2));
        return match comment_end(chars, pos + 2) {
            Some(end) => Ok((None, end)),
            None => Err(LexError::UnterminatedComment),
        };
    }
    assert(!begins(rest, '/', '/') && !begins(rest, '/', '*'));
    if c == '"' {
        let end = run_end(chars, pos + 1, Stop::Quote);
        assert(rest.skip(1) == text@.skip(pos + 1));
        if end == n {
            return Err(LexError::UnterminatedString);
        }
        assert(rest[end - pos] == chars@[end as int]);
        if chars[end] == '\\' {
            return Err(LexError::EscapedString);
        }
        assert(rest.subrange(1, end - pos) =~= text@.subrange(pos + 1, end as int));
        return Ok((Some(text.substring_char(pos + 1, end).to_owned()), end + 1));
    }
    if c == '{' || c == '}' || c == ';' {
        assert(rest.take(1) =~= text@.subrange(pos as int, pos + 1));
        return Ok((Some(text.substring_char(pos, pos + 1).to_owned()), pos + 1));
    }
    let end = run_end(chars, pos, Stop::Word);
    proof {
        lemma_run(rest, Stop::Word);
    }
    assert(rest.take(end - pos) =~= text@.subrange(pos as int, end as int));
    Ok((Some(text.substring_char(pos, end).to_owned()), end))
}

/// Cuts the text of a key file into tokens.
pub fn lex(text: &str) -> (r: Result<Vec<String>, LexError>)
    ensures
        match r {
            Ok(v) => tokens(text@) == Ok::<Seq<Seq<char>>, LexError>(texts(v@)),
            Err(e) => tokens(text@) == Err::<Seq<Seq<char>>, LexError>(e),
        },
{
    let mut chars: Vec<char> = Vec::new();
    for c in it: text.chars()
        invariant
            chars@ == text@.take(it.index()),
            it.seq() == text@,
    {
        chars.push(c);
    }
    assert(chars@ =~= text@);
    let mut found: Vec<String> = Vec::new();
    let mut pos: usize = 0;
    proof {
        assert(text@.skip(0) =~= text@);
        if let Ok(all) = tokens(text@) {
            assert(texts(found@) + all =~= all);
        }
    }
    while pos < chars.len()
        invariant
            chars@ == text@,
            pos <= chars@.len(),
            match tokens(text@.skip(pos as int)) {
                Ok(rest) => tokens(text@) == Ok::<Seq<Seq<char>>, LexError>(texts(found@) + rest),
                Err(e) => tokens(text@) == Err::<Seq<Seq<char>>, LexError>(e),
            },
        decreases chars.len() - pos,
    {
        let ghost before = texts(found@);
        let (token, end) = match lex_part(text, &chars, pos) {
            Ok(part) => part,
            Err(e) => {
                return Err(e);
            },
        };
        if let Some(token) = token {
            proof {
                lemma_put_first(before, token@, tokens(text@.skip(end as int)));
            }
            found.push(token);
            assert(texts(found@) =~= before.push(token@));
        }
        pos = end;
    }
    assert(text@.skip(pos as int) =~= Seq::empty());
    assert(texts(found@) + Seq::<Seq<char>>::empty() =~= texts(found@));
    Ok(found)
}

/// The digit of the standard base64 alphabet for a value below 64.
pub open spec fn base64_digit(value: int) -> char {
    if value < 26 {
        (65 + value) as char
    } else if value < 52 {
        (71 + value) as char
    } else if value < 62 {
        (value - 4) as char
    } else if value == 62 {
        '+'
    } else {
        '/'
    }
}

/// The four base64 digits of three bytes.
pub open spec fn base64_quad(a: u8, b: u8, c: u8) -> Seq<char> {
    let n = 65536 * a + 256 * b + c;
    seq![
        base64_digit(n / 262144),
        base64_digit((n / 4096) % 64),
        base64_digit((n / 64) % 64),
        base64_digit(n % 64),
    ]
}

/// Bytes in standard base64 with padding (RFC 4648).
pub open spec fn base64_text(bytes: Seq<u8>) -> Seq<char>
    decreases bytes.len(),
{
    if bytes.len() == 0 {
        Seq::empty()
    } else if bytes.len() == 1 {
        base64_quad(bytes[0], 0, 0).take(2) + seq!['=', '=']
    } else if bytes.len() == 2 {
        base64_quad(bytes[0], bytes[1], 0).take(3) + seq!['=']
    } else {
        base64_quad(bytes[0], bytes[1], bytes[2]) + base64_text(bytes.skip(3))
    }
}

/// How the standard base64 engine words its refusal of a text.
pub uninterp spec fn base64_refusal(text: Seq<char>) -> Seq<char>;

/// Calls `decode` of `base64::engine::general_purpose::STANDARD`, which wants
/// canonical padding and no stray bits.
///
/// Claimed: bytes come back just for a text that is the base64 of those bytes.
/// The wording of a refusal is a function of the text and is not described.
#[verifier::external_body]
fn base64_decode(text: &str) -> (r: Result<Vec<u8>, String>)
    ensures
        match r {
            Ok(v) => base64_text(v@) == text@,
            Err(e) => {
                &&& forall|v: Seq<u8>| #[trigger] base64_text(v) != text@
                &&& e@ == base64_refusal(text@)
            },
        },
{
    match base64::engine::general_purpose::STANDARD.decode(text) {
        Ok(bytes) => Ok(bytes),
        Err(error) => Err(error.to_string()),
    }
}

/// Why a key file is refused.
#[derive(Debug)]
pub enum KeyFileError {
    /// The text cannot be cut into tokens.
    Lex(LexError),
    /// The tokens are not those of one HMAC-SHA256 key, or its name is no
    /// domain name.
    Invalid,
    /// The secret is not base64, for the reason given.
    Secret(String),
}

/// What a refusal of a key file says.
pub enum KeyErrorView {
    Lex(LexError),
    Invalid,
    Secret(Seq<char>),
}

impl View for KeyFileError {
    type V = KeyErrorView;

    open spec fn view(&self) -> KeyErrorView {
        match self {
            KeyFileError::Lex(error) => KeyErrorView::Lex(*error),
            KeyFileError::Invalid => KeyErrorView::Invalid,
            KeyFileError::Secret(reason) => KeyErrorView::Secret(reason@),
        }
    }
}

/// The words of a refusal of a key file.
pub open spec fn key_error_text(error: KeyErrorView) -> Seq<char> {
    match error {
        KeyErrorView::Lex(LexError::UnterminatedComment) => {
            "unterminated comment in TSIG key file"@
        },
        KeyErrorView::Lex(LexError::EscapedString) => {
            "escaped strings are not valid in a TSIG key file"@
        },
        KeyErrorView::Lex(LexError::UnterminatedString) => {
            "unterminated string in TSIG key file"@
        },
        KeyErrorView::Invalid => "invalid TSIG key file"@,
        KeyErrorView::Secret(reason) => "invalid TSIG secret: "@ + reason,
    }
}

impl KeyFileError {
    /// The refusal in words.
    pub fn message(&self) -> (r: String)
        ensures
            r@ == key_error_text(self@),
    {
        match self {
            KeyFileError::Lex(LexError::UnterminatedComment) => {
                "unterminated comment in TSIG key file".to_owned()
            },
            KeyFileError::Lex(LexError::EscapedString) => {
                "escaped strings are not valid in a TSIG key file".to_owned()
            },
            KeyFileError::Lex(LexError::UnterminatedString) => {
                "unterminated string in TSIG key file".to_owned()
            },
            KeyFileError::Invalid => "invalid TSIG key file".to_owned(),
            KeyFileError::Secret(reason) => {
                "invalid TSIG secret: ".to_owned().concat(reason.as_str())
            },
        }
    }
}

/// The tokens of one HMAC-SHA256 key.
pub open spec fn is_key(t: Seq<Seq<char>>) -> bool {
    &&& t.len() == 11
    &&& crate::text::lower_text(t[0]) == "key"@
    &&& t[2] == "{"@
    &&& crate::text::lower_text(t[3]) == "algorithm"@
    &&& crate::text::lower_text(t[4]) == "hmac-sha256"@
    &&& t[5] == ";"@
    &&& crate::text::lower_text(t[6]) == "secret"@
    &&& t[8] == ";"@
    &&& t[9] == "}"@
    &&& t[10] == ";"@
}

/// A key for signing updates: its name and its secret.
pub struct KeyView {
    pub name: Seq<char>,
    pub secret: Seq<u8>,
}

/// The bytes that a base64 text stands for.
pub open spec fn base64_bytes(text: Seq<char>) -> Option<Seq<u8>> {
    if exists|v: Seq<u8>| #[trigger] base64_text(v) == text {
        Some(choose|v: Seq<u8>| #[trigger] base64_text(v) == text)
    } else {
        None
    }
}

/// The key in the text of a key file, or why there is none.
pub open spec fn key_in(text: Seq<char>) -> Result<KeyView, KeyErrorView> {
    match tokens(text) {
        Err(error) => Err(KeyErrorView::Lex(error)),
        Ok(t) => {
            if !is_key(t) || !crate::name::is_fqdn(t[1]) {
                Err(KeyErrorView::Invalid)
            } else {
                match base64_bytes(t[7]) {
                    Some(secret) => Ok(KeyView { name: crate::name::absolute_text(t[1]), secret }),
                    None => Err(KeyErrorView::Secret(base64_refusal(t[7]))),
                }
            }
        },
    }
}

/// No digit of base64 is the padding character, and different values have
/// different digits.
proof fn lemma_base64_digit(a: int, b: int)
    requires
        0 <= a < 64,
        0 <= b < 64,
    ensures
        base64_digit(a) != '=',
        base64_digit(a) == base64_digit(b) ==> a == b,
{
}

/// The digits of three bytes are no padding.
proof fn lemma_base64_quad(a: u8, b: u8, c: u8)
    ensures
        forall|i: int| 0 <= i < 4 ==> #[trigger] base64_quad(a, b, c)[i] != '=',
{
    let n = 65536 * a + 256 * b + c;
    lemma_base64_digit(n / 262144, 0);
    lemma_base64_digit((n / 4096) % 64, 0);
    lemma_base64_digit((n / 64) % 64, 0);
    lemma_base64_digit(n % 64, 0);
}

/// Three bytes can be told from their digits, and the first of them, or the
/// first two, from fewer where the others are zero.
proof fn lemma_base64_quad_injective(a: u8, b: u8, c: u8, d: u8, e: u8, f: u8, digits: int)
    requires
        forall|i: int|
            0 <= i < digits ==> #[trigger] base64_quad(a, b, c)[i] == base64_quad(d, e, f)[i],
        digits == 4 || digits == 3 && c == 0 && f == 0 || digits == 2 && b == 0 && c == 0 && e == 0
            && f == 0,
    ensures
        a == d && b == e && c == f,
{
    let n = 65536 * a + 256 * b + c;
    let m = 65536 * d + 256 * e + f;
    let x = base64_quad(a, b, c);
    let y = base64_quad(d, e, f);
    assert(x[0] == y[0] && x[1] == y[1]);
    assert(n / 262144 == m / 262144) by {
        lemma_base64_digit(n / 262144, m / 262144);
    }
    assert((n / 4096) % 64 == (m / 4096) % 64) by {
        lemma_base64_digit((n / 4096) % 64, (m / 4096) % 64);
    }
    lemma_base64_shift(n, m, 4096);
    if digits >= 3 {
        assert(x[2] == y[2]);
        assert((n / 64) % 64 == (m / 64) % 64) by {
            lemma_base64_digit((n / 64) % 64, (m / 64) % 64);
        }
        lemma_base64_shift(n, m, 64);
    }
    if digits == 4 {
        assert(x[3] == y[3]);
        assert(n % 64 == m % 64) by {
            lemma_base64_digit(n % 64, m % 64);
        }
    }
    assert(n == m);
}

/// One more digit tells numbers apart that agree but for their last digits.
proof fn lemma_base64_shift(n: int, m: int, unit: int)
    requires
        unit == 64 || unit == 4096,
        0 <= n,
        0 <= m,
        n / (64 * unit) == m / (64 * unit),
        (n / unit) % 64 == (m / unit) % 64,
    ensures
        n / unit == m / unit,
{
    if unit == 64 {
        assert((n / 64) / 64 == n / 4096);
        assert((m / 64) / 64 == m / 4096);
    } else {
        assert((n / 4096) / 64 == n / 262144);
        assert((m / 4096) / 64 == m / 262144);
    }
}

/// A base64 text stands for one byte string only.
pub proof fn lemma_base64_injective(a: Seq<u8>, b: Seq<u8>)
    requires
        base64_text(a) == base64_text(b),
    ensures
        a == b,
    decreases a.len(),
{
    let x = base64_text(a);
    let a1 = if a.len() >= 2 { a[1] } else { 0 };
    let a2 = if a.len() >= 3 { a[2] } else { 0 };
    let b1 = if b.len() >= 2 { b[1] } else { 0 };
    let b2 = if b.len() >= 3 { b[2] } else { 0 };
    lemma_base64_quad(a[0], a1, a2);
    lemma_base64_quad(b[0], b1, b2);
    assert(a.len() > 0 <==> x.len() > 0);
    assert(b.len() > 0 <==> x.len() > 0);
    if a.len() == 0 {
        assert(a =~= b);
    } else {
        let digits: int = if a.len() == 1 { 2 } else if a.len() == 2 { 3 } else { 4 };
        assert(a.len() == 1 <==> x[2] == '=');
        assert(b.len() == 1 <==> x[2] == '=');
        assert(a.len() == 1 || a.len() == 2 <==> x[3] == '=');
        assert(b.len() == 1 || b.len() == 2 <==> x[3] == '=');
        assert forall|i: int| 0 <= i < digits implies #[trigger] base64_quad(a[0], a1, a2)[i]
            == base64_quad(b[0], b1, b2)[i] by {
            assert(x[i] == base64_quad(a[0], a1, a2)[i]);
            assert(x[i] == base64_quad(b[0], b1, b2)[i]);
        }
        lemma_base64_quad_injective(a[0], a1, a2, b[0], b1, b2, digits);
        if a.len() >= 3 {
            assert(base64_text(a.skip(3)) =~= x.skip(4));
            assert(base64_text(b.skip(3)) =~= x.skip(4));
            lemma_base64_injective(a.skip(3), b.skip(3));
            assert(a =~= seq![a[0], a[1], a[2]] + a.skip(3));
            assert(b =~= seq![b[0], b[1], b[2]] + b.skip(3));
        } else {
            assert(a =~= b);
        }
    }
}

/// A key for signing updates.
pub struct UpdateKey {
    name: String,
    secret: Vec<u8>,
}

impl View for UpdateKey {
    type V = KeyView;

    closed spec fn view(&self) -> KeyView {
        KeyView { name: self.name@, secret: self.secret@ }
    }
}

impl UpdateKey {
    /// The name of a key is the text of an absolute domain name.
    #[verifier::type_invariant]
    pub open spec fn wf(self) -> bool {
        crate::name::is_absolute(self@.name)
    }

    /// The name of the key, a fully qualified domain name.
    pub fn name(&self) -> (r: &str)
        ensures
            r@ == self@.name,
    {
        self.name.as_str()
    }

    /// The secret of the key.
    pub fn secret(&self) -> (r: &Vec<u8>)
        ensures
            r@ == self@.secret,
    {
        &self.secret
    }

    /// The name of the key as a domain name, or why it is none.
    pub fn signer_name(&self) -> (r: Result<DnsName, String>)
        ensures
            match r {
                Ok(n) => crate::name::name_of(self@.name) == Ok::<Seq<Seq<u8>>, Seq<char>>(n@),
                Err(e) => crate::name::name_of(self@.name) == Err::<Seq<Seq<u8>>, Seq<char>>(e@),
            },
    {
        proof {
            use_type_invariant(self);
        }
        parse_name(self.name.as_str())
    }
}

fn is_key_tokens(t: &Vec<String>) -> (r: bool)
    ensures
        r == is_key(texts(t@)),
{
    proof {
        reveal_strlit("key");
        reveal_strlit("algorithm");
        reveal_strlit("hmac-sha256");
        reveal_strlit("secret");
        assert(crate::text::lower_text("key"@) =~= "key"@);
        assert(crate::text::lower_text("algorithm"@) =~= "algorithm"@);
        assert(crate::text::lower_text("hmac-sha256"@) =~= "hmac-sha256"@);
        assert(crate::text::lower_text("secret"@) =~= "secret"@);
    }
    if t.len() != 11 {
        return false;
    }
    eq_ignore_case(t[0].as_str(), "key") && same_text(t[2].as_str(), "{") && eq_ignore_case(
        t[3].as_str(),
        "algorithm",
    ) && eq_ignore_case(t[4].as_str(), "hmac-sha256") && same_text(t[5].as_str(), ";")
        && eq_ignore_case(t[6].as_str(), "secret") && same_text(t[8].as_str(), ";") && same_text(
        t[9].as_str(),
        "}",
    ) && same_text(t[10].as_str(), ";")
}

/// Reads a key file.
pub fn parse_key(text: &str) -> (r: Result<UpdateKey, KeyFileError>)
    ensures
        match r {
            Ok(key) => key_in(text@) == Ok::<KeyView, KeyErrorView>(key@),
            Err(e) => key_in(text@) == Err::<KeyView, KeyErrorView>(e@),
        },
{
    let found = match lex(text) {
        Ok(found) => found,
        Err(error) => {
            return Err(KeyFileError::Lex(error));
        },
    };
    let ghost t = texts(found@);
    if !is_key_tokens(&found) {
        return Err(KeyFileError::Invalid);
    }
    assert(t[1] == found@[1]@ && t[7] == found@[7]@);
    let name = match absolute_name(found[1].as_str()) {
        Ok(name) => name,
        Err(_) => {
            return Err(KeyFileError::Invalid);
        },
    };
    let secret = match base64_decode(found[7].as_str()) {
        Ok(secret) => secret,
        Err(reason) => {
            return Err(KeyFileError::Secret(reason));
        },
    };
    proof {
        lemma_base64_injective(secret@, base64_bytes(t[7])->Some_0);
    }
    Ok(UpdateKey { name, secret })
}

} // verus!
