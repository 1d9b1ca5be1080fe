//! What holds of key files.

use vstd::prelude::*;

use crate::keyfile::{KeyErrorView, KeyFileError, KeyView, LexError, Stop};

verus! {

/// Different secrets have different base64 texts.
pub proof fn law_base64_is_lossless(a: Seq<u8>, b: Seq<u8>)
    requires
        crate::keyfile::base64_text(a) == crate::keyfile::base64_text(b),
    ensures
        a == b,
{
    crate::keyfile::lemma_base64_injective(a, b);
}

/// White space before a token is skipped.
pub proof fn law_space_is_skipped(c: char, rest: Seq<char>)
    requires
        crate::text::is_ascii_space(c),
    ensures
        crate::keyfile::tokens(seq![c] + rest) == crate::keyfile::tokens(rest),
{
    assert((seq![c] + rest).skip(1) =~= rest);
}

/// A comment that begins with `#` is skipped to the end of its line.
pub proof fn law_hash_comment_is_skipped(body: Seq<char>, rest: Seq<char>)
    requires
        !body.contains('\n'),
    ensures
        crate::keyfile::tokens(seq!['#'] + body + seq!['\n'] + rest) == crate::keyfile::tokens(
            rest,
        ),
{
    let text = seq!['#'] + body + seq!['\n'] + rest;
    let line = body + (seq!['\n'] + rest);
    assert(text.skip(1) =~= line);
    lemma_run_over(body, seq!['\n'] + rest, Stop::Line);
    assert(text.skip(1int + body.len()) =~= seq!['\n'] + rest);
    law_space_is_skipped('\n', rest);
}

/// A comment that begins with `//` is skipped to the end of its line.
pub proof fn law_slash_comment_is_skipped(body: Seq<char>, rest: Seq<char>)
    requires
        !body.contains('\n'),
    ensures
        crate::keyfile::tokens(seq!['/', '/'] + body + seq!['\n'] + rest)
            == crate::keyfile::tokens(rest),
{
    let text = seq!['/', '/'] + body + seq!['\n'] + rest;
    let line = body + (seq!['\n'] + rest);
    assert(crate::keyfile::begins(text, '/', '/'));
    assert(text.skip(2) =~= line);
    lemma_run_over(body, seq!['\n'] + rest, Stop::Line);
    assert(text.skip(2int + body.len()) =~= seq!['\n'] + rest);
    law_space_is_skipped('\n', rest);
}

/// A comment between `/*` and the first `*/` is skipped.
pub proof fn law_block_comment_is_skipped(body: Seq<char>, rest: Seq<char>)
    requires
        forall|i: int|
            0 <= i < body.len() - 1 ==> !(#[trigger] body[i] == '*' && body[i + 1] == '/'),
    ensures
        crate::keyfile::tokens(seq!['/', '*'] + body + seq!['*', '/'] + rest)
            == crate::keyfile::tokens(rest),
{
    let text = seq!['/', '*'] + body + seq!['*', '/'] + rest;
    let tail = body + (seq!['*', '/'] + rest);
    assert(crate::keyfile::begins(text, '/', '*'));
    assert(!crate::keyfile::begins(text, '/', '/'));
    assert(text.skip(2) =~= tail);
    lemma_comment_over(body, rest);
    assert(text.skip(4int + body.len()) =~= rest);
}

/// A quoted string is one token, whatever it holds but quotes and backslashes.
pub proof fn law_quoted_string_is_a_token(body: Seq<char>, rest: Seq<char>)
    requires
        !body.contains('"'),
        !body.contains('\\'),
    ensures
        crate::keyfile::tokens(seq!['"'] + body + seq!['"'] + rest) == crate::keyfile::put_first(
            body,
            crate::keyfile::tokens(rest),
        ),
{
    let text = seq!['"'] + body + seq!['"'] + rest;
    assert(text.skip(1) =~= body + (seq!['"'] + rest));
    lemma_run_over(body, seq!['"'] + rest, Stop::Quote);
    assert(text.subrange(1, 1int + body.len()) =~= body);
    assert(text.skip(2int + body.len()) =~= rest);
}

/// The tokens of a text that quotes them, each with a space behind it.
pub open spec fn quoted(list: Seq<Seq<char>>) -> Seq<char>
    decreases list.len(),
{
    if list.len() == 0 {
        Seq::empty()
    } else {
        seq!['"'] + list[0] + seq!['"'] + (seq![' '] + quoted(list.drop_first()))
    }
}

/// Cutting a text into tokens gives back the tokens that were quoted in it.
pub proof fn law_tokens_are_what_was_quoted(list: Seq<Seq<char>>)
    requires
        forall|i: int|
            0 <= i < list.len() ==> !(#[trigger] list[i]).contains('"') && !list[i].contains('\\'),
    ensures
        crate::keyfile::tokens(quoted(list)) == Ok::<Seq<Seq<char>>, LexError>(list),
    decreases list.len(),
{
    if list.len() == 0 {
        assert(list =~= Seq::empty());
    } else {
        let others = list.drop_first();
        law_tokens_are_what_was_quoted(others);
        law_space_is_skipped(' ', quoted(others));
        law_quoted_string_is_a_token(list[0], seq![' '] + quoted(others));
        assert(seq![list[0]] + others =~= list);
    }
}

/// The text of a conventional key file.
pub open spec fn conventional(name: Seq<char>, secret: Seq<char>) -> Seq<char> {
    "key \""@ + name + "\" {\n    algorithm hmac-sha256;\n    secret \""@ + secret + "\";\n};\n"@
}

/// The key in a conventional key file is the one that was written there: its
/// name in absolute form and its secret.
pub proof fn law_conventional_key_file_is_read(name: Seq<char>, secret: Seq<u8>)
    requires
        crate::name::is_fqdn(name),
    ensures
        crate::keyfile::key_in(conventional(name, crate::keyfile::base64_text(secret))) == Ok::<
            KeyView,
            KeyErrorView,
        >(KeyView { name: crate::name::absolute_text(name), secret }),
{
    let word = crate::keyfile::base64_text(secret);
    assert(!name.contains('"') && !name.contains('\\')) by {
        assert forall|i: int| 0 <= i < name.len() implies name[i] != '"' && name[i] != '\\' by {
            let inner = crate::name::without_dot(name);
            if i < inner.len() {
                assert(crate::name::is_fqdn_char(inner[i]) || inner[i] == '.');
            }
        }
    }
    lemma_base64_plain(secret);
    lemma_conventional_tokens(name, word);
    let found = crate::keyfile::tokens(conventional(name, word))->Ok_0;
    reveal_strlit("key");
    reveal_strlit("algorithm");
    reveal_strlit("hmac-sha256");
    reveal_strlit("secret");
    reveal_strlit("{");
    reveal_strlit(";");
    reveal_strlit("}");
    assert("{"@ =~= seq!['{']);
    assert(";"@ =~= seq![';']);
    assert("}"@ =~= seq!['}']);
    assert(crate::text::lower_text("key"@) =~= "key"@);
    assert(crate::text::lower_text("algorithm"@) =~= "algorithm"@);
    assert(crate::text::lower_text("hmac-sha256"@) =~= "hmac-sha256"@);
    assert(crate::text::lower_text("secret"@) =~= "secret"@);
    assert(crate::keyfile::is_key(found));
    crate::keyfile::lemma_base64_injective(secret, crate::keyfile::base64_bytes(word)->Some_0);
}

/// A conventional key file from behind the secret on.
spec fn closing() -> Seq<char> {
    seq![';', '\n', '}', ';', '\n']
}

/// A conventional key file from the word `secret` on.
spec fn secret_part(secret: Seq<char>) -> Seq<char> {
    "secret"@ + (seq![' '] + (seq!['"'] + secret + seq!['"'] + closing()))
}

/// A conventional key file from the word `algorithm` on.
spec fn algorithm_part(secret: Seq<char>) -> Seq<char> {
    "algorithm"@ + (seq![' '] + ("hmac-sha256"@ + (seq![';'] + (seq!['\n', ' ', ' ', ' ', ' ']
        + secret_part(secret)))))
}

/// A conventional key file.
spec fn key_part(name: Seq<char>, secret: Seq<char>) -> Seq<char> {
    "key"@ + (seq![' '] + (seq!['"'] + name + seq!['"'] + (seq![' '] + (seq!['{'] + (seq![
        '\n',
        ' ',
        ' ',
        ' ',
        ' ',
    ] + algorithm_part(secret))))))
}

proof fn lemma_conventional_parts(name: Seq<char>, secret: Seq<char>)
    ensures
        conventional(name, secret) == key_part(name, secret),
{
    reveal_strlit("key \"");
    reveal_strlit("\" {\n    algorithm hmac-sha256;\n    secret \"");
    reveal_strlit("\";\n};\n");
    reveal_strlit("key");
    reveal_strlit("algorithm");
    reveal_strlit("hmac-sha256");
    reveal_strlit("secret");
    let middle = "\" {\n    algorithm hmac-sha256;\n    secret \""@;
    let indent = seq!['\n', ' ', ' ', ' ', ' '];
    assert("key \""@ =~= "key"@ + seq![' ', '"']);
    assert("\";\n};\n"@ =~= seq!['"'] + closing());
    assert(middle =~= seq!['"', ' ', '{'] + indent + "algorithm"@ + seq![' '] + "hmac-sha256"@
        + seq![';'] + indent + "secret"@ + seq![' ', '"']);
    assert(conventional(name, secret) =~= key_part(name, secret));
}

proof fn lemma_closing_tokens()
    ensures
        crate::keyfile::tokens(closing()) == Ok::<Seq<Seq<char>>, LexError>(
            seq![seq![';'], seq!['}'], seq![';']],
        ),
{
    let end = Seq::<char>::empty();
    let last = seq![';'] + (seq!['\n'] + end);
    law_space_is_skipped('\n', end);
    lemma_mark(';', seq!['\n'] + end);
    lemma_mark('}', last);
    law_space_is_skipped('\n', seq!['}'] + last);
    lemma_mark(';', seq!['\n'] + (seq!['}'] + last));
    assert(closing() =~= seq![';'] + (seq!['\n'] + (seq!['}'] + last)));
    assert(crate::keyfile::tokens(closing())->Ok_0 =~= seq![seq![';'], seq!['}'], seq![';']]);
}

proof fn lemma_secret_tokens(secret: Seq<char>)
    requires
        !secret.contains('"'),
        !secret.contains('\\'),
    ensures
        crate::keyfile::tokens(secret_part(secret)) == Ok::<Seq<Seq<char>>, LexError>(
            seq!["secret"@, secret, seq![';'], seq!['}'], seq![';']],
        ),
{
    let string = seq!['"'] + secret + seq!['"'] + closing();
    reveal_strlit("secret");
    lemma_closing_tokens();
    law_quoted_string_is_a_token(secret, closing());
    law_space_is_skipped(' ', string);
    lemma_word("secret"@, seq![' '] + string);
    assert(crate::keyfile::tokens(secret_part(secret))->Ok_0 =~= seq![
        "secret"@,
        secret,
        seq![';'],
        seq!['}'],
        seq![';'],
    ]);
}

proof fn lemma_algorithm_tokens(secret: Seq<char>)
    requires
        !secret.contains('"'),
        !secret.contains('\\'),
    ensures
        crate::keyfile::tokens(algorithm_part(secret)) == Ok::<Seq<Seq<char>>, LexError>(
            seq!["algorithm"@, "hmac-sha256"@, seq![';']] + seq![
                "secret"@,
                secret,
                seq![';'],
                seq!['}'],
                seq![';'],
            ],
        ),
{
    reveal_strlit("algorithm");
    reveal_strlit("hmac-sha256");
    let others = seq!["secret"@, secret, seq![';'], seq!['}'], seq![';']];
    let below = seq!['\n', ' ', ' ', ' ', ' '] + secret_part(secret);
    lemma_secret_tokens(secret);
    lemma_indent(secret_part(secret));
    lemma_mark(';', below);
    let value = "hmac-sha256"@ + (seq![';'] + below);
    lemma_word("hmac-sha256"@, seq![';'] + below);
    law_space_is_skipped(' ', value);
    lemma_word("algorithm"@, seq![' '] + value);
    assert(seq!["algorithm"@] + (seq!["hmac-sha256"@] + (seq![seq![';']] + others)) =~= seq![
        "algorithm"@,
        "hmac-sha256"@,
        seq![';'],
    ] + others);
}

/// The tokens of a conventional key file.
proof fn lemma_conventional_tokens(name: Seq<char>, secret: Seq<char>)
    requires
        !name.contains('"'),
        !name.contains('\\'),
        !secret.contains('"'),
        !secret.contains('\\'),
    ensures
        crate::keyfile::tokens(conventional(name, secret)) == Ok::<Seq<Seq<char>>, LexError>(
            seq!["key"@, name, seq!['{']] + (seq!["algorithm"@, "hmac-sha256"@, seq![';']] + seq![
                "secret"@,
                secret,
                seq![';'],
                seq!['}'],
                seq![';'],
            ]),
        ),
{
    reveal_strlit("key");
    let others = seq!["algorithm"@, "hmac-sha256"@, seq![';']] + seq![
        "secret"@,
        secret,
        seq![';'],
        seq!['}'],
        seq![';'],
    ];
    let below = seq!['\n', ' ', ' ', ' ', ' '] + algorithm_part(secret);
    lemma_algorithm_tokens(secret);
    lemma_indent(algorithm_part(secret));
    lemma_mark('{', below);
    law_space_is_skipped(' ', seq!['{'] + below);
    let string = seq!['"'] + name + seq!['"'] + (seq![' '] + (seq!['{'] + below));
    law_quoted_string_is_a_token(name, seq![' '] + (seq!['{'] + below));
    law_space_is_skipped(' ', string);
    lemma_word("key"@, seq![' '] + string);
    lemma_conventional_parts(name, secret);
    assert(seq!["key"@] + (seq![name] + (seq![seq!['{']] + others)) =~= seq![
        "key"@,
        name,
        seq!['{'],
    ] + others);
}

/// A line break and four spaces are skipped.
proof fn lemma_indent(rest: Seq<char>)
    ensures
        crate::keyfile::tokens(seq!['\n', ' ', ' ', ' ', ' '] + rest) == crate::keyfile::tokens(
            rest,
        ),
{
    let r1 = seq![' '] + rest;
    let r2 = seq![' '] + r1;
    let r3 = seq![' '] + r2;
    let r4 = seq![' '] + r3;
    law_space_is_skipped(' ', rest);
    law_space_is_skipped(' ', r1);
    law_space_is_skipped(' ', r2);
    law_space_is_skipped(' ', r3);
    law_space_is_skipped('\n', r4);
    assert(seq!['\n', ' ', ' ', ' ', ' '] + rest =~= seq!['\n'] + r4);
}

/// A brace or a semicolon is a token.
proof fn lemma_mark(c: char, rest: Seq<char>)
    requires
        crate::keyfile::is_punctuation(c),
    ensures
        crate::keyfile::tokens(seq![c] + rest) == crate::keyfile::put_first(
            seq![c],
            crate::keyfile::tokens(rest),
        ),
{
    let text = seq![c] + rest;
    assert(text.take(1) =~= seq![c]);
    assert(text.skip(1) =~= rest);
}

/// A bare word is a token, up to the character that stops it.
proof fn lemma_word(word: Seq<char>, rest: Seq<char>)
    requires
        word.len() > 0,
        word[0] != '#',
        word[0] != '/',
        forall|i: int|
            0 <= i < word.len() ==> !crate::keyfile::stops(Stop::Word, #[trigger] word[i]),
        rest.len() > 0 ==> crate::keyfile::stops(Stop::Word, rest[0]),
    ensures
        crate::keyfile::tokens(word + rest) == crate::keyfile::put_first(
            word,
            crate::keyfile::tokens(rest),
        ),
{
    let text = word + rest;
    assert(!crate::keyfile::stops(Stop::Word, word[0]));
    lemma_run_over(word, rest, Stop::Word);
    assert(text.take(word.len() as int) =~= word);
    assert(text.skip(word.len() as int) =~= rest);
}

/// A part of a text lasts up to the first character that stops it.
proof fn lemma_run_over(body: Seq<char>, rest: Seq<char>, stop: Stop)
    requires
        forall|i: int| 0 <= i < body.len() ==> !crate::keyfile::stops(stop, #[trigger] body[i]),
        rest.len() > 0 ==> crate::keyfile::stops(stop, rest[0]),
    ensures
        crate::keyfile::run(body + rest, stop) == body.len(),
    decreases body.len(),
{
    if body.len() == 0 {
        assert(body + rest =~= rest);
    } else {
        assert(!crate::keyfile::stops(stop, body[0]));
        assert((body + rest).drop_first() =~= body.drop_first() + rest);
        lemma_run_over(body.drop_first(), rest, stop);
    }
}

/// A comment lasts up to the first `*/`.
proof fn lemma_comment_over(body: Seq<char>, rest: Seq<char>)
    requires
        forall|i: int|
            0 <= i < body.len() - 1 ==> !(#[trigger] body[i] == '*' && body[i + 1] == '/'),
    ensures
        crate::keyfile::comment_len(body + (seq!['*', '/'] + rest)) == Some(body.len() + 2int),
    decreases body.len(),
{
    let text = body + (seq!['*', '/'] + rest);
    if body.len() > 0 {
        assert(text[0] == body[0]);
        assert(text.drop_first() =~= body.drop_first() + (seq!['*', '/'] + rest));
        lemma_comment_over(body.drop_first(), rest);
    }
}

/// Base64 has neither quotes nor backslashes.
proof fn lemma_base64_plain(bytes: Seq<u8>)
    ensures
        !crate::keyfile::base64_text(bytes).contains('"'),
        !crate::keyfile::base64_text(bytes).contains('\\'),
    decreases bytes.len(),
{
    let text = crate::keyfile::base64_text(bytes);
    assert forall|v: int| 0 <= v < 64 implies #[trigger] crate::keyfile::base64_digit(v) != '"'
        && crate::keyfile::base64_digit(v) != '\\' by {}
    if bytes.len() >= 3 {
        let others = crate::keyfile::base64_text(bytes.skip(3));
        lemma_base64_plain(bytes.skip(3));
        assert forall|i: int| 0 <= i < text.len() implies text[i] != '"' && text[i] != '\\' by {
            if i >= 4 {
                assert(text[i] == others[i - 4]);
                assert(others.contains(others[i - 4]));
            }
        }
    }
}

/// White space in a key file: a space, a tab, a line feed, a form feed or a
/// carriage return.
pub open spec fn is_gap(c: char) -> bool {
    c == ' ' || c == '\t' || c == '\n' || c == '\x0C' || c == '\r'
}

/// A character that ends a bare word: white space, a brace, a semicolon or a
/// quote.
pub open spec fn ends_word(c: char) -> bool {
    is_gap(c) || c == '{' || c == '}' || c == ';' || c == '"'
}

/// Whether the tokens of a text are this token and then those of another text,
/// or the failure to cut that text.
pub open spec fn is_token_before(text: Seq<char>, token: Seq<char>, rest: Seq<char>) -> bool {
    match crate::keyfile::tokens(rest) {
        Ok(others) => crate::keyfile::tokens(text) == Ok::<Seq<Seq<char>>, LexError>(
            seq![token] + others,
        ),
        Err(error) => crate::keyfile::tokens(text) == Err::<Seq<Seq<char>>, LexError>(error),
    }
}

/// There are no tokens in an empty text, nor in white space before the others.
pub proof fn law_gaps_hold_no_tokens(c: char, rest: Seq<char>)
    requires
        is_gap(c),
    ensures
        crate::keyfile::tokens(Seq::empty()) == Ok::<Seq<Seq<char>>, LexError>(Seq::empty()),
        crate::keyfile::tokens(seq![c] + rest) == crate::keyfile::tokens(rest),
{
    law_space_is_skipped(c, rest);
}

/// A run of characters that end no word, which does not begin like a comment and
/// has a character behind it that ends a word, or the end of the text, is one
/// token, whatever its characters are.
pub proof fn law_bare_word_is_one_token(word: Seq<char>, rest: Seq<char>)
    requires
        word.len() > 0,
        forall|i: int| 0 <= i < word.len() ==> !ends_word(#[trigger] word[i]),
        word[0] != '#',
        !(word.len() > 1 && word[0] == '/' && (word[1] == '/' || word[1] == '*')),
        rest.len() > 0 ==> ends_word(rest[0]),
    ensures
        is_token_before(word + rest, word, rest),
{
    let text = word + rest;
    assert(!ends_word(word[0]));
    assert forall|i: int| 0 <= i < word.len() implies !crate::keyfile::stops(
        Stop::Word,
        #[trigger] word[i],
    ) by {
        assert(!ends_word(word[i]));
    }
    lemma_run_over(word, rest, Stop::Word);
    assert(text.take(word.len() as int) =~= word);
    assert(text.skip(word.len() as int) =~= rest);
    assert(text.len() > 1 ==> text[1] == (if word.len() > 1 {
        word[1]
    } else {
        rest[0]
    }));
}

/// A brace or a semicolon is a token of its own.
pub proof fn law_mark_is_a_token(c: char, rest: Seq<char>)
    requires
        c == '{' || c == '}' || c == ';',
    ensures
        is_token_before(seq![c] + rest, seq![c], rest),
{
    lemma_mark(c, rest);
}

/// A string between quotes, without quotes and backslashes in it, is a token of
/// its own, without the quotes.
pub proof fn law_string_is_one_token(body: Seq<char>, rest: Seq<char>)
    requires
        forall|i: int| 0 <= i < body.len() ==> #[trigger] body[i] != '"' && body[i] != '\\',
    ensures
        is_token_before(seq!['"'] + body + seq!['"'] + rest, body, rest),
{
    law_quoted_string_is_a_token(body, rest);
}

/// A string that has a backslash before its closing quote, or has no closing
/// quote, is refused.
pub proof fn law_bad_strings_are_refused(body: Seq<char>, rest: Seq<char>)
    requires
        forall|i: int| 0 <= i < body.len() ==> #[trigger] body[i] != '"' && body[i] != '\\',
    ensures
        crate::keyfile::tokens(seq!['"'] + body + seq!['\\'] + rest) == Err::<
            Seq<Seq<char>>,
            LexError,
        >(LexError::EscapedString),
        crate::keyfile::tokens(seq!['"'] + body) == Err::<Seq<Seq<char>>, LexError>(
            LexError::UnterminatedString,
        ),
{
    let text = seq!['"'] + body + seq!['\\'] + rest;
    assert(text.skip(1) =~= body + (seq!['\\'] + rest));
    lemma_run_over(body, seq!['\\'] + rest, Stop::Quote);
    let short = seq!['"'] + body;
    assert(short.skip(1) =~= body + Seq::<char>::empty());
    lemma_run_over(body, Seq::empty(), Stop::Quote);
}

/// A comment that begins with `#` or `//` is skipped to the end of its line or
/// of the text.
pub proof fn law_line_comments_hold_no_tokens(body: Seq<char>, rest: Seq<char>)
    requires
        forall|i: int| 0 <= i < body.len() ==> #[trigger] body[i] != '\n',
    ensures
        crate::keyfile::tokens(seq!['#'] + body + seq!['\n'] + rest) == crate::keyfile::tokens(
            rest,
        ),
        crate::keyfile::tokens(seq!['/', '/'] + body + seq!['\n'] + rest)
            == crate::keyfile::tokens(rest),
        crate::keyfile::tokens(seq!['#'] + body) == Ok::<Seq<Seq<char>>, LexError>(Seq::empty()),
        crate::keyfile::tokens(seq!['/', '/'] + body) == Ok::<Seq<Seq<char>>, LexError>(
            Seq::empty(),
        ),
{
    law_hash_comment_is_skipped(body, rest);
    law_slash_comment_is_skipped(body, rest);
    let nothing = Seq::<char>::empty();
    assert(crate::keyfile::tokens(nothing) == Ok::<Seq<Seq<char>>, LexError>(Seq::empty()));
    let hash = seq!['#'] + body;
    let slash = seq!['/', '/'] + body;
    lemma_run_over(body, nothing, Stop::Line);
    assert(hash.skip(1) =~= body + nothing);
    assert(hash.skip(1int + body.len()) =~= nothing);
    assert(crate::keyfile::begins(slash, '/', '/'));
    assert(slash.skip(2) =~= body + nothing);
    assert(slash.skip(2int + body.len()) =~= nothing);
}

/// A comment between `/*` and the first `*/` is skipped, and one without `*/` is
/// refused.
pub proof fn law_block_comments_hold_no_tokens(body: Seq<char>, rest: Seq<char>)
    requires
        forall|i: int|
            0 <= i < body.len() - 1 ==> !(#[trigger] body[i] == '*' && body[i + 1] == '/'),
    ensures
        crate::keyfile::tokens(seq!['/', '*'] + body + seq!['*', '/'] + rest)
            == crate::keyfile::tokens(rest),
        crate::keyfile::tokens(seq!['/', '*'] + body) == Err::<Seq<Seq<char>>, LexError>(
            LexError::UnterminatedComment,
        ),
{
    law_block_comment_is_skipped(body, rest);
    let text = seq!['/', '*'] + body;
    assert(crate::keyfile::begins(text, '/', '*'));
    assert(!crate::keyfile::begins(text, '/', '/'));
    assert(text.skip(2) =~= body);
    lemma_no_comment_end(body);
}

proof fn lemma_no_comment_end(body: Seq<char>)
    requires
        forall|i: int|
            0 <= i < body.len() - 1 ==> !(#[trigger] body[i] == '*' && body[i + 1] == '/'),
    ensures
        crate::keyfile::comment_len(body) is None,
    decreases body.len(),
{
    if body.len() >= 2 {
        assert(!(body[0] == '*' && body[1] == '/'));
        lemma_no_comment_end(body.drop_first());
    }
}

/// Eleven tokens that say, in any case, `key NAME { algorithm hmac-sha256;
/// secret SECRET; };`.
pub open spec fn is_key_clause(t: Seq<Seq<char>>) -> bool {
    &&& t.len() == 11
    &&& crate::text_laws::alike_text(t[0], "key"@)
    &&& t[2] == seq!['{']
    &&& crate::text_laws::alike_text(t[3], "algorithm"@)
    &&& crate::text_laws::alike_text(t[4], "hmac-sha256"@)
    &&& t[5] == seq![';']
    &&& crate::text_laws::alike_text(t[6], "secret"@)
    &&& t[8] == seq![';']
    &&& t[9] == seq!['}']
    &&& t[10] == seq![';']
}

/// The key in a text is the one that its tokens tell of: the absolute form of
/// the name, and the bytes whose base64 is the secret. Tokens that tell of no
/// key, a name that is no domain name, and a secret that is not base64 are
/// refused, in this order.
pub proof fn law_key_is_what_the_tokens_say(text: Seq<char>, t: Seq<Seq<char>>, secret: Seq<u8>)
    requires
        crate::keyfile::tokens(text) == Ok::<Seq<Seq<char>>, LexError>(t),
    ensures
        match crate::keyfile::key_in(text) {
            Ok(key) => {
                &&& is_key_clause(t)
                &&& crate::name::is_fqdn(t[1])
                &&& crate::text_laws::is_absolute_form(t[1], key.name)
                &&& crate::keyfile::base64_text(key.secret) == t[7]
                &&& crate::keyfile::base64_text(secret) == t[7] ==> key.secret == secret
            },
            Err(KeyErrorView::Invalid) => !is_key_clause(t) || !crate::name::is_fqdn(t[1]),
            Err(KeyErrorView::Secret(reason)) => {
                &&& is_key_clause(t)
                &&& crate::name::is_fqdn(t[1])
                &&& crate::keyfile::base64_text(secret) != t[7]
                &&& reason == crate::keyfile::base64_refusal(t[7])
            },
            Err(KeyErrorView::Lex(_)) => false,
        },
{
    lemma_key_clause(t);
    if crate::keyfile::key_in(text) is Ok {
        let key = crate::keyfile::key_in(text)->Ok_0;
        crate::text_laws::law_absolute_form_keeps_characters(t[1], key.name);
        if crate::keyfile::base64_text(secret) == t[7] {
            crate::keyfile::lemma_base64_injective(secret, key.secret);
        }
    }
}

/// A text that cannot be cut into tokens holds no key.
pub proof fn law_uncut_text_holds_no_key(text: Seq<char>, error: LexError)
    requires
        crate::keyfile::tokens(text) == Err::<Seq<Seq<char>>, LexError>(error),
    ensures
        crate::keyfile::key_in(text) == Err::<KeyView, KeyErrorView>(KeyErrorView::Lex(error)),
{
}

proof fn lemma_key_clause(t: Seq<Seq<char>>)
    ensures
        crate::keyfile::is_key(t) <==> is_key_clause(t),
{
    reveal_strlit("key");
    reveal_strlit("algorithm");
    reveal_strlit("hmac-sha256");
    reveal_strlit("secret");
    reveal_strlit("{");
    reveal_strlit(";");
    reveal_strlit("}");
    assert("{"@ =~= seq!['{']);
    assert(";"@ =~= seq![';']);
    assert("}"@ =~= seq!['}']);
    assert(crate::text::lower_text("key"@) =~= "key"@);
    assert(crate::text::lower_text("algorithm"@) =~= "algorithm"@);
    assert(crate::text::lower_text("hmac-sha256"@) =~= "hmac-sha256"@);
    assert(crate::text::lower_text("secret"@) =~= "secret"@);
    if t.len() == 11 {
        crate::text_laws::law_texts_compare_without_case(t[0], "key"@);
        crate::text_laws::law_texts_compare_without_case(t[3], "algorithm"@);
        crate::text_laws::law_texts_compare_without_case(t[4], "hmac-sha256"@);
        crate::text_laws::law_texts_compare_without_case(t[6], "secret"@);
    }
}

/// The text of a key file with neither the name nor the secret in quotes.
pub open spec fn unquoted(name: Seq<char>, secret: Seq<char>) -> Seq<char> {
    "key "@ + name + " { algorithm hmac-sha256; secret "@ + secret + "; };"@
}

/// A key file without quotes holds the same key as one with them, where the name
/// and the secret are not empty and neither begins like a comment.
pub proof fn law_unquoted_key_file_is_read(name: Seq<char>, secret: Seq<u8>)
    requires
        crate::name::is_fqdn(name),
        name.len() > 0,
        name[0] != '#',
        secret.len() > 0,
        !(crate::keyfile::base64_text(secret)[0] == '/' && crate::keyfile::base64_text(secret)[1]
            == '/'),
    ensures
        crate::keyfile::key_in(unquoted(name, crate::keyfile::base64_text(secret)))
            == crate::keyfile::key_in(conventional(name, crate::keyfile::base64_text(secret))),
        crate::keyfile::key_in(unquoted(name, crate::keyfile::base64_text(secret))) matches Ok(key)
            && key.secret == secret && crate::text_laws::is_absolute_form(name, key.name),
{
    let word = crate::keyfile::base64_text(secret);
    lemma_base64_word(secret);
    lemma_base64_plain(secret);
    assert forall|i: int| 0 <= i < name.len() implies !ends_word(#[trigger] name[i]) && name[i]
        != '/' by {
        let inner = crate::name::without_dot(name);
        if i < inner.len() {
            assert(crate::name::is_fqdn_char(inner[i]) || inner[i] == '.');
        }
    }
    lemma_unquoted_tokens(name, word);
    assert(!name.contains('"') && !name.contains('\\')) by {
        assert forall|i: int| 0 <= i < name.len() implies name[i] != '"' && name[i] != '\\' by {
            let inner = crate::name::without_dot(name);
            if i < inner.len() {
                assert(crate::name::is_fqdn_char(inner[i]) || inner[i] == '.');
            }
        }
    }
    lemma_conventional_tokens(name, word);
    law_conventional_key_file_is_read(name, secret);
    crate::text_laws::law_absolute_form_keeps_characters(name, name);
}

/// No character of base64 ends a word or is a number sign or an asterisk, and a
/// secret that is not empty takes at least four characters.
proof fn lemma_base64_word(bytes: Seq<u8>)
    ensures
        forall|i: int|
            0 <= i < crate::keyfile::base64_text(bytes).len() ==> {
                &&& !ends_word(#[trigger] crate::keyfile::base64_text(bytes)[i])
                &&& crate::keyfile::base64_text(bytes)[i] != '#'
                &&& crate::keyfile::base64_text(bytes)[i] != '*'
            },
        bytes.len() > 0 ==> crate::keyfile::base64_text(bytes).len() >= 4,
    decreases bytes.len(),
{
    let text = crate::keyfile::base64_text(bytes);
    assert forall|v: int| 0 <= v < 64 implies !ends_word(
        #[trigger] crate::keyfile::base64_digit(v),
    ) && crate::keyfile::base64_digit(v) != '#' && crate::keyfile::base64_digit(v) != '*' by {}
    if bytes.len() >= 3 {
        let others = crate::keyfile::base64_text(bytes.skip(3));
        lemma_base64_word(bytes.skip(3));
        assert forall|i: int| 0 <= i < text.len() implies {
            &&& !ends_word(#[trigger] text[i])
            &&& text[i] != '#'
            &&& text[i] != '*'
        } by {
            if i >= 4 {
                assert(text[i] == others[i - 4]);
            }
        }
    }
}

/// An unquoted key file from the word `secret` on.
spec fn bare_secret_part(secret: Seq<char>) -> Seq<char> {
    "secret"@ + (seq![' '] + (secret + (seq![';'] + (seq![' '] + (seq!['}'] + (seq![';']
        + Seq::<char>::empty()))))))
}

/// An unquoted key file from the opening brace on.
spec fn bare_clause(secret: Seq<char>) -> Seq<char> {
    seq!['{'] + (seq![' '] + ("algorithm"@ + (seq![' '] + ("hmac-sha256"@ + (seq![';'] + (seq![' ']
        + bare_secret_part(secret)))))))
}

proof fn lemma_bare_secret_tokens(secret: Seq<char>)
    requires
        secret.len() > 0,
        forall|i: int| 0 <= i < secret.len() ==> !ends_word(#[trigger] secret[i]),
        secret[0] != '#',
        !(secret.len() > 1 && secret[0] == '/' && (secret[1] == '/' || secret[1] == '*')),
    ensures
        crate::keyfile::tokens(bare_secret_part(secret)) == Ok::<Seq<Seq<char>>, LexError>(
            seq!["secret"@, secret, seq![';'], seq!['}'], seq![';']],
        ),
{
    reveal_strlit("secret");
    let end = Seq::<char>::empty();
    let last = seq![';'] + end;
    let brace = seq!['}'] + last;
    let tail = seq![';'] + (seq![' '] + brace);
    law_gaps_hold_no_tokens(' ', brace);
    law_mark_is_a_token(';', end);
    law_mark_is_a_token('}', last);
    law_mark_is_a_token(';', seq![' '] + brace);
    law_bare_word_is_one_token(secret, tail);
    law_gaps_hold_no_tokens(' ', secret + tail);
    law_bare_word_is_one_token("secret"@, seq![' '] + (secret + tail));
    assert(crate::keyfile::tokens(bare_secret_part(secret))->Ok_0 =~= seq![
        "secret"@,
        secret,
        seq![';'],
        seq!['}'],
        seq![';'],
    ]);
}

proof fn lemma_unquoted_tokens(name: Seq<char>, secret: Seq<char>)
    requires
        name.len() > 0,
        name[0] != '#',
        forall|i: int| 0 <= i < name.len() ==> !ends_word(#[trigger] name[i]) && name[i] != '/',
        secret.len() > 0,
        forall|i: int| 0 <= i < secret.len() ==> !ends_word(#[trigger] secret[i]),
        secret[0] != '#',
        !(secret.len() > 1 && secret[0] == '/' && (secret[1] == '/' || secret[1] == '*')),
    ensures
        crate::keyfile::tokens(unquoted(name, secret)) == Ok::<Seq<Seq<char>>, LexError>(
            seq!["key"@, name, seq!['{']] + (seq!["algorithm"@, "hmac-sha256"@, seq![';']] + seq![
                "secret"@,
                secret,
                seq![';'],
                seq!['}'],
                seq![';'],
            ]),
        ),
{
    reveal_strlit("key");
    reveal_strlit("algorithm");
    reveal_strlit("hmac-sha256");
    let part = bare_secret_part(secret);
    lemma_bare_secret_tokens(secret);
    let found = seq!["secret"@, secret, seq![';'], seq!['}'], seq![';']];
    law_gaps_hold_no_tokens(' ', part);
    let below = seq![' '] + part;
    law_mark_is_a_token(';', below);
    let value = "hmac-sha256"@ + (seq![';'] + below);
    law_bare_word_is_one_token("hmac-sha256"@, seq![';'] + below);
    law_gaps_hold_no_tokens(' ', value);
    let named = "algorithm"@ + (seq![' '] + value);
    law_bare_word_is_one_token("algorithm"@, seq![' '] + value);
    law_gaps_hold_no_tokens(' ', named);
    law_mark_is_a_token('{', seq![' '] + named);
    let clause = bare_clause(secret);
    law_gaps_hold_no_tokens(' ', clause);
    assert(name[0] != '/');
    law_bare_word_is_one_token(name, seq![' '] + clause);
    law_gaps_hold_no_tokens(' ', name + (seq![' '] + clause));
    let text = "key"@ + (seq![' '] + (name + (seq![' '] + clause)));
    law_bare_word_is_one_token("key"@, seq![' '] + (name + (seq![' '] + clause)));
    assert(seq!["key"@] + (seq![name] + (seq![seq!['{']] + (seq!["algorithm"@] + (seq![
        "hmac-sha256"@,
    ] + (seq![seq![';']] + found))))) =~= seq!["key"@, name, seq!['{']] + (seq![
        "algorithm"@,
        "hmac-sha256"@,
        seq![';'],
    ] + found));
    lemma_unquoted_parts(name, secret);
}

proof fn lemma_unquoted_parts(name: Seq<char>, secret: Seq<char>)
    ensures
        unquoted(name, secret) == "key"@ + (seq![' '] + (name + (seq![' '] + bare_clause(secret)))),
{
    reveal_strlit("key ");
    reveal_strlit("key");
    reveal_strlit(" { algorithm hmac-sha256; secret ");
    reveal_strlit("; };");
    reveal_strlit("algorithm");
    reveal_strlit("hmac-sha256");
    reveal_strlit("secret");
    assert("key "@ =~= "key"@ + seq![' ']);
    assert("; };"@ =~= seq![';', ' ', '}', ';']);
    assert(" { algorithm hmac-sha256; secret "@ =~= seq![' ', '{', ' '] + "algorithm"@ + seq![' ']
        + "hmac-sha256"@ + seq![';', ' '] + "secret"@ + seq![' ']);
    assert(unquoted(name, secret) =~= "key"@ + (seq![' '] + (name + (seq![' '] + bare_clause(
        secret,
    )))));
}

/// Refusals of key files are told in these words.
pub proof fn law_refusals_are_worded(reason: Seq<char>)
    ensures
        crate::keyfile::key_error_text(KeyErrorView::Lex(LexError::UnterminatedComment))
            == "unterminated comment in TSIG key file"@,
        crate::keyfile::key_error_text(KeyErrorView::Lex(LexError::EscapedString))
            == "escaped strings are not valid in a TSIG key file"@,
        crate::keyfile::key_error_text(KeyErrorView::Lex(LexError::UnterminatedString))
            == "unterminated string in TSIG key file"@,
        crate::keyfile::key_error_text(KeyErrorView::Invalid) == "invalid TSIG key file"@,
        crate::keyfile::key_error_text(KeyErrorView::Secret(reason)) == "invalid TSIG secret: "@
            + reason,
{
}

/// Lists of strings, and refusals, are seen as they are.
pub proof fn law_key_values_are_seen_as_they_are(
    list: Seq<String>,
    strings: Seq<Vec<u8>>,
    error: LexError,
    reason: String,
)
    ensures
        crate::keyfile::texts(list).len() == list.len(),
        forall|i: int|
            0 <= i < list.len() ==> #[trigger] crate::keyfile::texts(list)[i] == list[i]@,
        crate::name::byte_strings(strings).len() == strings.len(),
        forall|i: int|
            0 <= i < strings.len() ==> #[trigger] crate::name::byte_strings(strings)[i]
                == strings[i]@,
        KeyFileError::Lex(error)@ == KeyErrorView::Lex(error),
        KeyFileError::Invalid@ == KeyErrorView::Invalid,
        KeyFileError::Secret(reason)@ == KeyErrorView::Secret(reason@),
{
}

} // verus!
