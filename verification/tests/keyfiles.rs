use menhera_ddns::keyfile::{lex, parse_key, KeyFileError, LexError, UpdateKey};

fn key(text: &str) -> UpdateKey {
    match parse_key(text) {
        Ok(key) => key,
        Err(error) => panic!("{}", error.message()),
    }
}

fn refusal(text: &str) -> KeyFileError {
    match parse_key(text) {
        Ok(_) => panic!("the key file was accepted"),
        Err(error) => error,
    }
}

fn file(name: &str, secret: &str) -> String {
    format!(
        "key \"{}\" {{\n    algorithm hmac-sha256;\n    secret \"{}\";\n}};\n",
        name, secret
    )
}

#[test]
fn conventional_key_file_is_read() {
    let key = key(&file("menhera-ddns-key.", "AAECAwQFBgcICQoLDA0ODxAREhMUFRYXGBkaGxwdHh8="));
    assert_eq!(key.name(), "menhera-ddns-key.");
    assert_eq!(key.secret(), &(0..32).collect::<Vec<u8>>());
    let name = key.signer_name().unwrap();
    assert_eq!(name.labels(), &vec![b"menhera-ddns-key".to_vec()]);
}

#[test]
fn key_names_become_absolute() {
    assert_eq!(key(&file("Keys.Example", "")).name(), "keys.example.");
    assert_eq!(key(&file(".", "")).name(), ".");
    assert_eq!(key(&file("", "")).name(), ".");
    assert!(key(&file(".", "")).signer_name().unwrap().labels().is_empty());
}

#[test]
fn key_names_can_be_too_long_for_dns() {
    let key = key(&file(&"a".repeat(64), "Zg=="));
    assert!(key.signer_name().is_err());
}

#[test]
fn key_words_ignore_case() {
    let key = key("KEY k. { Algorithm HMAC-SHA256; SECRET Zm9v; };");
    assert_eq!(key.name(), "k.");
    assert_eq!(key.secret(), b"foo");
}

#[test]
fn key_file_comments_are_skipped() {
    let text = "# one\n// two {\nkey /* three \" } */ k. {\n  algorithm hmac-sha256; # four\n  \
                secret \"Zm9vYg==\"; // five\n} /* six **/ ; # seven";
    assert_eq!(key(text).secret(), b"foob");
}

#[test]
fn secrets_are_canonical_base64() {
    for (text, bytes) in [
        ("", ""),
        ("Zg==", "f"),
        ("Zm8=", "fo"),
        ("Zm9v", "foo"),
        ("Zm9vYmE=", "fooba"),
        ("Zm9vYmFy", "foobar"),
    ] {
        assert_eq!(key(&file("k.", text)).secret(), bytes.as_bytes());
    }
    assert_eq!(key(&file("k.", "+/+/")).secret(), &vec![0xfb, 0xff, 0xbf]);
    for bad in ["Zg", "Zg=", "Zh==", "Zm9=", "Z", "====", "Zm9v ", "-_-_", "Zm9v\n", "\u{e9}"] {
        let error = refusal(&file("k.", bad));
        assert!(matches!(error, KeyFileError::Secret(_)), "{}", bad);
        assert!(error.message().starts_with("invalid TSIG secret: "));
        assert!(error.message().len() > "invalid TSIG secret: ".len());
    }
}

#[test]
fn other_key_files_are_invalid() {
    for bad in [
        "",
        "key",
        "key k. { algorithm hmac-sha512; secret \"Zg==\"; };",
        "key k. { secret \"Zg==\"; algorithm hmac-sha256; };",
        "key k. { algorithm hmac-sha256; secret \"Zg==\"; }",
        "key k. { algorithm hmac-sha256; secret \"Zg==\"; };;",
        "key k. { algorithm hmac-sha256; secret \"Zg==\" };",
        "keys k. { algorithm hmac-sha256; secret \"Zg==\"; };",
        "key k..x { algorithm hmac-sha256; secret \"Zg==\"; };",
        "key \"k k\" { algorithm hmac-sha256; secret \"Zg==\"; };",
    ] {
        let error = refusal(bad);
        assert!(matches!(error, KeyFileError::Invalid), "{}", bad);
        assert_eq!(error.message(), "invalid TSIG key file");
    }
}

#[test]
fn key_names_come_before_secrets() {
    assert!(matches!(refusal(&file("a..b", "!")), KeyFileError::Invalid));
    assert!(matches!(refusal(&file("k.", "!")), KeyFileError::Secret(_)));
}

#[test]
fn unfinished_parts_are_refused() {
    let error = refusal("key /* k.");
    assert!(matches!(error, KeyFileError::Lex(LexError::UnterminatedComment)));
    assert_eq!(error.message(), "unterminated comment in TSIG key file");
    let error = refusal("key \"k.");
    assert!(matches!(error, KeyFileError::Lex(LexError::UnterminatedString)));
    assert_eq!(error.message(), "unterminated string in TSIG key file");
    let error = refusal("key \"k\\.\"");
    assert!(matches!(error, KeyFileError::Lex(LexError::EscapedString)));
    assert_eq!(error.message(), "escaped strings are not valid in a TSIG key file");
}

#[test]
fn words_end_at_marks() {
    assert_eq!(
        lex("a{b}c;d\"e f\"g").unwrap(),
        vec!["a", "{", "b", "}", "c", ";", "d", "e f", "g"]
    );
    assert_eq!(lex(" \t\r\n\x0c").unwrap(), Vec::<String>::new());
    assert_eq!(lex("a#b //c").unwrap(), vec!["a#b"]);
    assert_eq!(lex("a/*b*/ /x / y").unwrap(), vec!["a/*b*/", "/x", "/", "y"]);
    assert_eq!(
        lex("\u{e9}\u{a0}\u{e9} \"\u{20ac}\"").unwrap(),
        vec!["\u{e9}\u{a0}\u{e9}", "\u{20ac}"]
    );
    assert_eq!(lex("\"\"").unwrap(), vec![""]);
    assert_eq!(lex("#").unwrap(), Vec::<String>::new());
    assert_eq!(lex("a\\b").unwrap(), vec!["a\\b"]);
}

#[test]
fn comments_end_where_they_should() {
    assert_eq!(lex("#x\ny").unwrap(), vec!["y"]);
    assert_eq!(lex("//x\ny").unwrap(), vec!["y"]);
    assert_eq!(lex("/*x*/y*/").unwrap(), vec!["y*/"]);
    assert_eq!(lex("/**/y").unwrap(), vec!["y"]);
    assert_eq!(lex("/*/").unwrap_err(), LexError::UnterminatedComment);
    assert_eq!(lex("/*\u{e9}*/y").unwrap(), vec!["y"]);
    assert_eq!(lex("\"a").unwrap_err(), LexError::UnterminatedString);
    assert_eq!(lex("\"a\\").unwrap_err(), LexError::EscapedString);
}

#[test]
fn quoting_is_undone() {
    let list = ["key", "", "a b", "{", "#x", "//", "/*"];
    let text: String = list.iter().map(|t| format!("\"{}\" ", t)).collect();
    assert_eq!(lex(&text).unwrap(), list.to_vec());
}
