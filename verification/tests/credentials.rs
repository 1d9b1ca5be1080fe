use menhera_ddns::credential::{label_of_tag, token_from_bytes, valid_token};

#[test]
fn tokens_are_hexadecimal() {
    let bytes = [0, 1, 2, 3, 4, 5, 6, 7, 8, 9, 10, 11, 12, 13, 14, 255];
    assert_eq!(token_from_bytes(&bytes), "000102030405060708090a0b0c0d0eff");
    assert_eq!(token_from_bytes(&[0xab; 16]), "abababababababababababababababab");
}

#[test]
fn issued_tokens_are_accepted_and_distinct() {
    let mut bytes = [7u8; 16];
    let one = token_from_bytes(&bytes);
    bytes[15] = 8;
    let two = token_from_bytes(&bytes);
    assert!(valid_token(&one));
    assert!(valid_token(&two));
    assert_ne!(one, two);
}

#[test]
fn tokens_have_one_form() {
    assert!(valid_token("0123456789abcdef0123456789abcdef"));
    assert!(valid_token("0123456789ABCDEF0123456789abcdef"));
    assert!(!valid_token(""));
    assert!(!valid_token("0123456789abcdef0123456789abcde"));
    assert!(!valid_token("0123456789abcdef0123456789abcdef0"));
    assert!(!valid_token("0123456789abcdef0123456789abcdeg"));
    assert!(!valid_token("0123456789abcdef0123456789abcd\u{e9}"));
    assert!(!valid_token(" 123456789abcdef0123456789abcdef"));
}

#[test]
fn labels_are_base32hex() {
    for (bytes, text) in [
        ("", ""),
        ("f", "co"),
        ("fo", "cpng"),
        ("foo", "cpnmu"),
        ("foob", "cpnmuog"),
        ("fooba", "cpnmuoj1"),
        ("foobar", "cpnmuoj1e8"),
    ] {
        assert_eq!(label_of_tag(&bytes.as_bytes().to_vec()), text);
    }
    assert_eq!(label_of_tag(&vec![0xff; 32]), format!("{}g", "v".repeat(51)));
}

#[test]
fn labels_tell_tags_apart() {
    let one = vec![0x55; 32];
    let mut two = one.clone();
    two[31] ^= 1;
    assert_ne!(label_of_tag(&one), label_of_tag(&two));
}
