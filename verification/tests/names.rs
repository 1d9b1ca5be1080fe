use menhera_ddns::config::DdnsConfig;
use menhera_ddns::error::ErrorKind;
use menhera_ddns::name::{absolute_name, copy_byte_strings, copy_bytes, valid_hostname, DnsName};
use menhera_ddns::text::{
    alphanumeric_byte, eq_ignore_case, fold_byte, fold_char, hex_digit_byte, same_bytes, same_text,
    trim_text,
};

fn name(labels: &[&str]) -> DnsName {
    let labels = labels.iter().map(|l| l.as_bytes().to_vec()).collect();
    DnsName::from_labels(labels).expect("a valid name")
}

fn labels(name: &DnsName) -> Vec<String> {
    name.labels().iter().map(|l| String::from_utf8(l.clone()).unwrap()).collect()
}

fn config(zone: &str) -> DdnsConfig {
    match DdnsConfig::from_settings(Some("s3cret"), Some(zone)) {
        Ok(config) => config,
        Err(words) => panic!("{}", words),
    }
}

fn refusal(secret: Option<&str>, zone: Option<&str>) -> String {
    match DdnsConfig::from_settings(secret, zone) {
        Ok(_) => panic!("the settings were accepted"),
        Err(words) => words,
    }
}

#[test]
fn hostnames_are_single_labels() {
    for good in ["laptop", "a", "A9", "x-y", "0", "xn--abc", &"a".repeat(63)] {
        assert!(valid_hostname(good), "{}", good);
    }
    for bad in [
        "", "-a", "a-", "-", "a.b", "a_b", "a b", "\u{e9}t\u{e9}", "a\\", "*", &"a".repeat(64),
    ] {
        assert!(!valid_hostname(bad), "{}", bad);
    }
}

#[test]
fn names_keep_their_limits() {
    assert!(DnsName::from_labels(vec![]).is_some());
    assert!(DnsName::from_labels(vec![vec![]]).is_none());
    assert!(DnsName::from_labels(vec![vec![b'a'; 63]]).is_some());
    assert!(DnsName::from_labels(vec![vec![b'a'; 64]]).is_none());
    let mut long = vec![vec![b'a'; 63]; 3];
    long.push(vec![b'a'; 61]);
    assert!(DnsName::from_labels(long.clone()).is_some());
    long[3].push(b'a');
    assert!(DnsName::from_labels(long).is_none());
}

#[test]
fn names_compare_without_case() {
    assert!(name(&["Laptop", "EXAMPLE"]).same_name(&name(&["laptop", "example"])));
    assert!(!name(&["laptop"]).same_name(&name(&["laptop", "example"])));
    assert!(!name(&["laptop"]).same_name(&name(&["laptop2"])));
    assert!(!name(&["a["]).same_name(&name(&["a{"])));
    assert!(name(&[]).same_name(&name(&[])));
}

#[test]
fn base_names_drop_one_label() {
    assert_eq!(labels(&name(&["a", "b", "c"]).base_name()), vec!["b", "c"]);
    assert!(name(&["a"]).base_name().labels().is_empty());
    assert!(name(&[]).base_name().labels().is_empty());
}

#[test]
fn first_labels_are_checked() {
    assert!(name(&["laptop", "example"]).has_hostname_label());
    assert!(!name(&["_token", "example"]).has_hostname_label());
    assert!(!name(&["-x"]).has_hostname_label());
    assert!(!name(&[]).has_hostname_label());
    let high = DnsName::from_labels(vec![vec![0xc3, 0xa9]]).unwrap();
    assert!(!high.has_hostname_label());
}

#[test]
fn copies_are_equal() {
    assert_eq!(copy_bytes(&vec![1, 2, 3]), vec![1, 2, 3]);
    assert_eq!(copy_byte_strings(&vec![vec![1], vec![]]), vec![vec![1], vec![]]);
    assert_eq!(labels(&name(&["a", "b"]).clone()), vec!["a", "b"]);
}

#[test]
fn domain_names_become_absolute() {
    assert_eq!(absolute_name("DDNS.Example.Net.").unwrap(), "ddns.example.net.");
    assert_eq!(absolute_name("ddns.example.net").unwrap(), "ddns.example.net.");
    assert_eq!(absolute_name(".").unwrap(), ".");
    assert_eq!(absolute_name("").unwrap(), ".");
    assert_eq!(absolute_name("a_b.c#d-").unwrap(), "a_b.c#d-.");
    assert!(absolute_name(&"a".repeat(255)).is_ok());
    assert_eq!(absolute_name(&"a".repeat(256)).unwrap_err(), "too long label found in FQDN");
    assert_eq!(absolute_name("..").unwrap_err(), "empty label found in FQDN");
    assert_eq!(absolute_name(".example.").unwrap_err(), "empty label found in FQDN");
    assert_eq!(absolute_name("a b.").unwrap_err(), "invalid char found in FQDN");
    assert_eq!(absolute_name("a\\.").unwrap_err(), "invalid char found in FQDN");
    assert_eq!(absolute_name("\u{e9}.").unwrap_err(), "invalid char found in FQDN");
}

#[test]
fn settings_are_trimmed() {
    let config = match DdnsConfig::from_settings(
        Some("\u{3000} s3cret\n"),
        Some(" \tDDNS.Example.NET.\u{a0}"),
    ) {
        Ok(config) => config,
        Err(words) => panic!("{}", words),
    };
    assert_eq!(labels(&config.zone_name().unwrap()), vec!["ddns", "example", "net"]);
    assert_eq!(
        labels(&config.ptr_name_from_token("0123456789abcdef0123456789abcdef").unwrap())[0],
        "lg1fks0kv0b1j06l8p8docojoqun1vj4282pi7h537gtopg93450"
    );
}

#[test]
fn missing_settings_are_named() {
    assert_eq!(refusal(None, None), "SERVER_SECRET is not set");
    assert_eq!(refusal(Some(" \n"), Some("example.")), "SERVER_SECRET is not set");
    assert_eq!(refusal(Some("s"), None), "DDNS_ZONE is not set");
    assert_eq!(refusal(Some("s"), Some("\t")), "DDNS_ZONE is not set");
    assert_eq!(refusal(Some("s"), Some("a..b")), "empty label found in FQDN");
}

#[test]
fn hostnames_are_named_below_the_zone() {
    let config = config("ddns.example.net");
    assert_eq!(
        labels(&config.hostname_name("laptop").unwrap()),
        vec!["laptop", "ddns", "example", "net"]
    );
    assert_eq!(
        labels(&config.hostname_name("a.b").unwrap()),
        vec!["a", "b", "ddns", "example", "net"]
    );
    assert_eq!(labels(&config.hostname_name("a\\.b").unwrap())[0], "a.b");
    for bad in ["", "a b", "\u{e9}", "-a", &"a".repeat(64)] {
        let error = config.hostname_name(bad).map(|_| ()).unwrap_err();
        assert_eq!(error.kind, ErrorKind::Other);
        assert!(!error.message.is_empty());
    }
}

#[test]
fn root_zone_has_no_room() {
    let config = config(".");
    assert!(config.zone_name().unwrap().labels().is_empty());
    assert!(config.hostname_name("laptop").is_err());
    assert!(config.ptr_name_from_token("0123456789abcdef0123456789abcdef").is_err());
}

#[test]
fn roomy_zones_name_everything() {
    // 191 bytes on the wire: 63 + 63 + 61, with a length byte each, and the root.
    let zone = format!("{}.{}.{}.", "a".repeat(63), "b".repeat(63), "c".repeat(61));
    let roomy = config(&zone);
    assert!(roomy.hostname_name(&"h".repeat(63)).is_ok());
    assert!(roomy.ptr_name_from_token("0123456789abcdef0123456789abcdef").is_ok());
    let narrow = config(&format!("d.{}", zone));
    assert!(narrow.hostname_name(&"h".repeat(63)).is_err());
    assert!(narrow.hostname_name(&"h".repeat(61)).is_ok());
    assert!(narrow.hostname_name(&"h".repeat(62)).is_err());
}

#[test]
fn zones_that_are_no_names_are_reported() {
    let config = config("a#b.example");
    assert_eq!(config.zone_name().map(|_| ()).unwrap_err().kind, ErrorKind::Other);
    assert!(config.hostname_name("laptop").is_err());
}

#[test]
fn credentials_are_named_below_token() {
    let config = config("ddns.example.net.");
    assert_eq!(
        labels(&config.credential_name(&b"foobar".to_vec()).unwrap()),
        vec!["cpnmuoj1e8", "_token", "ddns", "example", "net"]
    );
    assert!(config.credential_name(&vec![]).is_err());
    assert!(config.credential_name(&vec![0; 39]).is_ok());
    assert!(config.credential_name(&vec![0; 40]).is_err());
}

#[test]
fn credential_names_depend_on_secret_and_token() {
    let one = config("ddns.example.net.");
    let two = match DdnsConfig::from_settings(Some("key"), Some("ddns.example.net.")) {
        Ok(config) => config,
        Err(words) => panic!("{}", words),
    };
    let lower = "0123456789abcdef0123456789abcdef";
    let upper = "0123456789ABCDEF0123456789ABCDEF";
    assert_eq!(
        labels(&one.ptr_name_from_token(lower).unwrap())[0],
        "lg1fks0kv0b1j06l8p8docojoqun1vj4282pi7h537gtopg93450"
    );
    assert_eq!(
        labels(&one.ptr_name_from_token(upper).unwrap())[0],
        "vo35dq6j1gqhggspjlar9iigurs4g7jlt7novhb7i8jh0jcq6420"
    );
    assert_eq!(
        labels(&two.ptr_name_from_token("The quick brown fox jumps over the lazy dog").unwrap())[0],
        "uuu87t1gae229c9ij3jakrth8fnkqmd19531emcn8uerob8q7jc0"
    );
    assert!(!one
        .ptr_name_from_token(lower)
        .unwrap()
        .same_name(&two.ptr_name_from_token(lower).unwrap()));
}

#[test]
fn credential_names_are_no_hostnames() {
    let config = config("ddns.example.net.");
    let ptr = config.ptr_name_from_token("0123456789abcdef0123456789abcdef").unwrap();
    assert!(!ptr.base_name().same_name(&config.zone_name().unwrap()));
    assert!(ptr.base_name().base_name().same_name(&config.zone_name().unwrap()));
}

#[test]
fn ascii_classes_and_folding() {
    assert!(alphanumeric_byte(b'a') && alphanumeric_byte(b'Z') && alphanumeric_byte(b'0'));
    assert!(!alphanumeric_byte(b'-') && !alphanumeric_byte(b'[') && !alphanumeric_byte(0xe9));
    assert!(hex_digit_byte(b'f') && hex_digit_byte(b'F') && hex_digit_byte(b'9'));
    assert!(!hex_digit_byte(b'g') && !hex_digit_byte(b'G') && !hex_digit_byte(b'/'));
    assert_eq!(fold_byte(b'Q'), b'q');
    assert_eq!(fold_byte(b'@'), b'@');
    assert_eq!(fold_char('Z'), 'z');
    assert_eq!(fold_char('\u{c9}'), '\u{c9}');
    assert!(eq_ignore_case("HMAC-Sha256", "hmac-sha256"));
    assert!(!eq_ignore_case("\u{c9}", "\u{e9}"));
    assert!(!eq_ignore_case("key", "keys"));
    assert!(same_text("\u{e9}a", "\u{e9}a"));
    assert!(!same_text("Key", "key"));
    assert!(same_bytes(&vec![1, 2], &vec![1, 2]));
    assert!(!same_bytes(&vec![1, 2], &vec![1, 3]));
    assert!(!same_bytes(&vec![1, 2], &vec![1]));
}

#[test]
fn white_space_is_trimmed_at_both_ends() {
    assert_eq!(trim_text(" a b\t"), "a b");
    assert_eq!(trim_text("a"), "a");
    assert_eq!(trim_text(""), "");
    assert_eq!(trim_text(" \n\u{3000}"), "");
    assert_eq!(trim_text("\u{200b}a\u{200b}"), "\u{200b}a\u{200b}");
    for code in 0..=0x10ffffu32 {
        if let Some(c) = char::from_u32(code) {
            let text = format!("{}x{}", c, c);
            assert_eq!(trim_text(&text), text.trim(), "{:x}", code);
        }
    }
}
