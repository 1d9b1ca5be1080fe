use menhera_ddns::record::Address;

fn octets(text: &str) -> Option<[u8; 4]> {
    match Address::from_text(text) {
        Some(Address::V4(octets)) => Some(octets),
        _ => None,
    }
}

fn segments(text: &str) -> Option<[u16; 8]> {
    match Address::from_text(text) {
        Some(Address::V6(segments)) => Some(segments),
        _ => None,
    }
}

#[test]
fn ipv4_addresses_are_dotted_decimal() {
    assert_eq!(Address::V4([0, 9, 10, 255]).to_text(), "0.9.10.255");
    assert_eq!(Address::V4([99, 100, 199, 200]).to_text(), "99.100.199.200");
    assert_eq!(octets("0.9.10.255"), Some([0, 9, 10, 255]));
    for bad in [
        "", "1.2.3", "1.2.3.4.5", "1.2.3.256", "01.2.3.4", "1.2.3.00", "0x1.2.3.4", " 1.2.3.4",
        "1.2.3.4 ", "1..3.4", "1.2.3.-4", "1.2.3.+4", "1.2.3.4:80", "1.2.3.0004",
    ] {
        assert!(Address::from_text(bad).is_none(), "{}", bad);
    }
}

#[test]
fn ipv4_text_is_read_back() {
    for n in 0..=255u8 {
        let address = [n, 255 - n, n / 2, n ^ 0x55];
        assert_eq!(octets(&Address::V4(address).to_text()), Some(address));
    }
}

#[test]
fn ipv6_addresses_are_read_and_printed() {
    let address = [0x2001, 0xdb8, 0, 0, 0, 0, 0, 1];
    assert_eq!(Address::V6(address).to_text(), "2001:db8::1");
    assert_eq!(segments("2001:db8::1"), Some(address));
    assert_eq!(segments("2001:DB8:0:0:0:0:0:0001"), Some(address));
    assert_eq!(segments("::"), Some([0; 8]));
    for bad in ["2001:db8::1%1", "[::1]", ":::", "1:2:3:4:5:6:7", "12345::", "::1/64"] {
        assert!(Address::from_text(bad).is_none(), "{}", bad);
    }
}
