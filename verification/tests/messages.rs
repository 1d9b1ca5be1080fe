use hickory_client::proto::op::{Message, MessageType, OpCode, ResponseCode};
use hickory_client::proto::rr::{DNSClass, Name, RData, Record, RecordType};
use menhera_ddns::message::{
    address_message, authorization_prerequisites, create_message, delete_message,
};
use menhera_ddns::name::DnsName;
use menhera_ddns::record::{marker, Address};

fn name(labels: &[&str]) -> DnsName {
    let labels = labels.iter().map(|l| l.as_bytes().to_vec()).collect();
    DnsName::from_labels(labels).expect("a valid name")
}

fn zone() -> DnsName {
    name(&["ddns", "example", "net"])
}

fn host() -> DnsName {
    name(&["laptop", "ddns", "example", "net"])
}

fn credential() -> DnsName {
    name(&["abc", "_token", "ddns", "example", "net"])
}

const ZONE: &str = "ddns.example.net.";
const HOST: &str = "laptop.ddns.example.net.";
const CREDENTIAL: &str = "abc._token.ddns.example.net.";

fn check_header(message: &Message) {
    assert_eq!(message.op_code(), OpCode::Update);
    assert_eq!(message.queries().len(), 1);
    let zone = &message.queries()[0];
    assert_eq!(zone.name(), &Name::from_ascii(ZONE).unwrap());
    assert_eq!(zone.query_class(), DNSClass::IN);
    assert_eq!(zone.query_type(), RecordType::SOA);
    assert_eq!(message.message_type(), MessageType::Query);
    assert!(!message.authoritative() && !message.truncated());
    assert!(!message.recursion_desired() && !message.recursion_available());
    assert!(!message.authentic_data() && !message.checking_disabled());
    assert_eq!(message.response_code(), ResponseCode::NoError);
    let edns = message.extensions().as_ref().unwrap();
    assert_eq!((edns.max_payload(), edns.version(), edns.rcode_high()), (1232, 0, 0));
    assert!(!edns.flags().dnssec_ok);
    assert_eq!(edns.flags().z, 0);
    assert!(edns.options().as_ref().is_empty());
    assert!(message.additionals().is_empty());
    assert!(message.signature().is_empty());
}

fn check(record: &Record, name: &str, kind: RecordType, class: DNSClass, ttl: u32) {
    assert_eq!(record.name(), &Name::from_ascii(name).unwrap());
    assert_eq!(record.record_type(), kind);
    assert_eq!(record.dns_class(), class);
    assert_eq!(record.ttl(), ttl);
}

fn check_empty(record: &Record) {
    assert!(matches!(record.data(), RData::Update0(_)));
}

fn check_marker(record: &Record) {
    match record.data() {
        RData::TXT(text) => {
            assert_eq!(text.txt_data().len(), 1);
            assert_eq!(text.txt_data()[0].as_ref(), b"ddns=1");
        }
        _ => panic!("not a text"),
    }
}

fn check_pointer(record: &Record) {
    match record.data() {
        RData::PTR(target) => assert_eq!(target.0, Name::from_ascii(HOST).unwrap()),
        _ => panic!("not a pointer"),
    }
}

fn check_authorization(message: &Message) {
    assert_eq!(message.answers().len(), 2);
    check(&message.answers()[0], CREDENTIAL, RecordType::PTR, DNSClass::IN, 0);
    check_pointer(&message.answers()[0]);
    check(&message.answers()[1], HOST, RecordType::TXT, DNSClass::IN, 0);
    check_marker(&message.answers()[1]);
}

#[test]
fn marker_is_ddns_1() {
    assert_eq!(marker(), b"ddns=1");
}

#[test]
fn creation_reserves_and_stores() {
    let message = create_message(&zone(), &credential(), &host());
    check_header(&message);
    assert_eq!(message.answers().len(), 2);
    check(&message.answers()[0], HOST, RecordType::TXT, DNSClass::NONE, 0);
    check_empty(&message.answers()[0]);
    check(&message.answers()[1], CREDENTIAL, RecordType::PTR, DNSClass::NONE, 0);
    check_empty(&message.answers()[1]);
    assert_eq!(message.name_servers().len(), 2);
    check(&message.name_servers()[0], HOST, RecordType::TXT, DNSClass::IN, 60);
    check_marker(&message.name_servers()[0]);
    check(&message.name_servers()[1], CREDENTIAL, RecordType::PTR, DNSClass::IN, 60);
    check_pointer(&message.name_servers()[1]);
}

#[test]
fn ipv4_address_replaces_a_records() {
    let message = address_message(&zone(), &credential(), &host(), &Address::V4([192, 0, 2, 10]));
    check_header(&message);
    check_authorization(&message);
    assert_eq!(message.name_servers().len(), 2);
    check(&message.name_servers()[0], HOST, RecordType::A, DNSClass::ANY, 0);
    check_empty(&message.name_servers()[0]);
    check(&message.name_servers()[1], HOST, RecordType::A, DNSClass::IN, 60);
    match message.name_servers()[1].data() {
        RData::A(a) => assert_eq!(a.0.octets(), [192, 0, 2, 10]),
        _ => panic!("not an IPv4 address"),
    }
}

#[test]
fn ipv6_address_replaces_aaaa_records() {
    let segments = [0x2001, 0xdb8, 0, 1, 2, 3, 4, 0xffff];
    let message = address_message(&zone(), &credential(), &host(), &Address::V6(segments));
    check_header(&message);
    check_authorization(&message);
    assert_eq!(message.name_servers().len(), 2);
    check(&message.name_servers()[0], HOST, RecordType::AAAA, DNSClass::ANY, 0);
    check_empty(&message.name_servers()[0]);
    check(&message.name_servers()[1], HOST, RecordType::AAAA, DNSClass::IN, 60);
    match message.name_servers()[1].data() {
        RData::AAAA(a) => assert_eq!(a.0.segments(), segments),
        _ => panic!("not an IPv6 address"),
    }
}

#[test]
fn deletion_clears_both_names() {
    let message = delete_message(&zone(), &credential(), &host());
    check_header(&message);
    check_authorization(&message);
    assert_eq!(message.name_servers().len(), 2);
    check(&message.name_servers()[0], HOST, RecordType::ANY, DNSClass::ANY, 0);
    check_empty(&message.name_servers()[0]);
    check(&message.name_servers()[1], CREDENTIAL, RecordType::ANY, DNSClass::ANY, 0);
    check_empty(&message.name_servers()[1]);
}

#[test]
fn prerequisites_are_put_behind_others() {
    let mut message = create_message(&zone(), &credential(), &host());
    message.set_recursion_desired(true);
    message.add_additional(Record::update0(Name::root(), 7, RecordType::A));
    let id = message.id();
    authorization_prerequisites(&mut message, &credential(), &host());
    assert_eq!(message.id(), id);
    assert!(message.recursion_desired());
    assert_eq!(message.additionals().len(), 1);
    check(&message.additionals()[0], ".", RecordType::A, DNSClass::IN, 7);
    assert_eq!(message.op_code(), OpCode::Update);
    assert!(message.extensions().is_some());
    assert_eq!(message.answers().len(), 4);
    check(&message.answers()[1], CREDENTIAL, RecordType::PTR, DNSClass::NONE, 0);
    check(&message.answers()[2], CREDENTIAL, RecordType::PTR, DNSClass::IN, 0);
    check(&message.answers()[3], HOST, RecordType::TXT, DNSClass::IN, 0);
    assert_eq!(message.name_servers().len(), 2);
}

#[test]
fn zone_may_differ_in_case() {
    let message = create_message(&name(&["DDNS", "Example", "net"]), &credential(), &host());
    check_header(&message);
}

#[test]
fn messages_can_be_encoded() {
    for message in [
        create_message(&zone(), &credential(), &host()),
        address_message(&zone(), &credential(), &host(), &Address::V4([1, 2, 3, 4])),
        address_message(&zone(), &credential(), &host(), &Address::V6([1, 2, 3, 4, 5, 6, 7, 8])),
        delete_message(&zone(), &credential(), &host()),
    ] {
        let bytes = message.to_vec().unwrap();
        assert_eq!(Message::from_vec(&bytes).unwrap().answers().len(), 2);
    }
}
