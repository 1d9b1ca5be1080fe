use hickory_client::proto::op::Message;
use hickory_client::proto::rr::{DNSClass, RData, Record, RecordType};
use menhera_ddns::config::DdnsConfig;
use menhera_ddns::credential::token_from_bytes;
use menhera_ddns::exchange::{QueryReply, ResponseCode, UpdateReply};
use menhera_ddns::name::DnsName;
use menhera_ddns::record::{Address, DnsRecord, RecordData};
use menhera_ddns::reply::Reply;
use menhera_ddns::session::{
    create_with_bytes, handler_create, handler_delete, handler_update, update_with_address, Change,
    Lookup, Step, Submission,
};

const BYTES: [u8; 16] = [0, 1, 2, 3, 4, 5, 6, 7, 8, 9, 10, 11, 12, 13, 14, 15];
const TOKEN: &str = "000102030405060708090a0b0c0d0e0f";
const LABEL: &str = "gbakhsuuml4hov2l4tb5dcm6fu3ct6pgu56upeto34rvoq9ckeug";

/// An authoritative server with one zone.
#[derive(Default, Clone)]
struct Server {
    records: Vec<Record>,
}

impl Server {
    fn has(&self, p: &Record) -> bool {
        self.records.iter().any(|r| {
            r.name() == p.name()
                && (p.record_type() == RecordType::ANY || r.record_type() == p.record_type())
        })
    }

    fn matches(&self, prerequisites: &[Record], p: &Record) -> bool {
        let stored: Vec<&RData> = self
            .records
            .iter()
            .filter(|r| r.name() == p.name() && r.record_type() == p.record_type())
            .map(|r| r.data())
            .collect();
        let wanted: Vec<&RData> = prerequisites
            .iter()
            .filter(|r| r.name() == p.name() && r.record_type() == p.record_type())
            .map(|r| r.data())
            .collect();
        stored.len() == wanted.len() && wanted.iter().all(|d| stored.contains(d))
    }

    fn update(&mut self, message: &Message) -> u16 {
        for p in message.answers() {
            match p.dns_class() {
                DNSClass::NONE if self.has(p) => return 7,
                DNSClass::IN if !self.matches(message.answers(), p) => return 8,
                _ => {}
            }
        }
        for u in message.name_servers() {
            if u.dns_class() == DNSClass::ANY {
                let any = u.record_type() == RecordType::ANY;
                self.records
                    .retain(|r| r.name() != u.name() || !any && r.record_type() != u.record_type());
            } else {
                self.records.push(u.clone());
            }
        }
        0
    }

    fn answer(&self, lookup: &Lookup) -> QueryReply {
        let records: Vec<DnsRecord> = self
            .records
            .iter()
            .map(plain)
            .filter(|r| r.name.same_name(lookup.name()) && kind(&r.data) == lookup.kind())
            .collect();
        let code = if records.is_empty() { 3 } else { 0 };
        QueryReply::Answered(ResponseCode { code, text: "text".to_owned() }, records)
    }

    /// Serves a request to its end.
    fn serve(&mut self, config: &DdnsConfig, first: Step) -> Reply {
        let mut step = first;
        loop {
            step = match step {
                Step::Query(lookup) => {
                    let reply = self.answer(&lookup);
                    lookup.answered(config, reply)
                }
                Step::Send(submission) => {
                    let code = self.update(submission.message());
                    return submission.answered(UpdateReply::Answered(ResponseCode {
                        code,
                        text: "text".to_owned(),
                    }));
                }
                Step::Reply(reply) => return reply,
            };
        }
    }

    fn lines(&self) -> Vec<String> {
        let mut lines: Vec<String> = self
            .records
            .iter()
            .map(|r| format!("{} {} {} {}", r.name(), r.ttl(), r.record_type(), r.data()))
            .collect();
        lines.sort();
        lines
    }
}

fn kind(data: &RecordData) -> u16 {
    match data {
        RecordData::Ptr(_) => 12,
        RecordData::Txt(_) => 16,
        RecordData::A(_) => 1,
        RecordData::Aaaa(_) => 28,
        RecordData::Empty(kind) | RecordData::Other(kind) => *kind,
    }
}

fn plain(record: &Record) -> DnsRecord {
    let labels = |name: &hickory_client::proto::rr::Name| {
        DnsName::from_labels(name.iter().map(|l| l.to_vec()).collect()).unwrap()
    };
    DnsRecord {
        name: labels(record.name()),
        class: record.dns_class().into(),
        ttl: record.ttl(),
        data: match record.data() {
            RData::PTR(target) => RecordData::Ptr(labels(&target.0)),
            RData::TXT(text) => {
                RecordData::Txt(text.txt_data().iter().map(|s| s.to_vec()).collect())
            }
            RData::A(a) => RecordData::A(a.0.octets()),
            RData::AAAA(a) => RecordData::Aaaa(a.0.segments()),
            other => RecordData::Other(other.record_type().into()),
        },
    }
}

fn config() -> DdnsConfig {
    match DdnsConfig::from_settings(Some("s3cret"), Some("ddns.example.net.")) {
        Ok(config) => config,
        Err(words) => panic!("{}", words),
    }
}

fn v4(last: u8) -> Option<Address> {
    Some(Address::V4([192, 0, 2, last]))
}

fn v6() -> Option<Address> {
    Some(Address::V6([0x2001, 0xdb8, 0, 0, 0, 0, 0, 1]))
}

fn name(labels: &[&str]) -> DnsName {
    let labels = labels.iter().map(|l| l.as_bytes().to_vec()).collect();
    DnsName::from_labels(labels).expect("a valid name")
}

fn record(name: DnsName, data: RecordData) -> DnsRecord {
    DnsRecord { name, class: 1, ttl: 60, data }
}

fn found(records: Vec<DnsRecord>) -> QueryReply {
    QueryReply::Answered(ResponseCode { code: 0, text: "No Error".to_owned() }, records)
}

fn reply_of(step: Step) -> Reply {
    match step {
        Step::Reply(reply) => reply,
        _ => panic!("not a reply"),
    }
}

fn lookup_of(step: Step) -> Lookup {
    match step {
        Step::Query(lookup) => lookup,
        _ => panic!("not a question"),
    }
}

fn submission_of(step: Step) -> Submission {
    match step {
        Step::Send(submission) => submission,
        _ => panic!("not an update"),
    }
}

fn check_failure(reply: &Reply, status: u16, error: &str) {
    assert_eq!(reply.status, status);
    assert_eq!(reply.error.as_deref(), Some(error));
    assert!(reply.token.is_none() && reply.hostname.is_none() && reply.address.is_none());
}

fn created(server: &mut Server, hostname: &str) -> Reply {
    let config = config();
    server.serve(&config, create_with_bytes(&config, Some(hostname), &BYTES))
}

fn deleted(server: &mut Server, token: &str) -> Reply {
    let config = config();
    server.serve(&config, handler_delete(&config, Some(token)))
}

fn updated(server: &mut Server, token: &str, address: Option<Address>) -> Reply {
    let config = config();
    server.serve(&config, update_with_address(&config, Some(token), address))
}

fn target() -> DnsName {
    name(&["laptop", "ddns", "example", "net"])
}

fn credential() -> DnsName {
    name(&[LABEL, "_token", "ddns", "example", "net"])
}

/// A lookup whose credential has been found to point to the hostname.
fn marker_lookup(config: &DdnsConfig, change: Change) -> Lookup {
    let lookup = lookup_of(config.authorize(TOKEN, change));
    let answers = vec![record(credential(), RecordData::Ptr(target()))];
    lookup_of(lookup.answered(config, found(answers)))
}

#[test]
fn creation_stores_marker_and_credential() {
    let mut server = Server::default();
    let reply = created(&mut server, "laptop");
    assert_eq!(reply.status, 200);
    assert!(reply.error.is_none() && reply.hostname.is_none() && reply.address.is_none());
    assert_eq!(reply.token.as_deref(), Some(TOKEN));
    assert_eq!(
        server.lines(),
        vec![
            format!("{}._token.ddns.example.net. 60 PTR laptop.ddns.example.net.", LABEL),
            "laptop.ddns.example.net. 60 TXT ddns=1".to_owned(),
        ]
    );
}

#[test]
fn random_tokens_are_issued_and_good() {
    let config = config();
    let mut server = Server::default();
    let one = server.serve(&config, handler_create(&config, Some("one")));
    let two = server.serve(&config, handler_create(&config, Some("two")));
    assert_ne!(one.token, two.token);
    let reply = updated(&mut server, &one.token.unwrap(), v4(1));
    assert_eq!(reply.hostname.as_deref(), Some("one.ddns.example.net."));
    let reply = deleted(&mut server, &two.token.unwrap());
    assert_eq!(reply.hostname.as_deref(), Some("two.ddns.example.net."));
}

#[test]
fn created_token_is_good_for_changes() {
    let mut server = Server::default();
    created(&mut server, "laptop");
    let reply = updated(&mut server, TOKEN, v4(10));
    assert_eq!(reply.status, 200);
    assert!(reply.error.is_none() && reply.token.is_none());
    assert_eq!(reply.hostname.as_deref(), Some("laptop.ddns.example.net."));
    assert_eq!(reply.address.as_deref(), Some("192.0.2.10"));
    let reply = deleted(&mut server, TOKEN);
    assert_eq!(reply.status, 200);
    assert!(reply.error.is_none() && reply.token.is_none() && reply.address.is_none());
    assert_eq!(reply.hostname.as_deref(), Some("laptop.ddns.example.net."));
}

#[test]
fn addresses_replace_their_own_family() {
    let mut server = Server::default();
    created(&mut server, "laptop");
    let bare = server.lines().len();
    updated(&mut server, TOKEN, v4(10));
    let reply = updated(&mut server, TOKEN, v6());
    assert_eq!(reply.address.as_deref(), Some("2001:db8::1"));
    assert_eq!(server.lines().len(), bare + 2);
    updated(&mut server, TOKEN, v4(11));
    let lines = server.lines();
    assert_eq!(lines.len(), bare + 2);
    assert!(lines.contains(&"laptop.ddns.example.net. 60 A 192.0.2.11".to_owned()));
    assert!(lines.contains(&"laptop.ddns.example.net. 60 AAAA 2001:db8::1".to_owned()));
}

#[test]
fn deletion_undoes_creation_and_spares_others() {
    let config = config();
    let mut server = Server::default();
    server.serve(&config, handler_create(&config, Some("other")));
    let before = server.lines();
    created(&mut server, "laptop");
    updated(&mut server, TOKEN, v4(10));
    updated(&mut server, TOKEN, v6());
    updated(&mut server, TOKEN, v4(11));
    assert_ne!(server.lines(), before);
    deleted(&mut server, TOKEN);
    assert_eq!(server.lines(), before);
}

#[test]
fn deleted_token_is_refused() {
    let mut server = Server::default();
    created(&mut server, "laptop");
    deleted(&mut server, TOKEN);
    check_failure(&updated(&mut server, TOKEN, v4(1)), 401, "invalid token");
    check_failure(&deleted(&mut server, TOKEN), 401, "invalid token");
}

#[test]
fn deleted_token_stays_refused() {
    let config = config();
    let mut server = Server::default();
    created(&mut server, "laptop");
    deleted(&mut server, TOKEN);
    let other = server.serve(&config, handler_create(&config, Some("laptop"))).token.unwrap();
    updated(&mut server, &other, v4(2));
    check_failure(&updated(&mut server, TOKEN, v4(1)), 401, "invalid token");
    deleted(&mut server, &other);
    check_failure(&deleted(&mut server, TOKEN), 401, "invalid token");
}

#[test]
fn created_token_stays_good() {
    let config = config();
    let mut server = Server::default();
    created(&mut server, "laptop");
    for last in 1..4 {
        assert_eq!(updated(&mut server, TOKEN, v4(last)).status, 200);
        let other = server.serve(&config, handler_create(&config, Some("other"))).token.unwrap();
        updated(&mut server, &other, v6());
        let again = server.serve(&config, handler_create(&config, Some("Laptop")));
        assert_eq!(again.status, 409);
        assert_eq!(updated(&mut server, TOKEN, v6()).status, 200);
        assert_eq!(deleted(&mut server, &other).status, 200);
    }
    let reply = deleted(&mut server, TOKEN);
    assert_eq!(reply.status, 200);
    assert_eq!(reply.hostname.as_deref(), Some("laptop.ddns.example.net."));
    assert!(server.lines().is_empty());
}

#[test]
fn changed_secret_invalidates_tokens() {
    let mut server = Server::default();
    created(&mut server, "laptop");
    let changed = match DdnsConfig::from_settings(Some("other"), Some("ddns.example.net.")) {
        Ok(config) => config,
        Err(words) => panic!("{}", words),
    };
    let step = handler_delete(&changed, Some(TOKEN));
    let reply = server.serve(&changed, step);
    check_failure(&reply, 401, "invalid token");
    assert_eq!(deleted(&mut server, TOKEN).status, 200);
}

#[test]
fn created_hostname_stays_taken() {
    let config = config();
    let mut server = Server::default();
    created(&mut server, "laptop");
    updated(&mut server, TOKEN, v4(1));
    let other = server.serve(&config, handler_create(&config, Some("other"))).token.unwrap();
    deleted(&mut server, &other);
    let reply = server.serve(&config, handler_create(&config, Some("LapTop")));
    check_failure(&reply, 409, "DNS name or record already exists");
    deleted(&mut server, TOKEN);
    assert_eq!(server.serve(&config, handler_create(&config, Some("LapTop"))).status, 200);
}

#[test]
fn told_address_is_the_one_set() {
    let config = config();
    let mut server = Server::default();
    created(&mut server, "laptop");
    for (header, told, stored) in [
        ("192.0.2.7", "192.0.2.7", "A 192.0.2.7"),
        ("2001:DB8:0:0::00ff", "2001:db8::ff", "AAAA 2001:db8::ff"),
        ("::ffff:192.0.2.9", "::ffff:192.0.2.9", "AAAA ::ffff:192.0.2.9"),
    ] {
        let step = handler_update(&config, Some(TOKEN), Some(header));
        let reply = server.serve(&config, step);
        assert_eq!(reply.status, 200);
        assert_eq!(reply.address.as_deref(), Some(told));
        assert!(server.lines().contains(&format!("laptop.ddns.example.net. 60 {}", stored)));
    }
}

#[test]
fn taken_hostname_is_a_conflict() {
    let config = config();
    let mut server = Server::default();
    created(&mut server, "laptop");
    let before = server.lines();
    let reply = server.serve(&config, handler_create(&config, Some("LAPTOP")));
    check_failure(&reply, 409, "DNS name or record already exists");
    assert_eq!(server.lines(), before);
}

#[test]
fn used_credential_is_a_conflict() {
    let mut server = Server::default();
    created(&mut server, "laptop");
    check_failure(&created(&mut server, "desktop"), 409, "DNS name or record already exists");
}

#[test]
fn lost_evidence_is_denied() {
    let config = config();
    let mut server = Server::default();
    created(&mut server, "laptop");
    let lookup = lookup_of(update_with_address(&config, Some(TOKEN), v4(1)));
    let reply = server.answer(&lookup);
    let lookup = lookup_of(lookup.answered(&config, reply));
    let reply = server.answer(&lookup);
    let submission = submission_of(lookup.answered(&config, reply));
    deleted(&mut server, TOKEN);
    let code = server.update(submission.message());
    let reply = submission
        .answered(UpdateReply::Answered(ResponseCode { code, text: "text".to_owned() }));
    check_failure(&reply, 401, "DNS authorization prerequisite no longer exists");
    assert!(server.lines().is_empty());
}

#[test]
fn malformed_requests_are_turned_away() {
    let config = config();
    for hostname in [None, Some(""), Some("-a"), Some("a.b"), Some("\u{e9}")] {
        let reply = reply_of(handler_create(&config, hostname));
        check_failure(&reply, 400, "hostname must be a valid DNS label");
    }
    for token in [None, Some("")] {
        check_failure(&reply_of(handler_delete(&config, token)), 400, "token is required");
        check_failure(&reply_of(handler_update(&config, token, None)), 400, "token is required");
        let reply = reply_of(handler_update(&config, token, Some("192.0.2.1")));
        check_failure(&reply, 400, "token is required");
    }
    for real_ip in [None, Some(""), Some("192.0.2"), Some("192.0.2.1, 192.0.2.2"), Some("host")] {
        let reply = reply_of(handler_update(&config, Some("x"), real_ip));
        check_failure(&reply, 400, "X-Real-IP must contain one IP address");
    }
    let reply = reply_of(handler_update(&config, Some("x"), Some("192.0.2.1")));
    check_failure(&reply, 401, "invalid token");
    check_failure(&reply_of(handler_delete(&config, Some("x"))), 401, "invalid token");
}

#[test]
fn questions_are_for_credential_and_marker() {
    let config = config();
    let lookup = lookup_of(handler_delete(&config, Some(TOKEN)));
    assert!(lookup.name().same_name(&credential()));
    assert_eq!(lookup.kind(), 12);
    let answers = vec![record(credential(), RecordData::Ptr(target()))];
    let lookup = lookup_of(lookup.answered(&config, found(answers)));
    assert!(lookup.name().same_name(&target()));
    assert_eq!(lookup.kind(), 16);
}

#[test]
fn credential_must_be_one_matching_pointer() {
    let config = config();
    let pointer = || record(credential(), RecordData::Ptr(target()));
    for answers in [
        vec![],
        vec![pointer(), pointer()],
        vec![record(credential(), RecordData::Txt(vec![b"ddns=1".to_vec()]))],
        vec![record(credential(), RecordData::Other(12))],
        vec![record(target(), RecordData::Ptr(target()))],
    ] {
        let lookup = lookup_of(config.delete_hostname(TOKEN));
        check_failure(&reply_of(lookup.answered(&config, found(answers))), 401, "invalid token");
    }
    let upper = LABEL.to_uppercase();
    let shouted = name(&[&upper, "_TOKEN", "DDNS", "example", "net"]);
    let lookup = lookup_of(config.delete_hostname(TOKEN));
    lookup_of(lookup.answered(&config, found(vec![record(shouted, RecordData::Ptr(target()))])));
}

#[test]
fn target_must_be_a_child_of_the_zone() {
    let config = config();
    for bad in [
        name(&[]),
        name(&["ddns", "example", "net"]),
        name(&["laptop", "example", "net"]),
        name(&["a", "laptop", "ddns", "example", "net"]),
        name(&["_token", "ddns", "example", "net"]),
        name(&["-a", "ddns", "example", "net"]),
        credential(),
    ] {
        let lookup = lookup_of(config.delete_hostname(TOKEN));
        let answers = vec![record(credential(), RecordData::Ptr(bad))];
        check_failure(
            &reply_of(lookup.answered(&config, found(answers))),
            401,
            "credential PTR target is outside the DDNS zone",
        );
    }
    let lookup = lookup_of(config.delete_hostname(TOKEN));
    let shouted = name(&["Laptop", "DDNS", "Example", "NET"]);
    let answers = vec![record(credential(), RecordData::Ptr(shouted))];
    lookup_of(lookup.answered(&config, found(answers)));
}

#[test]
fn target_must_be_marked_and_nothing_else() {
    let config = config();
    let marker = || record(target(), RecordData::Txt(vec![b"ddns=1".to_vec()]));
    for answers in [
        vec![],
        vec![marker(), marker()],
        vec![record(target(), RecordData::Txt(vec![]))],
        vec![record(target(), RecordData::Txt(vec![b"ddns=2".to_vec()]))],
        vec![record(target(), RecordData::Txt(vec![b"ddns=".to_vec(), b"1".to_vec()]))],
        vec![record(target(), RecordData::Other(16))],
        vec![record(credential(), RecordData::Txt(vec![b"ddns=1".to_vec()]))],
    ] {
        let lookup = marker_lookup(&config, Change::Delete);
        check_failure(
            &reply_of(lookup.answered(&config, found(answers))),
            401,
            "credential PTR target is not a managed hostname",
        );
    }
    submission_of(marker_lookup(&config, Change::Delete).answered(&config, found(vec![marker()])));
}

#[test]
fn server_failures_end_requests() {
    let config = config();
    let refused = || {
        QueryReply::Answered(ResponseCode { code: 5, text: "Query Refused".to_owned() }, vec![])
    };
    let lookup = lookup_of(config.delete_hostname(TOKEN));
    let reply = reply_of(lookup.answered(&config, refused()));
    check_failure(&reply, 502, "DNS query failed with Query Refused");
    let lookup = marker_lookup(&config, Change::Delete);
    let reply = reply_of(lookup.answered(&config, QueryReply::Failed("timed out".to_owned())));
    check_failure(&reply, 502, "timed out");
    let submission = submission_of(config.create_hostname("laptop", &BYTES));
    let reply = submission.answered(UpdateReply::Missing);
    check_failure(&reply, 502, "DNS server returned no response");
    let submission = submission_of(config.create_hostname("laptop", &BYTES));
    let reply = submission.answered(UpdateReply::Failed("no route".to_owned()));
    check_failure(&reply, 502, "no route");
}

#[test]
fn targets_are_printed_as_the_server_has_them() {
    let config = config();
    let address = Address::V4([1, 2, 3, 4]);
    let lookup = lookup_of(config.update_address(TOKEN, address));
    let shouted = || name(&["LapTop", "DDNS", "Example", "net"]);
    let answers = vec![record(credential(), RecordData::Ptr(shouted()))];
    let lookup = lookup_of(lookup.answered(&config, found(answers)));
    let answers = vec![record(target(), RecordData::Txt(vec![b"ddns=1".to_vec()]))];
    let submission = submission_of(lookup.answered(&config, found(answers)));
    let ok = ResponseCode { code: 0, text: "No Error".to_owned() };
    let reply = submission.answered(UpdateReply::Answered(ok));
    assert_eq!(reply.hostname.as_deref(), Some("LapTop.DDNS.Example.net."));
    assert_eq!(reply.address.as_deref(), Some("1.2.3.4"));
}

#[test]
fn zones_without_room_fail() {
    let config = match DdnsConfig::from_settings(Some("s3cret"), Some(".")) {
        Ok(config) => config,
        Err(words) => panic!("{}", words),
    };
    assert_eq!(reply_of(create_with_bytes(&config, Some("laptop"), &BYTES)).status, 502);
    assert_eq!(reply_of(handler_delete(&config, Some(TOKEN))).status, 502);
}

#[test]
fn tokens_come_from_their_bytes() {
    assert_eq!(token_from_bytes(&BYTES), TOKEN);
    let config = config();
    let submission = submission_of(config.create_hostname("laptop", &BYTES));
    let ok = ResponseCode { code: 0, text: "No Error".to_owned() };
    assert_eq!(submission.answered(UpdateReply::Answered(ok)).token.as_deref(), Some(TOKEN));
}

#[test]
fn tokens_stay_out_of_dns() {
    let config = config();
    let submission = submission_of(config.create_hostname("laptop", &BYTES));
    let bytes = submission.message().to_vec().unwrap();
    assert!(!bytes.windows(TOKEN.len()).any(|w| w == TOKEN.as_bytes()));
    assert!(!bytes.windows(BYTES.len()).any(|w| w == BYTES));
    assert!(bytes.windows(LABEL.len()).any(|w| w == LABEL.as_bytes()));
}

#[test]
fn updates_stay_in_the_zone() {
    let config = config();
    let zone = hickory_client::proto::rr::Name::from_ascii("ddns.example.net.").unwrap();
    let marker = || record(target(), RecordData::Txt(vec![b"ddns=1".to_vec()]));
    let steps = vec![
        config.create_hostname("a.b", &BYTES),
        marker_lookup(&config, Change::Delete).answered(&config, found(vec![marker()])),
        marker_lookup(&config, Change::Address(Address::V4([1, 2, 3, 4])))
            .answered(&config, found(vec![marker()])),
    ];
    for step in steps {
        let submission = submission_of(step);
        assert_eq!(submission.message().queries()[0].name(), &zone);
        for update in submission.message().name_servers() {
            assert!(zone.zone_of(update.name()));
        }
    }
}

#[test]
fn tokens_stay_out_of_changes() {
    let config = config();
    let marker = || record(target(), RecordData::Txt(vec![b"ddns=1".to_vec()]));
    for change in [Change::Delete, Change::Address(Address::V4([1, 2, 3, 4]))] {
        let step = marker_lookup(&config, change).answered(&config, found(vec![marker()]));
        let bytes = submission_of(step).message().to_vec().unwrap();
        assert!(!bytes.windows(TOKEN.len()).any(|w| w == TOKEN.as_bytes()));
        assert!(!bytes.windows(BYTES.len()).any(|w| w == BYTES));
    }
}

#[test]
fn hostname_spelled_like_the_token_is_sent() {
    let submission = submission_of(config().create_hostname(TOKEN, &BYTES));
    let bytes = submission.message().to_vec().unwrap();
    assert!(bytes.windows(TOKEN.len()).any(|w| w == TOKEN.as_bytes()));
}
