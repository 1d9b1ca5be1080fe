use menhera_ddns::error::{DdnsError, ErrorKind};
use menhera_ddns::exchange::{query, send_update, QueryReply, ResponseCode, UpdateReply};
use menhera_ddns::name::DnsName;
use menhera_ddns::record::{DnsRecord, RecordData};
use menhera_ddns::reply::{dns_error_response, json_error};

fn code(code: u16, text: &str) -> ResponseCode {
    ResponseCode { code, text: text.to_owned() }
}

fn record() -> DnsRecord {
    DnsRecord {
        name: DnsName::from_labels(vec![b"a".to_vec()]).unwrap(),
        class: 1,
        ttl: 60,
        data: RecordData::Other(2),
    }
}

fn failure(reply: UpdateReply) -> (ErrorKind, String) {
    match send_update(reply) {
        Ok(()) => panic!("the update went through"),
        Err(error) => (error.kind, error.message),
    }
}

#[test]
fn answers_come_with_success_only() {
    match query(QueryReply::Answered(code(0, "No Error"), vec![record()])) {
        Ok(records) => assert_eq!(records.len(), 1),
        Err(error) => panic!("{}", error.message),
    }
    match query(QueryReply::Answered(code(3, "Non-Existent Domain"), vec![record()])) {
        Ok(records) => assert!(records.is_empty()),
        Err(error) => panic!("{}", error.message),
    }
    match query(QueryReply::Answered(code(2, "Server Failure"), vec![record()])) {
        Ok(_) => panic!("records came"),
        Err(error) => {
            assert_eq!(error.kind, ErrorKind::Other);
            assert_eq!(error.message, "DNS query failed with Server Failure");
        }
    }
    match query(QueryReply::Failed("timed out".to_owned())) {
        Ok(_) => panic!("records came"),
        Err(error) => {
            assert_eq!(error.kind, ErrorKind::Other);
            assert_eq!(error.message, "timed out");
        }
    }
}

#[test]
fn updates_fail_by_code() {
    assert!(send_update(UpdateReply::Answered(code(0, "No Error"))).is_ok());
    for exists in [6, 7] {
        assert_eq!(
            failure(UpdateReply::Answered(code(exists, "x"))),
            (ErrorKind::AlreadyExists, "DNS name or record already exists".to_owned())
        );
    }
    for gone in [3, 8] {
        assert_eq!(
            failure(UpdateReply::Answered(code(gone, "x"))),
            (
                ErrorKind::PermissionDenied,
                "DNS authorization prerequisite no longer exists".to_owned()
            )
        );
    }
    assert_eq!(
        failure(UpdateReply::Answered(code(5, "Query Refused"))),
        (ErrorKind::Other, "DNS update failed with Query Refused".to_owned())
    );
    assert_eq!(
        failure(UpdateReply::Missing),
        (ErrorKind::Other, "DNS server returned no response".to_owned())
    );
    assert_eq!(
        failure(UpdateReply::Failed("no route".to_owned())),
        (ErrorKind::Other, "no route".to_owned())
    );
}

#[test]
fn failures_have_a_status() {
    let denied = dns_error_response(DdnsError::permission_denied("no"));
    assert_eq!((denied.status, denied.error.as_deref()), (401, Some("no")));
    let taken = DdnsError { kind: ErrorKind::AlreadyExists, message: "taken".to_owned() };
    let taken = dns_error_response(taken);
    assert_eq!((taken.status, taken.error.as_deref()), (409, Some("taken")));
    let other = dns_error_response(DdnsError::other("down".to_owned()));
    assert_eq!((other.status, other.error.as_deref()), (502, Some("down")));
    assert!(other.token.is_none() && other.hostname.is_none() && other.address.is_none());
    let bad = json_error(400, "bad".to_owned());
    assert_eq!((bad.status, bad.error.as_deref()), (400, Some("bad")));
}
