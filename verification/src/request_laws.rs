//! What holds of requests, from what comes in to what goes out.

use vstd::prelude::*;

use crate::config::ConfigView;
use crate::error::{DdnsError, ErrorKind, ErrorView};
use crate::exchange::{QueryReply, ResponseCode, UpdateReply};
use crate::message::{EdnsView, HeaderView, UpdateView};
use crate::name::DnsName;
use crate::record::{Address, AddressView, DataView, DnsRecord, RecordData, RecordView};
use crate::reply::{Reply, ReplyView};
use crate::session::{
    Change, ChangeView, LookupView, OutcomeView, StepView, SubmissionView,
};

verus! {

/// A response that tells of a failure, with this status and these words.
pub open spec fn fault(status: u16, words: Seq<char>) -> ReplyView {
    ReplyView { status, error: Some(words), token: None, hostname: None, address: None }
}

/// The bytes of `ddns=1`.
pub open spec fn ddns_1() -> Seq<u8> {
    seq![0x64u8, 0x64u8, 0x6Eu8, 0x73u8, 0x3Du8, 0x31u8]
}

/// The text that marks a hostname is `ddns=1`.
pub proof fn law_marker_is_ddns_1()
    ensures
        crate::record::marker_text() == ddns_1(),
        crate::record::marker_data() == DataView::Txt(seq![ddns_1()]),
        forall|i: int| 0 <= i < 6 ==> ddns_1()[i] as char == #[trigger] "ddns=1"@[i],
        "ddns=1"@.len() == 6,
{
    reveal_strlit("ddns=1");
    assert(crate::record::marker_text() =~= ddns_1());
}

/// A text with nothing but white space around it.
pub open spec fn surrounds(
    text: Seq<char>,
    before: Seq<char>,
    middle: Seq<char>,
    after: Seq<char>,
) -> bool {
    &&& text == before + middle + after
    &&& crate::text_laws::all_blank(before)
    &&& crate::text_laws::all_blank(after)
    &&& crate::text_laws::is_trim(middle)
}

/// Settings are taken whole, without the white space around them: the secret of
/// the service is every byte of the one, and the zone is the absolute form of
/// the other, or is refused where it is no domain name.
pub proof fn law_settings_are_taken_whole(
    server_secret: &str,
    ddns_zone: &str,
    secret: Seq<char>,
    zone: Seq<char>,
    around: (Seq<char>, Seq<char>, Seq<char>, Seq<char>),
)
    requires
        surrounds(server_secret@, around.0, secret, around.1),
        surrounds(ddns_zone@, around.2, zone, around.3),
        secret.len() > 0,
        zone.len() > 0,
    ensures
        match crate::config::configured(
            crate::config::setting(Some(server_secret)),
            crate::config::setting(Some(ddns_zone)),
        ) {
            Ok(c) => {
                &&& crate::name::is_fqdn(zone)
                &&& c.secret == vstd::utf8::encode_utf8(secret)
                &&& vstd::utf8::decode_utf8(c.secret) == secret
                &&& crate::text_laws::is_absolute_form(zone, c.zone)
            },
            Err(words) => !crate::name::is_fqdn(zone) && words == crate::name::fqdn_refusal(zone),
        },
{
    crate::text_laws::law_trimming_keeps_the_middle(around.0, secret, around.1);
    crate::text_laws::law_trimming_keeps_the_middle(around.2, zone, around.3);
    crate::text_laws::law_absolute_form_keeps_characters(zone, zone);
    vstd::utf8::encode_utf8_decode_utf8(secret);
}

/// A setting that is missing, or is nothing but white space, is reported by its
/// name, the secret first.
pub proof fn law_missing_settings_are_reported(
    blank: &str,
    secret: &str,
    zone: Seq<char>,
    middle: Seq<char>,
    around: (Seq<char>, Seq<char>),
)
    requires
        crate::text_laws::all_blank(blank@),
        surrounds(secret@, around.0, middle, around.1),
        middle.len() > 0,
    ensures
        crate::config::configured(crate::config::setting(None), zone) == Err::<
            ConfigView,
            Seq<char>,
        >("SERVER_SECRET is not set"@),
        crate::config::configured(crate::config::setting(Some(blank)), zone) == Err::<
            ConfigView,
            Seq<char>,
        >("SERVER_SECRET is not set"@),
        crate::config::configured(
            crate::config::setting(Some(secret)),
            crate::config::setting(None),
        ) == Err::<ConfigView, Seq<char>>("DDNS_ZONE is not set"@),
        crate::config::configured(
            crate::config::setting(Some(secret)),
            crate::config::setting(Some(blank)),
        ) == Err::<ConfigView, Seq<char>>("DDNS_ZONE is not set"@),
{
    let nothing = Seq::<char>::empty();
    assert(blank@ + nothing + nothing =~= blank@);
    crate::text_laws::law_trimming_keeps_the_middle(blank@, nothing, nothing);
    crate::text_laws::law_trimming_keeps_the_middle(around.0, middle, around.1);
}

/// Settings that differ make up configurations that differ: two secrets that
/// give the service the same secret are the same text.
pub proof fn law_secrets_are_lossless(
    a: Seq<char>,
    b: Seq<char>,
    first_zone: Seq<char>,
    second_zone: Seq<char>,
    x: ConfigView,
    y: ConfigView,
)
    requires
        crate::config::configured(a, first_zone) == Ok::<ConfigView, Seq<char>>(x),
        crate::config::configured(b, second_zone) == Ok::<ConfigView, Seq<char>>(y),
    ensures
        x.secret == y.secret ==> a == b,
        x.zone == y.zone ==> crate::text_laws::is_absolute_form(first_zone, y.zone),
{
    vstd::utf8::encode_utf8_decode_utf8(a);
    vstd::utf8::encode_utf8_decode_utf8(b);
    crate::text_laws::law_absolute_form_keeps_characters(first_zone, x.zone);
}

/// Below a zone that is made of these labels, a hostname's name is its label and
/// then those of the zone, where all of them fit, and there is none where they
/// do not.
pub proof fn law_hostnames_are_named(c: ConfigView, hostname: Seq<char>, zone: Seq<Seq<char>>)
    requires
        zone.len() > 0,
        c.zone == crate::text_laws::dots(zone),
        crate::text_laws::is_plain_label(hostname),
        forall|i: int|
            0 <= i < zone.len() ==> crate::text_laws::is_plain_label(#[trigger] zone[i]),
        crate::text_laws::wire_len(zone) <= 255,
    ensures
        crate::config::named(c.zone) == Ok::<Seq<Seq<u8>>, ErrorView>(
            crate::text_laws::as_labels(zone),
        ),
        crate::text_laws::wire_len(zone) + hostname.len() < 255 ==> crate::config::named(
            crate::config::hostname_text(c, hostname),
        ) == Ok::<Seq<Seq<u8>>, ErrorView>(crate::text_laws::as_labels(seq![hostname] + zone)),
        crate::text_laws::wire_len(zone) + hostname.len() >= 255 ==> crate::config::named(
            crate::config::hostname_text(c, hostname),
        ) is Err,
{
    let all = seq![hostname] + zone;
    assert(all.drop_first() =~= zone);
    assert(crate::text_laws::dots(all) =~= crate::config::hostname_text(c, hostname));
    crate::text_laws::law_dotted_labels_are_a_name(zone);
    assert forall|i: int| 0 <= i < all.len() implies crate::text_laws::is_plain_label(
        #[trigger] all[i],
    ) by {
        if i > 0 {
            assert(all[i] == zone[i - 1]);
        }
    }
    if crate::text_laws::wire_len(all) <= 255 {
        crate::text_laws::law_dotted_labels_are_a_name(all);
    } else {
        crate::text_laws::lemma_dots(zone);
        crate::text_laws::lemma_plain_label(hostname);
        crate::name::lemma_prefixed_name(hostname, c.zone);
        let text = crate::config::hostname_text(c, hostname);
        assert(!text.contains('\\')) by {
            if text.contains('\\') {
                let i = choose|i: int| 0 <= i < text.len() && text[i] == '\\';
                if i < hostname.len() {
                    assert(hostname[i] == '\\');
                } else if i > hostname.len() {
                    assert(c.zone[i - hostname.len() - 1] == '\\');
                }
            }
        }
    }
}

/// Below a zone that is made of these labels, the name for a token is the
/// base32hex of the HMAC-SHA256 of the whole token under the whole secret, then
/// `_token`, then the labels of the zone.
pub proof fn law_credentials_are_named(
    c: ConfigView,
    token: Seq<char>,
    tag: Seq<u8>,
    zone: Seq<Seq<char>>,
)
    requires
        zone.len() > 0,
        c.zone == crate::text_laws::dots(zone),
        forall|i: int|
            0 <= i < zone.len() ==> crate::text_laws::is_plain_label(#[trigger] zone[i]),
        tag == crate::credential::hmac_sha256(c.secret, vstd::utf8::encode_utf8(token)),
        tag.len() == 32,
        crate::text_laws::wire_len(zone) <= 195,
    ensures
        crate::config::named(crate::config::ptr_text(c, token)) == Ok::<Seq<Seq<u8>>, ErrorView>(
            crate::text_laws::as_labels(
                seq![crate::credential::base32_text(tag), "_token"@] + zone,
            ),
        ),
        crate::config::credential_text(c, tag) == crate::config::ptr_text(c, token),
{
    let label = crate::credential::base32_text(tag);
    let below = seq!["_token"@] + zone;
    let all = seq![label, "_token"@] + zone;
    reveal_strlit("_token");
    reveal_strlit("._token.");
    assert("._token."@ =~= seq!['.'] + "_token"@ + seq!['.']);
    assert(all.drop_first() =~= below);
    assert(below.drop_first() =~= zone);
    assert(crate::text_laws::dots(below) =~= "_token"@ + seq!['.'] + c.zone);
    assert(crate::text_laws::dots(all) =~= crate::config::ptr_text(c, token));
    crate::credential::lemma_base32_alphanumeric(tag);
    assert(crate::text_laws::is_plain_label(label)) by {
        assert forall|i: int| 0 <= i < label.len() implies crate::text_laws::is_hostname_char(
            #[trigger] label[i],
        ) && label[i] != '-' by {
            assert(crate::text::is_alphanumeric(label[i]));
        }
    }
    assert(crate::text_laws::is_plain_label("_token"@));
    assert forall|i: int| 0 <= i < all.len() implies crate::text_laws::is_plain_label(
        #[trigger] all[i],
    ) by {
        if i > 1 {
            assert(all[i] == zone[i - 2]);
        }
    }
    assert(crate::text_laws::wire_len(below) == 7 + crate::text_laws::wire_len(zone));
    crate::text_laws::law_dotted_labels_are_a_name(all);
}

/// The text of a hostname's name is the hostname, a dot and the zone; that of a
/// credential's is the base32hex of its tag, `._token.` and the zone; and the
/// tag of a token is the HMAC-SHA256 of all of its bytes under the secret.
pub proof fn law_names_are_put_together(
    c: ConfigView,
    hostname: Seq<char>,
    token: Seq<char>,
    tag: Seq<u8>,
)
    ensures
        crate::config::hostname_text(c, hostname) == hostname + seq!['.'] + c.zone,
        crate::config::credential_text(c, tag) == crate::credential::base32_text(tag) + "._token."@
            + c.zone,
        crate::config::ptr_text(c, token) == crate::credential::base32_text(
            crate::credential::hmac_sha256(c.secret, vstd::utf8::encode_utf8(token)),
        ) + "._token."@ + c.zone,
        crate::credential::tag_of(c.secret, token) == crate::credential::hmac_sha256(
            c.secret,
            vstd::utf8::encode_utf8(token),
        ),
{
}

/// A text that cannot be read as a name is a failure that is not the client's
/// doing, in the words of the refusal.
pub proof fn law_unreadable_names_are_reported(text: Seq<char>, error: ErrorView)
    requires
        crate::config::named(text) == Err::<Seq<Seq<u8>>, ErrorView>(error),
    ensures
        error.kind == ErrorKind::Other,
        error.message == crate::name::parsed_name(text)->Err_0,
{
}

/// A zone has room just where it has labels and takes at most 191 bytes.
pub proof fn law_room_below_the_zone(c: ConfigView, zone: Seq<Seq<u8>>)
    requires
        crate::config::named(c.zone) == Ok::<Seq<Seq<u8>>, ErrorView>(zone),
    ensures
        crate::config::roomy(c) <==> 0 < zone.len() && crate::name::encoded_len(zone) <= 191,
{
}

/// The text of a parameter is taken as it is, and is empty where it is missing.
pub proof fn law_parameters_are_taken_whole(text: &str)
    ensures
        crate::session::param(Some(text)) == text@,
        crate::session::param(None).len() == 0,
{
}

/// A plain message for a zone, named by its start of authority in the class of
/// the Internet: an update with EDNS, no additional records and no signature.
pub open spec fn is_update_for(u: UpdateView, zone: Seq<Seq<u8>>) -> bool {
    &&& u.opcode == 5
    &&& u.zone == zone
    &&& u.kind == 6
    &&& u.class == 1
    &&& u.additionals.len() == 0
    &&& u.signatures.len() == 0
    &&& u.edns == Some(
        EdnsView {
            code_high: 0,
            version: 0,
            dnssec_ok: false,
            flags: 0,
            payload: 1232,
            options: 0,
        },
    )
}

/// The header of every update is that of a request without flags.
pub proof fn law_requests_have_no_flags(header: HeaderView)
    ensures
        crate::message::is_request(header) <==> {
            &&& !header.response && !header.authoritative && !header.truncated
            &&& !header.recursion_desired && !header.recursion_available
            &&& !header.authentic_data && !header.checking_disabled
            &&& header.code == 0
        },
{
}

/// The two prerequisites of every change: the credential's pointer leads to the
/// hostname, and the hostname's text is `ddns=1`.
pub open spec fn demands(
    prerequisites: Seq<RecordView>,
    ptr_name: Seq<Seq<u8>>,
    host: Seq<Seq<u8>>,
) -> bool {
    &&& prerequisites.len() == 2
    &&& prerequisites[0] == RecordView {
        name: ptr_name,
        class: 1,
        ttl: 0,
        data: DataView::Ptr(host),
    }
    &&& prerequisites[1] == RecordView {
        name: host,
        class: 1,
        ttl: 0,
        data: DataView::Txt(seq![ddns_1()]),
    }
}

/// What is put before a message so that it depends on the credential and the
/// marker.
pub proof fn law_changes_demand_evidence(ptr_name: Seq<Seq<u8>>, host: Seq<Seq<u8>>)
    ensures
        demands(crate::message::authorization(ptr_name, host), ptr_name, host),
{
    law_marker_is_ddns_1();
}

/// The update that creates a hostname asks that it have no text and the
/// credential's name no pointer, and adds the text `ddns=1` and the pointer, for
/// sixty seconds each.
pub proof fn law_creation_message(
    zone: Seq<Seq<u8>>,
    ptr_name: Seq<Seq<u8>>,
    host: Seq<Seq<u8>>,
)
    ensures
        ({
            let u = crate::message::creation(zone, ptr_name, host);
            &&& is_update_for(u, zone)
            &&& u.prerequisites == seq![
                RecordView { name: host, class: 254, ttl: 0, data: DataView::Empty(16) },
                RecordView { name: ptr_name, class: 254, ttl: 0, data: DataView::Empty(12) },
            ]
            &&& u.updates == seq![
                RecordView { name: host, class: 1, ttl: 60, data: DataView::Txt(seq![ddns_1()]) },
                RecordView { name: ptr_name, class: 1, ttl: 60, data: DataView::Ptr(host) },
            ]
        }),
{
    law_marker_is_ddns_1();
}

/// The update that gives a hostname an IPv4 address deletes its A records and
/// adds one with just these octets, for sixty seconds.
pub proof fn law_ipv4_message(
    zone: Seq<Seq<u8>>,
    ptr_name: Seq<Seq<u8>>,
    host: Seq<Seq<u8>>,
    octets: Seq<u8>,
)
    ensures
        ({
            let u = crate::message::readdressing(zone, ptr_name, host, AddressView::V4(octets));
            &&& is_update_for(u, zone)
            &&& demands(u.prerequisites, ptr_name, host)
            &&& u.updates == seq![
                RecordView { name: host, class: 255, ttl: 0, data: DataView::Empty(1) },
                RecordView { name: host, class: 1, ttl: 60, data: DataView::A(octets) },
            ]
        }),
{
    law_changes_demand_evidence(ptr_name, host);
}

/// The update that gives a hostname an IPv6 address deletes its AAAA records and
/// adds one with just these segments, for sixty seconds.
pub proof fn law_ipv6_message(
    zone: Seq<Seq<u8>>,
    ptr_name: Seq<Seq<u8>>,
    host: Seq<Seq<u8>>,
    segments: Seq<u16>,
)
    ensures
        ({
            let u = crate::message::readdressing(zone, ptr_name, host, AddressView::V6(segments));
            &&& is_update_for(u, zone)
            &&& demands(u.prerequisites, ptr_name, host)
            &&& u.updates == seq![
                RecordView { name: host, class: 255, ttl: 0, data: DataView::Empty(28) },
                RecordView { name: host, class: 1, ttl: 60, data: DataView::Aaaa(segments) },
            ]
        }),
{
    law_changes_demand_evidence(ptr_name, host);
}

/// The update that deletes a hostname deletes every record at the hostname and
/// every record at the credential's name.
pub proof fn law_deletion_message(
    zone: Seq<Seq<u8>>,
    ptr_name: Seq<Seq<u8>>,
    host: Seq<Seq<u8>>,
)
    ensures
        ({
            let u = crate::message::removal(zone, ptr_name, host);
            &&& is_update_for(u, zone)
            &&& demands(u.prerequisites, ptr_name, host)
            &&& u.updates == seq![
                RecordView { name: host, class: 255, ttl: 0, data: DataView::Empty(255) },
                RecordView { name: ptr_name, class: 255, ttl: 0, data: DataView::Empty(255) },
            ]
        }),
{
    law_changes_demand_evidence(ptr_name, host);
}

/// What an address is stored as: its own octets or segments.
pub proof fn law_addresses_are_stored_whole(octets: Seq<u8>, segments: Seq<u16>)
    ensures
        crate::record::address_data(AddressView::V4(octets)) == DataView::A(octets),
        crate::record::address_data(AddressView::V6(segments)) == DataView::Aaaa(segments),
{
}

/// The type codes of records.
pub proof fn law_type_codes(
    name: Seq<Seq<u8>>,
    strings: Seq<Seq<u8>>,
    octets: Seq<u8>,
    segments: Seq<u16>,
    kind: u16,
)
    ensures
        crate::record::kind_of(DataView::A(octets)) == 1,
        crate::record::kind_of(DataView::Ptr(name)) == 12,
        crate::record::kind_of(DataView::Txt(strings)) == 16,
        crate::record::kind_of(DataView::Aaaa(segments)) == 28,
        crate::record::kind_of(DataView::Empty(kind)) == kind,
        crate::record::kind_of(DataView::Other(kind)) == kind,
        crate::record::TYPE_PTR == 12,
        crate::record::TYPE_TXT == 16,
{
}

/// What the server answers a question with: the records where it answers with
/// code 0, none with code 3, and with any other code a failure that names it.
pub proof fn law_answers_by_code(code: ResponseCode, records: Vec<DnsRecord>, reason: String)
    ensures
        match crate::exchange::answers_of(QueryReply::Answered(code, records)) {
            Ok(found) => {
                &&& code.code == 0 || code.code == 3
                &&& code.code == 3 ==> found.len() == 0
                &&& code.code == 0 ==> found.len() == records@.len()
                &&& code.code == 0 ==> forall|i: int|
                    0 <= i < found.len() ==> #[trigger] found[i] == records@[i]@
            },
            Err(error) => {
                &&& code.code != 0 && code.code != 3
                &&& error == ErrorView {
                    kind: ErrorKind::Other,
                    message: "DNS query failed with "@ + code.text@,
                }
            },
        },
        crate::exchange::answers_of(QueryReply::Failed(reason)) == Err::<
            Seq<RecordView>,
            ErrorView,
        >(ErrorView { kind: ErrorKind::Other, message: reason@ }),
{
}

/// A response that tells of an update that went through: the token of a hostname
/// that was created, or the name of one that was changed, and the text of the
/// address that it was given.
pub open spec fn tells(r: ReplyView, outcome: OutcomeView) -> bool {
    &&& r.status == 200
    &&& r.error is None
    &&& match outcome {
        OutcomeView::Created(token) => {
            r.token == Some(token) && r.hostname is None && r.address is None
        },
        OutcomeView::Addressed(host, AddressView::V4(octets)) => {
            &&& r.token is None
            &&& r.hostname == Some(crate::name::text_of_name(host))
            &&& r.address == Some(crate::address::ipv4_text(octets))
        },
        OutcomeView::Addressed(host, AddressView::V6(segments)) => {
            &&& r.token is None
            &&& r.hostname == Some(crate::name::text_of_name(host))
            &&& r.address == Some(crate::address::ipv6_text(segments))
        },
        OutcomeView::Deleted(host) => {
            &&& r.token is None
            &&& r.hostname == Some(crate::name::text_of_name(host))
            &&& r.address is None
        },
    }
}

/// What the client is told of an update by the server's code: with 0 that it
/// went through, with 6 or 7 that the name is taken, with 3 or 8 that the
/// permission is gone, and with any other code, or without one, that the DNS
/// server failed.
pub proof fn law_responses_by_code(outcome: OutcomeView, code: ResponseCode, reason: String)
    ensures
        ({
            let r = crate::session::concluded(
                outcome,
                crate::exchange::update_result(UpdateReply::Answered(code)),
            );
            if code.code == 0 {
                tells(r, outcome)
            } else if code.code == 6 || code.code == 7 {
                r == fault(409, "DNS name or record already exists"@)
            } else if code.code == 3 || code.code == 8 {
                r == fault(401, "DNS authorization prerequisite no longer exists"@)
            } else {
                r == fault(502, "DNS update failed with "@ + code.text@)
            }
        }),
        crate::session::concluded(
            outcome,
            crate::exchange::update_result(UpdateReply::Missing),
        ) == fault(502, "DNS server returned no response"@),
        crate::session::concluded(
            outcome,
            crate::exchange::update_result(UpdateReply::Failed(reason)),
        ) == fault(502, reason@),
        crate::exchange::update_result(UpdateReply::Answered(code)) is Ok <==> code.code == 0,
{
}

/// A failure is answered by its kind and in its own words.
pub proof fn law_failures_by_kind(message: Seq<char>, status: u16)
    ensures
        crate::reply::error_reply(
            ErrorView { kind: ErrorKind::PermissionDenied, message },
        ) == fault(401, message),
        crate::reply::error_reply(ErrorView { kind: ErrorKind::AlreadyExists, message }) == fault(
            409,
            message,
        ),
        crate::reply::error_reply(ErrorView { kind: ErrorKind::Other, message }) == fault(
            502,
            message,
        ),
        crate::reply::refusal(status, message) == fault(status, message),
        crate::error::denied(message) == (ErrorView { kind: ErrorKind::PermissionDenied, message }),
        crate::error::other(message) == (ErrorView { kind: ErrorKind::Other, message }),
{
}

/// A request to create something that is no hostname is answered with status
/// 400 and asks nothing of the server.
pub proof fn law_only_hostnames_are_created(c: ConfigView, hostname: Seq<char>, bytes: Seq<u8>)
    requires
        !({
            &&& 1 <= hostname.len() <= 63
            &&& hostname[0] != '-'
            &&& hostname[hostname.len() - 1] != '-'
            &&& forall|i: int|
                0 <= i < hostname.len() ==> crate::text_laws::is_hostname_char(
                    #[trigger] hostname[i],
                )
        }),
    ensures
        crate::session::on_create(c, hostname, bytes) == StepView::Reply(
            fault(400, "hostname must be a valid DNS label"@),
        ),
{
    crate::text_laws::law_hostname_characters(hostname);
}

/// A request to create any hostname, of 1 to 63 letters, digits and hyphens that
/// neither begins nor ends with a hyphen, in a zone that has room for it, sends
/// the update that reserves the hostname in the zone under the name for the
/// token of all sixteen bytes; once the server has carried it out, the client is
/// told that token.
pub proof fn law_every_hostname_is_created(
    c: ConfigView,
    hostname: Seq<char>,
    bytes: Seq<u8>,
    token: Seq<char>,
    tag: Seq<u8>,
    zone: Seq<Seq<char>>,
    code: ResponseCode,
)
    requires
        1 <= hostname.len() <= 63,
        hostname[0] != '-',
        hostname[hostname.len() - 1] != '-',
        forall|i: int|
            0 <= i < hostname.len() ==> crate::text_laws::is_hostname_char(#[trigger] hostname[i]),
        zone.len() > 0,
        c.zone == crate::text_laws::dots(zone),
        forall|i: int|
            0 <= i < zone.len() ==> crate::text_laws::is_plain_label(#[trigger] zone[i]),
        crate::text_laws::wire_len(zone) <= 191,
        bytes.len() == 16,
        token.len() == 32,
        forall|i: int|
            0 <= i < 16 ==> {
                &&& token[2 * i] == "0123456789abcdef"@[#[trigger] bytes[i] as int / 16]
                &&& token[2 * i + 1] == "0123456789abcdef"@[bytes[i] as int % 16]
            },
        tag == crate::credential::hmac_sha256(c.secret, vstd::utf8::encode_utf8(token)),
        tag.len() == 32,
        code.code == 0,
    ensures
        ({
            let host = crate::text_laws::as_labels(seq![hostname] + zone);
            let ptr_name = crate::text_laws::as_labels(
                seq![crate::credential::base32_text(tag), "_token"@] + zone,
            );
            &&& crate::session::on_create(c, hostname, bytes) matches StepView::Send(s)
            &&& is_update_for(s.message, crate::text_laws::as_labels(zone))
            &&& s.message.prerequisites == seq![
                RecordView { name: host, class: 254, ttl: 0, data: DataView::Empty(16) },
                RecordView { name: ptr_name, class: 254, ttl: 0, data: DataView::Empty(12) },
            ]
            &&& s.message.updates == seq![
                RecordView { name: host, class: 1, ttl: 60, data: DataView::Txt(seq![ddns_1()]) },
                RecordView { name: ptr_name, class: 1, ttl: 60, data: DataView::Ptr(host) },
            ]
            &&& crate::session::concluded(
                s.outcome,
                crate::exchange::update_result(UpdateReply::Answered(code)),
            ) == (ReplyView {
                status: 200,
                error: None,
                token: Some(token),
                hostname: None,
                address: None,
            })
        }),
{
    let made = crate::credential::hex_text(bytes);
    crate::text_laws::law_token_digits(bytes);
    assert forall|k: int| 0 <= k < 32 implies token[k] == made[k] by {
        let i = k / 2;
        assert(bytes[i] == bytes[i]);
        assert(k == 2 * i || k == 2 * i + 1);
    }
    assert(made =~= token);
    crate::text_laws::law_hostname_characters(hostname);
    law_hostnames_are_named(c, hostname, zone);
    law_credentials_are_named(c, token, tag, zone);
    law_creation_message(
        crate::text_laws::as_labels(zone),
        crate::text_laws::as_labels(seq![crate::credential::base32_text(tag), "_token"@] + zone),
        crate::text_laws::as_labels(seq![hostname] + zone),
    );
}

/// Where the three names of a creation can be read, whatever they are, the
/// update that reserves them is sent, with no other condition, for a token of
/// all the bytes.
pub proof fn law_readable_names_are_reserved(
    c: ConfigView,
    hostname: Seq<char>,
    bytes: Seq<u8>,
    host: Seq<Seq<u8>>,
    ptr_name: Seq<Seq<u8>>,
    zone: Seq<Seq<u8>>,
)
    requires
        crate::config::named(hostname + seq!['.'] + c.zone) == Ok::<Seq<Seq<u8>>, ErrorView>(host),
        crate::config::named(
            crate::credential::base32_text(
                crate::credential::hmac_sha256(
                    c.secret,
                    vstd::utf8::encode_utf8(crate::credential::hex_text(bytes)),
                ),
            ) + "._token."@ + c.zone,
        ) == Ok::<Seq<Seq<u8>>, ErrorView>(ptr_name),
        crate::config::named(c.zone) == Ok::<Seq<Seq<u8>>, ErrorView>(zone),
    ensures
        crate::session::creating(c, hostname, bytes) matches StepView::Send(s) && {
            &&& is_update_for(s.message, zone)
            &&& s.message.prerequisites == seq![
                RecordView { name: host, class: 254, ttl: 0, data: DataView::Empty(16) },
                RecordView { name: ptr_name, class: 254, ttl: 0, data: DataView::Empty(12) },
            ]
            &&& s.message.updates == seq![
                RecordView { name: host, class: 1, ttl: 60, data: DataView::Txt(seq![ddns_1()]) },
                RecordView { name: ptr_name, class: 1, ttl: 60, data: DataView::Ptr(host) },
            ]
            &&& s.outcome == OutcomeView::Created(crate::credential::hex_text(bytes))
        },
        ({
            &&& 1 <= hostname.len() <= 63
            &&& hostname[0] != '-'
            &&& hostname[hostname.len() - 1] != '-'
            &&& forall|i: int|
                0 <= i < hostname.len() ==> crate::text_laws::is_hostname_char(
                    #[trigger] hostname[i],
                )
        }) ==> crate::session::on_create(c, hostname, bytes) == crate::session::creating(
            c,
            hostname,
            bytes,
        ),
{
    law_names_are_put_together(c, hostname, crate::credential::hex_text(bytes), Seq::empty());
    law_creation_message(zone, ptr_name, host);
    crate::text_laws::law_hostname_characters(hostname);
}

/// A request to create a hostname ends with the failure to read the first of its
/// three names that cannot be read.
pub proof fn law_creation_needs_names(
    c: ConfigView,
    hostname: Seq<char>,
    bytes: Seq<u8>,
    error: ErrorView,
)
    requires
        ({
            let host = crate::config::named(hostname + seq!['.'] + c.zone);
            let ptr_name = crate::config::named(
                crate::config::ptr_text(c, crate::credential::hex_text(bytes)),
            );
            let zone = crate::config::named(c.zone);
            let fails = |r: Result<Seq<Seq<u8>>, ErrorView>|
                r == Err::<Seq<Seq<u8>>, ErrorView>(error);
            ||| fails(host)
            ||| host is Ok && fails(ptr_name)
            ||| host is Ok && ptr_name is Ok && fails(zone)
        }),
    ensures
        crate::session::creating(c, hostname, bytes) == StepView::Reply(fault(502, error.message)),
{
    assert(crate::config::hostname_text(c, hostname) == hostname + seq!['.'] + c.zone);
}

/// A text of 32 digits and letters from a to f in either case.
pub open spec fn has_token_form(text: Seq<char>) -> bool {
    &&& text.len() == 32
    &&& forall|i: int|
        0 <= i < text.len() ==> {
            ||| '0' <= #[trigger] text[i] <= '9'
            ||| 'a' <= text[i] <= 'f'
            ||| 'A' <= text[i] <= 'F'
        }
}

/// A request to delete asks for the pointer of the whole token's credential,
/// where the token has the right form; without a token it is answered with
/// status 400, and with another text for one with status 401.
pub proof fn law_deletion_begins_with_the_credential(
    c: ConfigView,
    token: &str,
    ptr_name: Result<Seq<Seq<u8>>, ErrorView>,
)
    requires
        ptr_name == crate::config::named(crate::config::ptr_text(c, token@)),
    ensures
        crate::session::on_delete(c, crate::session::param(None)) == StepView::Reply(
            fault(400, "token is required"@),
        ),
        crate::session::on_delete(c, crate::session::param(Some(token))) == (if token@.len() == 0 {
            StepView::Reply(fault(400, "token is required"@))
        } else if !has_token_form(token@) {
            StepView::Reply(fault(401, "invalid token"@))
        } else {
            match ptr_name {
                Ok(ptr_name) => StepView::Query(
                    LookupView { ptr_name, change: ChangeView::Delete, target: None },
                ),
                Err(error) => StepView::Reply(fault(502, error.message)),
            }
        }),
        crate::session::changing(c, token@, ChangeView::Delete) == (if !has_token_form(token@) {
            StepView::Reply(fault(401, "invalid token"@))
        } else {
            match ptr_name {
                Ok(ptr_name) => StepView::Query(
                    LookupView { ptr_name, change: ChangeView::Delete, target: None },
                ),
                Err(error) => StepView::Reply(fault(502, error.message)),
            }
        }),
{
    crate::text_laws::law_token_characters(token@);
    if let Err(error) = ptr_name {
        law_unreadable_names_are_reported(crate::config::ptr_text(c, token@), error);
    }
}

/// A request to update asks for the pointer of the whole token's credential, on
/// the way to the very address that the header's text is the text of: the
/// octets of an IPv4 address, or else the segments of an IPv6 address. Without a
/// token or an address it is answered with status 400, and with another text for
/// a token with status 401.
pub proof fn law_update_begins_with_the_credential(
    c: ConfigView,
    token: &str,
    real_ip: &str,
    octets: Seq<u8>,
    segments: Seq<u16>,
    ptr_name: Result<Seq<Seq<u8>>, ErrorView>,
)
    requires
        octets.len() == 4,
        ptr_name == crate::config::named(crate::config::ptr_text(c, token@)),
    ensures
        ({
            let begin = |change: ChangeView| if token@.len() == 0 {
                StepView::Reply(fault(400, "token is required"@))
            } else if !has_token_form(token@) {
                StepView::Reply(fault(401, "invalid token"@))
            } else {
                match ptr_name {
                    Ok(ptr_name) => StepView::Query(LookupView { ptr_name, change, target: None }),
                    Err(error) => StepView::Reply(fault(502, error.message)),
                }
            };
            let step = crate::session::on_update(
                c,
                crate::session::param(Some(token)),
                crate::session::header_address(Some(real_ip)),
            );
            let is_ipv4 = exists|o: Seq<u8>|
                o.len() == 4 && #[trigger] crate::address::ipv4_text(o) == real_ip@;
            &&& real_ip@ == crate::address::ipv4_text(octets) ==> step == begin(
                ChangeView::Address(AddressView::V4(octets)),
            )
            &&& !is_ipv4 && crate::address::ipv6_of(real_ip@) == Some(segments) ==> step == begin(
                ChangeView::Address(AddressView::V6(segments)),
            )
            &&& !is_ipv4 && crate::address::ipv6_of(real_ip@) is None ==> step == StepView::Reply(
                if token@.len() == 0 {
                    fault(400, "token is required"@)
                } else {
                    fault(400, "X-Real-IP must contain one IP address"@)
                },
            )
            &&& crate::session::on_update(
                c,
                crate::session::param(Some(token)),
                crate::session::header_address(None),
            ) == StepView::Reply(
                if token@.len() == 0 {
                    fault(400, "token is required"@)
                } else {
                    fault(400, "X-Real-IP must contain one IP address"@)
                },
            )
            &&& crate::session::on_update(
                c,
                crate::session::param(None),
                crate::session::header_address(Some(real_ip)),
            ) == StepView::Reply(fault(400, "token is required"@))
        }),
{
    crate::text_laws::law_token_characters(token@);
    crate::text_laws::law_addresses_are_read(real_ip@, octets, segments);
    if let Err(error) = ptr_name {
        law_unreadable_names_are_reported(crate::config::ptr_text(c, token@), error);
    }
}

/// A change with a token of the right form goes on with the same change, and
/// asks for the pointer of the token's credential.
pub proof fn law_changes_are_carried_along(
    c: ConfigView,
    token: Seq<char>,
    change: ChangeView,
    ptr_name: Seq<Seq<u8>>,
)
    requires
        crate::config::named(crate::config::ptr_text(c, token)) == Ok::<
            Seq<Seq<u8>>,
            ErrorView,
        >(ptr_name),
    ensures
        has_token_form(token) ==> crate::session::changing(c, token, change) == StepView::Query(
            LookupView { ptr_name, change, target: None },
        ),
        !has_token_form(token) ==> crate::session::changing(c, token, change) == StepView::Reply(
            fault(401, "invalid token"@),
        ),
        has_token_form(token) ==> match change {
            ChangeView::Address(address) => crate::session::on_update(c, token, Some(address))
                == StepView::Query(LookupView { ptr_name, change, target: None }),
            ChangeView::Delete => crate::session::on_delete(c, token) == StepView::Query(
                LookupView { ptr_name, change, target: None },
            ),
        },
{
    crate::text_laws::law_token_characters(token);
}

/// Whether a name is one label of a hostname's characters and then, but for
/// case, the labels of the zone.
pub open spec fn is_child(zone: Seq<Seq<u8>>, host: Seq<Seq<u8>>) -> bool {
    &&& host.len() == zone.len() + 1
    &&& crate::text_laws::alike_name(host.skip(1), zone)
    &&& 1 <= host[0].len() <= 63
    &&& host[0][0] != 0x2D
    &&& host[0][host[0].len() - 1] != 0x2D
    &&& forall|i: int|
        0 <= i < host[0].len() ==> {
            ||| 0x30 <= #[trigger] host[0][i] <= 0x39
            ||| 0x61 <= host[0][i] <= 0x7A
            ||| 0x41 <= host[0][i] <= 0x5A
            ||| host[0][i] == 0x2D
        }
}

proof fn lemma_child(zone: Seq<Seq<u8>>, host: Seq<Seq<u8>>)
    ensures
        crate::session::is_managed_name(zone, host) <==> is_child(zone, host),
{
    if host.len() > 0 {
        let text = crate::text::chars_of(host[0]);
        let base = crate::name::base_of(host);
        assert(base =~= host.skip(1));
        crate::text_laws::law_names_compare_without_case(base, zone);
        crate::text_laws::law_hostname_characters(text);
        if is_child(zone, host) {
            assert forall|i: int| 0 <= i < text.len() implies crate::text_laws::is_hostname_char(
                #[trigger] text[i],
            ) by {
                assert(host[0][i] as char == text[i]);
            }
        }
        if crate::session::is_managed_name(zone, host) {
            assert forall|i: int| 0 <= i < host[0].len() implies {
                ||| 0x30 <= #[trigger] host[0][i] <= 0x39
                ||| 0x61 <= host[0][i] <= 0x7A
                ||| 0x41 <= host[0][i] <= 0x5A
                ||| host[0][i] == 0x2D
            } by {
                assert(crate::text_laws::is_hostname_char(text[i]));
            }
            assert(text[0] == host[0][0] as char);
            assert(text[text.len() - 1] == host[0][host[0].len() - 1] as char);
        }
    }
}

/// The answer to the first question lets a change go on just where it is one
/// pointer, has the name that was asked for, and leads to a direct child of the
/// zone; the change then goes on, the same, with the text of that very target.
/// Any other answer is a refusal.
pub proof fn law_credential_answer(
    c: ConfigView,
    ptr_name: Seq<Seq<u8>>,
    change: ChangeView,
    zone: Seq<Seq<u8>>,
    answers: Seq<RecordView>,
)
    requires
        crate::config::named(c.zone) == Ok::<Seq<Seq<u8>>, ErrorView>(zone),
    ensures
        ({
            let step = crate::session::looked_up(
                c,
                LookupView { ptr_name, change, target: None },
                Ok(answers),
            );
            if answers.len() == 1 && crate::text_laws::alike_name(answers[0].name, ptr_name) {
                match answers[0].data {
                    DataView::Ptr(host) => if is_child(zone, host) {
                        step == StepView::Query(
                            LookupView { ptr_name, change, target: Some((host, zone)) },
                        )
                    } else {
                        step == StepView::Reply(
                            fault(401, "credential PTR target is outside the DDNS zone"@),
                        )
                    },
                    _ => step == StepView::Reply(fault(401, "invalid token"@)),
                }
            } else {
                step == StepView::Reply(fault(401, "invalid token"@))
            }
        }),
{
    if answers.len() == 1 {
        crate::text_laws::law_names_compare_without_case(answers[0].name, ptr_name);
        if let DataView::Ptr(host) = answers[0].data {
            lemma_child(zone, host);
        }
    }
}

/// The update that a change takes, and what it is for: the address records of
/// one family are replaced by the one asked for, or everything at the hostname
/// and the credential's name is deleted.
pub open spec fn is_update_of(
    s: SubmissionView,
    zone: Seq<Seq<u8>>,
    ptr_name: Seq<Seq<u8>>,
    host: Seq<Seq<u8>>,
    change: ChangeView,
) -> bool {
    &&& is_update_for(s.message, zone)
    &&& demands(s.message.prerequisites, ptr_name, host)
    &&& s.message.updates.len() == 2
    &&& match change {
        ChangeView::Address(AddressView::V4(octets)) => {
            &&& s.message.updates[0] == RecordView {
                name: host,
                class: 255,
                ttl: 0,
                data: DataView::Empty(1),
            }
            &&& s.message.updates[1] == RecordView {
                name: host,
                class: 1,
                ttl: 60,
                data: DataView::A(octets),
            }
            &&& s.outcome == OutcomeView::Addressed(host, AddressView::V4(octets))
        },
        ChangeView::Address(AddressView::V6(segments)) => {
            &&& s.message.updates[0] == RecordView {
                name: host,
                class: 255,
                ttl: 0,
                data: DataView::Empty(28),
            }
            &&& s.message.updates[1] == RecordView {
                name: host,
                class: 1,
                ttl: 60,
                data: DataView::Aaaa(segments),
            }
            &&& s.outcome == OutcomeView::Addressed(host, AddressView::V6(segments))
        },
        ChangeView::Delete => {
            &&& s.message.updates[0] == RecordView {
                name: host,
                class: 255,
                ttl: 0,
                data: DataView::Empty(255),
            }
            &&& s.message.updates[1] == RecordView {
                name: ptr_name,
                class: 255,
                ttl: 0,
                data: DataView::Empty(255),
            }
            &&& s.outcome == OutcomeView::Deleted(host)
        },
    }
}

/// The answer to the second question lets a change go on just where it is one
/// text, which is the single string `ddns=1`, and has the name that was asked
/// for; the update that the change takes is then sent. Any other answer is a
/// refusal.
pub proof fn law_marker_answer(
    c: ConfigView,
    ptr_name: Seq<Seq<u8>>,
    change: ChangeView,
    host: Seq<Seq<u8>>,
    zone: Seq<Seq<u8>>,
    answers: Seq<RecordView>,
)
    ensures
        ({
            let step = crate::session::looked_up(
                c,
                LookupView { ptr_name, change, target: Some((host, zone)) },
                Ok(answers),
            );
            if answers.len() == 1 && crate::text_laws::alike_name(answers[0].name, host)
                && answers[0].data == DataView::Txt(seq![ddns_1()]) {
                step matches StepView::Send(s) && is_update_of(s, zone, ptr_name, host, change)
            } else {
                step == StepView::Reply(
                    fault(401, "credential PTR target is not a managed hostname"@),
                )
            }
        }),
{
    law_marker_is_ddns_1();
    law_changes_demand_evidence(ptr_name, host);
    if answers.len() == 1 {
        crate::text_laws::law_names_compare_without_case(answers[0].name, host);
    }
}

/// A credential whose pointer is found, in a zone whose own name cannot be read,
/// ends the request with that failure.
pub proof fn law_unreadable_zone_ends_the_request(
    c: ConfigView,
    ptr_name: Seq<Seq<u8>>,
    change: ChangeView,
    host: Seq<Seq<u8>>,
    answers: Seq<RecordView>,
    error: ErrorView,
)
    requires
        crate::config::named(c.zone) == Err::<Seq<Seq<u8>>, ErrorView>(error),
        answers.len() == 1,
        answers[0].data == DataView::Ptr(host),
        crate::text_laws::alike_name(answers[0].name, ptr_name),
    ensures
        crate::session::looked_up(
            c,
            LookupView { ptr_name, change, target: None },
            Ok(answers),
        ) == StepView::Reply(fault(502, error.message)),
{
    crate::text_laws::law_names_compare_without_case(answers[0].name, ptr_name);
    law_unreadable_names_are_reported(c.zone, error);
}

/// A question that the server fails to answer ends the request with that
/// failure.
pub proof fn law_failed_question_ends_the_request(
    c: ConfigView,
    lookup: LookupView,
    code: ResponseCode,
    records: Vec<DnsRecord>,
    reason: String,
)
    ensures
        crate::session::looked_up(
            c,
            lookup,
            crate::exchange::answers_of(QueryReply::Failed(reason)),
        ) == StepView::Reply(fault(502, reason@)),
        code.code != 0 && code.code != 3 ==> crate::session::looked_up(
            c,
            lookup,
            crate::exchange::answers_of(QueryReply::Answered(code, records)),
        ) == StepView::Reply(fault(502, "DNS query failed with "@ + code.text@)),
{
}

/// From the header to the record and to the response: where the header's text
/// is that of an IPv4 address and the answers allow the change, the update that
/// is sent replaces the A records of the pointer's target by one with the octets
/// of that very text, and once the server has carried it out the client is told
/// the target's name and that text.
pub proof fn law_ipv4_header_becomes_the_record(
    c: ConfigView,
    token: &str,
    real_ip: &str,
    octets: Seq<u8>,
    ptr_name: Seq<Seq<u8>>,
    zone: Seq<Seq<u8>>,
    host: Seq<Seq<u8>>,
    first: Seq<RecordView>,
    second: Seq<RecordView>,
    code: ResponseCode,
)
    requires
        octets.len() == 4,
        real_ip@ == crate::address::ipv4_text(octets),
        has_token_form(token@),
        crate::config::named(crate::config::ptr_text(c, token@)) == Ok::<
            Seq<Seq<u8>>,
            ErrorView,
        >(ptr_name),
        crate::config::named(c.zone) == Ok::<Seq<Seq<u8>>, ErrorView>(zone),
        first.len() == 1,
        first[0].data == DataView::Ptr(host),
        crate::text_laws::alike_name(first[0].name, ptr_name),
        is_child(zone, host),
        second.len() == 1,
        second[0].data == DataView::Txt(seq![ddns_1()]),
        crate::text_laws::alike_name(second[0].name, host),
        code.code == 0,
    ensures
        crate::session::on_update(
            c,
            crate::session::param(Some(token)),
            crate::session::header_address(Some(real_ip)),
        ) matches StepView::Query(one) && crate::session::looked_up(
            c,
            one,
            Ok(first),
        ) matches StepView::Query(two) && crate::session::looked_up(
            c,
            two,
            Ok(second),
        ) matches StepView::Send(last) && {
            &&& one.ptr_name == ptr_name && one.target is None
            &&& two.target == Some((host, zone))
            &&& is_update_for(last.message, zone)
            &&& demands(last.message.prerequisites, ptr_name, host)
            &&& last.message.updates == seq![
                RecordView { name: host, class: 255, ttl: 0, data: DataView::Empty(1) },
                RecordView { name: host, class: 1, ttl: 60, data: DataView::A(octets) },
            ]
            &&& crate::session::concluded(
                last.outcome,
                crate::exchange::update_result(UpdateReply::Answered(code)),
            ) == (ReplyView {
                status: 200,
                error: None,
                token: None,
                hostname: Some(crate::name::text_of_name(host)),
                address: Some(real_ip@),
            })
        },
{
    law_update_begins_with_the_credential(
        c,
        token,
        real_ip,
        octets,
        Seq::empty(),
        crate::config::named(crate::config::ptr_text(c, token@)),
    );
    let change = ChangeView::Address(AddressView::V4(octets));
    law_credential_answer(c, ptr_name, change, zone, first);
    law_marker_answer(c, ptr_name, change, host, zone, second);
    law_ipv4_message(zone, ptr_name, host, octets);
}

/// From the header to the record and to the response: where the header's text
/// is read as an IPv6 address and the answers allow the change, the update that
/// is sent replaces the AAAA records of the pointer's target by one with the
/// segments of that very address, and once the server has carried it out the
/// client is told the target's name and the text of the address.
pub proof fn law_ipv6_header_becomes_the_record(
    c: ConfigView,
    token: &str,
    real_ip: &str,
    segments: Seq<u16>,
    ptr_name: Seq<Seq<u8>>,
    zone: Seq<Seq<u8>>,
    host: Seq<Seq<u8>>,
    first: Seq<RecordView>,
    second: Seq<RecordView>,
    code: ResponseCode,
)
    requires
        forall|o: Seq<u8>| o.len() == 4 ==> #[trigger] crate::address::ipv4_text(o) != real_ip@,
        crate::address::ipv6_of(real_ip@) == Some(segments),
        has_token_form(token@),
        crate::config::named(crate::config::ptr_text(c, token@)) == Ok::<
            Seq<Seq<u8>>,
            ErrorView,
        >(ptr_name),
        crate::config::named(c.zone) == Ok::<Seq<Seq<u8>>, ErrorView>(zone),
        first.len() == 1,
        first[0].data == DataView::Ptr(host),
        crate::text_laws::alike_name(first[0].name, ptr_name),
        is_child(zone, host),
        second.len() == 1,
        second[0].data == DataView::Txt(seq![ddns_1()]),
        crate::text_laws::alike_name(second[0].name, host),
        code.code == 0,
    ensures
        crate::session::on_update(
            c,
            crate::session::param(Some(token)),
            crate::session::header_address(Some(real_ip)),
        ) matches StepView::Query(one) && crate::session::looked_up(
            c,
            one,
            Ok(first),
        ) matches StepView::Query(two) && crate::session::looked_up(
            c,
            two,
            Ok(second),
        ) matches StepView::Send(last) && {
            &&& one.ptr_name == ptr_name && one.target is None
            &&& two.target == Some((host, zone))
            &&& is_update_for(last.message, zone)
            &&& demands(last.message.prerequisites, ptr_name, host)
            &&& last.message.updates == seq![
                RecordView { name: host, class: 255, ttl: 0, data: DataView::Empty(28) },
                RecordView { name: host, class: 1, ttl: 60, data: DataView::Aaaa(segments) },
            ]
            &&& crate::session::concluded(
                last.outcome,
                crate::exchange::update_result(UpdateReply::Answered(code)),
            ) == (ReplyView {
                status: 200,
                error: None,
                token: None,
                hostname: Some(crate::name::text_of_name(host)),
                address: Some(crate::address::ipv6_text(segments)),
            })
        },
{
    law_update_begins_with_the_credential(
        c,
        token,
        real_ip,
        seq![0u8, 0u8, 0u8, 0u8],
        segments,
        crate::config::named(crate::config::ptr_text(c, token@)),
    );
    let change = ChangeView::Address(AddressView::V6(segments));
    law_credential_answer(c, ptr_name, change, zone, first);
    law_marker_answer(c, ptr_name, change, host, zone, second);
    law_ipv6_message(zone, ptr_name, host, segments);
}

/// From the token to the deletion and to the response: where the answers allow
/// it, the update that is sent deletes everything at the pointer's target and at
/// the credential's name, and once the server has carried it out the client is
/// told the target's name.
pub proof fn law_token_becomes_the_deletion(
    c: ConfigView,
    token: &str,
    ptr_name: Seq<Seq<u8>>,
    zone: Seq<Seq<u8>>,
    host: Seq<Seq<u8>>,
    first: Seq<RecordView>,
    second: Seq<RecordView>,
    code: ResponseCode,
)
    requires
        has_token_form(token@),
        crate::config::named(crate::config::ptr_text(c, token@)) == Ok::<
            Seq<Seq<u8>>,
            ErrorView,
        >(ptr_name),
        crate::config::named(c.zone) == Ok::<Seq<Seq<u8>>, ErrorView>(zone),
        first.len() == 1,
        first[0].data == DataView::Ptr(host),
        crate::text_laws::alike_name(first[0].name, ptr_name),
        is_child(zone, host),
        second.len() == 1,
        second[0].data == DataView::Txt(seq![ddns_1()]),
        crate::text_laws::alike_name(second[0].name, host),
        code.code == 0,
    ensures
        crate::session::on_delete(
            c,
            crate::session::param(Some(token)),
        ) matches StepView::Query(one) && crate::session::looked_up(
            c,
            one,
            Ok(first),
        ) matches StepView::Query(two) && crate::session::looked_up(
            c,
            two,
            Ok(second),
        ) matches StepView::Send(last) && {
            &&& one.ptr_name == ptr_name && one.target is None
            &&& two.target == Some((host, zone))
            &&& is_update_for(last.message, zone)
            &&& demands(last.message.prerequisites, ptr_name, host)
            &&& last.message.updates == seq![
                RecordView { name: host, class: 255, ttl: 0, data: DataView::Empty(255) },
                RecordView { name: ptr_name, class: 255, ttl: 0, data: DataView::Empty(255) },
            ]
            &&& crate::session::concluded(
                last.outcome,
                crate::exchange::update_result(UpdateReply::Answered(code)),
            ) == (ReplyView {
                status: 200,
                error: None,
                token: None,
                hostname: Some(crate::name::text_of_name(host)),
                address: None,
            })
        },
{
    law_deletion_begins_with_the_credential(
        c,
        token,
        crate::config::named(crate::config::ptr_text(c, token@)),
    );
    law_credential_answer(c, ptr_name, ChangeView::Delete, zone, first);
    law_marker_answer(c, ptr_name, ChangeView::Delete, host, zone, second);
    law_deletion_message(zone, ptr_name, host);
}

/// Values are seen as they are: views leave nothing out and change nothing.
pub proof fn law_views_are_faithful(
    octets: [u8; 4],
    segments: [u16; 8],
    address: Address,
    kind: u16,
    strings: Vec<Vec<u8>>,
    target: DnsName,
    record: DnsRecord,
    reply: Reply,
    error: DdnsError,
)
    ensures
        Address::V4(octets)@ == AddressView::V4(octets@),
        Address::V6(segments)@ == AddressView::V6(segments@),
        crate::address::opt_address(Some(address)) == Some(address@),
        crate::address::opt_address(None) is None,
        Change::Delete@ == ChangeView::Delete,
        Change::Address(address)@ == ChangeView::Address(address@),
        RecordData::A(octets)@ == DataView::A(octets@),
        RecordData::Aaaa(segments)@ == DataView::Aaaa(segments@),
        RecordData::Ptr(target)@ == DataView::Ptr(target@),
        RecordData::Empty(kind)@ == DataView::Empty(kind),
        RecordData::Other(kind)@ == DataView::Other(kind),
        RecordData::Txt(strings)@ matches DataView::Txt(seen) && seen.len() == strings@.len()
            && forall|i: int| 0 <= i < seen.len() ==> #[trigger] seen[i] == strings@[i]@,
        record@.name == record.name@,
        record@.class == record.class,
        record@.ttl == record.ttl,
        record@.data == record.data@,
        reply@.status == reply.status,
        reply.error is None <==> reply@.error is None,
        reply.token is None <==> reply@.token is None,
        reply.hostname is None <==> reply@.hostname is None,
        reply.address is None <==> reply@.address is None,
        reply.error is Some ==> reply@.error->Some_0 == reply.error->Some_0@,
        reply.token is Some ==> reply@.token->Some_0 == reply.token->Some_0@,
        reply.hostname is Some ==> reply@.hostname->Some_0 == reply.hostname->Some_0@,
        reply.address is Some ==> reply@.address->Some_0 == reply.address->Some_0@,
        error@ == (ErrorView { kind: error.kind, message: error.message@ }),
        crate::config::name_result(Ok(target)) == Ok::<Seq<Seq<u8>>, ErrorView>(target@),
        crate::config::name_result(Err(error)) == Err::<Seq<Seq<u8>>, ErrorView>(error@),
{
}

} // verus!
