//! Dynamic update messages (RFC 2136) and the three that the service sends.
//!
//! The record type of hickory-proto is generic over a trait of that crate, so a
//! record is built and put into a set, which the contracts can speak of, in one
//! function.

use hickory_client::proto::op::update_message::{self, UpdateMessage};
use hickory_client::proto::op::Message;
use hickory_client::proto::rr::rdata::{A, AAAA, PTR, TXT};
use hickory_client::proto::rr::{Name, RData, Record, RecordSet};
use vstd::prelude::*;

use crate::name::DnsName;
use crate::record::{
    marker, Address, AddressView, DataView, RecordView, CLASS_ANY, CLASS_IN, CLASS_NONE,
    RECORD_TTL, TYPE_A, TYPE_AAAA, TYPE_ANY, TYPE_PTR, TYPE_SOA,
};

verus! {

/// The update message of hickory-proto.
#[verifier::external_type_specification]
#[verifier::external_body]
pub struct ExMessage(Message);

/// The record set of hickory-proto.
#[verifier::external_type_specification]
#[verifier::external_body]
pub struct ExRecordSet(RecordSet);

/// What a record set holds: the name, the type and the class that its records
/// share, and the records.
pub struct RecordSetView {
    pub name: Seq<Seq<u8>>,
    pub kind: u16,
    pub class: u16,
    pub records: Seq<RecordView>,
}

/// The operation code of updates.
pub const OPCODE_UPDATE: u8 = 5;

/// The payload size that updates announce.
pub const EDNS_PAYLOAD: u16 = 1232;

/// What the EDNS section of a message says: the high bits of the response code,
/// the version, whether DNSSEC is asked for, the other flags, the payload size
/// and how many options there are.
pub struct EdnsView {
    pub code_high: u8,
    pub version: u8,
    pub dnssec_ok: bool,
    pub flags: u16,
    pub payload: u16,
    pub options: nat,
}

/// What an update message holds: its operation code, the zone with the type and
/// the class that it is named by, the records of the prerequisite section, those
/// of the update section, those of the additional section, its signatures, and
/// its EDNS section if there is one.
pub struct UpdateView {
    pub opcode: u8,
    pub zone: Seq<Seq<u8>>,
    pub kind: u16,
    pub class: u16,
    pub prerequisites: Seq<RecordView>,
    pub updates: Seq<RecordView>,
    pub additionals: Seq<RecordView>,
    pub signatures: Seq<RecordView>,
    pub edns: Option<EdnsView>,
}

/// What the header of a message says besides the operation code: the
/// identifier, whether the message is a response, the flags and the response
/// code.
pub struct HeaderView {
    pub id: u16,
    pub response: bool,
    pub authoritative: bool,
    pub truncated: bool,
    pub recursion_desired: bool,
    pub recursion_available: bool,
    pub authentic_data: bool,
    pub checking_disabled: bool,
    pub code: u16,
}

/// The EDNS section of updates, where they are to have one.
pub open spec fn update_edns(use_edns: bool) -> Option<EdnsView> {
    if use_edns {
        Some(
            EdnsView {
                code_high: 0,
                version: 0,
                dnssec_ok: false,
                flags: 0,
                payload: EDNS_PAYLOAD,
                options: 0,
            },
        )
    } else {
        None
    }
}

/// Whether a header is that of a plain request, whatever its identifier is.
pub open spec fn is_request(header: HeaderView) -> bool {
    header == (HeaderView {
        id: header.id,
        response: false,
        authoritative: false,
        truncated: false,
        recursion_desired: false,
        recursion_available: false,
        authentic_data: false,
        checking_disabled: false,
        code: 0,
    })
}

/// What a record set holds.
pub uninterp spec fn record_set_view(set: RecordSet) -> RecordSetView;

/// What an update message holds.
pub uninterp spec fn message_view(message: Message) -> UpdateView;

/// What the header of a message says.
pub uninterp spec fn message_header(message: Message) -> HeaderView;

/// The record set of a single record.
pub open spec fn singleton(record: RecordView) -> RecordSetView {
    RecordSetView {
        name: record.name,
        kind: crate::record::kind_of(record.data),
        class: record.class,
        records: seq![record],
    }
}

/// Calls `Record::from_rdata` with PTR data, `Record::set_dns_class` and
/// `RecordSet::from` of hickory-proto. Claimed: the set holds just the record
/// with this name, class, time to live and target.
#[verifier::external_body]
fn ptr_record(name: &DnsName, class: u16, ttl: u32, target: &DnsName) -> (r: RecordSet)
    requires
        crate::name::valid_labels(name@),
        crate::name::valid_labels(target@),
    ensures
        record_set_view(r) == singleton(
            RecordView { name: name@, class, ttl, data: DataView::Ptr(target@) },
        ),
{
    let name = Name::from_labels(name.labels.clone()).expect("the labels of a name");
    let target = Name::from_labels(target.labels.clone()).expect("the labels of a name");
    let mut record = Record::from_rdata(name, ttl, RData::PTR(PTR(target)));
    record.set_dns_class(class.into());
    RecordSet::from(record)
}

/// Calls `Record::from_rdata` with TXT data, `Record::set_dns_class` and
/// `RecordSet::from` of hickory-proto. Claimed: the set holds just the record
/// with this name, class, time to live and character strings.
#[verifier::external_body]
fn txt_record(name: &DnsName, class: u16, ttl: u32, strings: &Vec<Vec<u8>>) -> (r: RecordSet)
    requires
        crate::name::valid_labels(name@),
    ensures
        record_set_view(r) == singleton(
            RecordView {
                name: name@,
                class,
                ttl,
                data: DataView::Txt(crate::name::byte_strings(strings@)),
            },
        ),
{
    let name = Name::from_labels(name.labels.clone()).expect("the labels of a name");
    let strings = strings.iter().map(|string| string.as_slice()).collect();
    let mut record = Record::from_rdata(name, ttl, RData::TXT(TXT::from_bytes(strings)));
    record.set_dns_class(class.into());
    RecordSet::from(record)
}

/// Calls `Record::from_rdata` with A data, `Record::set_dns_class` and
/// `RecordSet::from` of hickory-proto. Claimed: the set holds just the record
/// with this name, class, time to live and IPv4 address.
#[verifier::external_body]
fn a_record(name: &DnsName, class: u16, ttl: u32, ip: &[u8; 4]) -> (r: RecordSet)
    requires
        crate::name::valid_labels(name@),
    ensures
        record_set_view(r) == singleton(
            RecordView { name: name@, class, ttl, data: DataView::A(ip@) },
        ),
{
    let name = Name::from_labels(name.labels.clone()).expect("the labels of a name");
    let data = RData::A(A::new(ip[0], ip[1], ip[2], ip[3]));
    let mut record = Record::from_rdata(name, ttl, data);
    record.set_dns_class(class.into());
    RecordSet::from(record)
}

/// Calls `Record::from_rdata` with AAAA data, `Record::set_dns_class` and
/// `RecordSet::from` of hickory-proto. Claimed: the set holds just the record
/// with this name, class, time to live and IPv6 address.
#[verifier::external_body]
fn aaaa_record(name: &DnsName, class: u16, ttl: u32, ip: &[u16; 8]) -> (r: RecordSet)
    requires
        crate::name::valid_labels(name@),
    ensures
        record_set_view(r) == singleton(
            RecordView { name: name@, class, ttl, data: DataView::Aaaa(ip@) },
        ),
{
    let name = Name::from_labels(name.labels.clone()).expect("the labels of a name");
    let data = AAAA::new(ip[0], ip[1], ip[2], ip[3], ip[4], ip[5], ip[6], ip[7]);
    let mut record = Record::from_rdata(name, ttl, RData::AAAA(data));
    record.set_dns_class(class.into());
    RecordSet::from(record)
}

/// Calls `Record::update0`, `Record::set_dns_class` and `RecordSet::from` of
/// hickory-proto. Claimed: the set holds just the record with this name, class,
/// time to live and type, and without data.
#[verifier::external_body]
fn empty_record(name: &DnsName, class: u16, ttl: u32, kind: u16) -> (r: RecordSet)
    requires
        crate::name::valid_labels(name@),
    ensures
        record_set_view(r) == singleton(
            RecordView { name: name@, class, ttl, data: DataView::Empty(kind) },
        ),
{
    let name = Name::from_labels(name.labels.clone()).expect("the labels of a name");
    let mut record = Record::update0(name, ttl, kind.into());
    record.set_dns_class(class.into());
    RecordSet::from(record.into_record_of_rdata())
}

/// Calls `update_message::create` of hickory-proto, which panics unless the
/// set's name lies in the zone.
///
/// Claimed: the message is for this zone in the set's class, asks that no
/// record with the set's name and type exist, and adds the records of the set. It
/// is a request with a random identifier and holds nothing else.
#[verifier::external_body]
fn create(set: RecordSet, zone: &DnsName, use_edns: bool) -> (r: Message)
    requires
        crate::name::valid_labels(zone@),
        crate::name::zone_of(zone@, record_set_view(set).name),
    ensures
        message_view(r) == (UpdateView {
            opcode: OPCODE_UPDATE,
            zone: zone@,
            kind: TYPE_SOA,
            class: record_set_view(set).class,
            prerequisites: seq![
                RecordView {
                    name: record_set_view(set).name,
                    class: CLASS_NONE,
                    ttl: 0,
                    data: DataView::Empty(record_set_view(set).kind),
                },
            ],
            updates: record_set_view(set).records,
            additionals: Seq::empty(),
            signatures: Seq::empty(),
            edns: update_edns(use_edns),
        }),
        is_request(message_header(r)),
{
    let zone = Name::from_labels(zone.labels.clone()).expect("the labels of a name");
    update_message::create(set, zone, use_edns)
}

/// Calls `update_message::delete_rrset` of hickory-proto on the record that
/// `Record::update0` makes of this name and type; it panics unless the name
/// lies in the zone.
///
/// Claimed: the message is for this zone in the class of the Internet, asks
/// nothing, and deletes the records with this name and type. It is a request
/// with a random identifier and holds nothing else.
#[verifier::external_body]
fn delete_rrset(name: &DnsName, kind: u16, zone: &DnsName, use_edns: bool) -> (r: Message)
    requires
        crate::name::valid_labels(name@),
        crate::name::valid_labels(zone@),
        crate::name::zone_of(zone@, name@),
    ensures
        message_view(r) == (UpdateView {
            opcode: OPCODE_UPDATE,
            zone: zone@,
            kind: TYPE_SOA,
            class: CLASS_IN,
            prerequisites: Seq::empty(),
            updates: seq![
                RecordView { name: name@, class: CLASS_ANY, ttl: 0, data: DataView::Empty(kind) },
            ],
            additionals: Seq::empty(),
            signatures: Seq::empty(),
            edns: update_edns(use_edns),
        }),
        is_request(message_header(r)),
{
    let name = Name::from_labels(name.labels.clone()).expect("the labels of a name");
    let zone = Name::from_labels(zone.labels.clone()).expect("the labels of a name");
    update_message::delete_rrset(Record::update0(name, 0, kind.into()), zone, use_edns)
}

/// Calls `update_message::delete_all` of hickory-proto, which panics unless the
/// name lies in the zone.
///
/// Claimed: the message is for this zone in this class, asks nothing, and
/// deletes every record with this name. It is a request with a random
/// identifier and holds nothing else.
#[verifier::external_body]
fn delete_all(name: &DnsName, zone: &DnsName, class: u16, use_edns: bool) -> (r: Message)
    requires
        crate::name::valid_labels(name@),
        crate::name::valid_labels(zone@),
        crate::name::zone_of(zone@, name@),
    ensures
        message_view(r) == (UpdateView {
            opcode: OPCODE_UPDATE,
            zone: zone@,
            kind: TYPE_SOA,
            class,
            prerequisites: Seq::empty(),
            updates: seq![
                RecordView {
                    name: name@,
                    class: CLASS_ANY,
                    ttl: 0,
                    data: DataView::Empty(TYPE_ANY),
                },
            ],
            additionals: Seq::empty(),
            signatures: Seq::empty(),
            edns: update_edns(use_edns),
        }),
        is_request(message_header(r)),
{
    let name = Name::from_labels(name.labels.clone()).expect("the labels of a name");
    let zone = Name::from_labels(zone.labels.clone()).expect("the labels of a name");
    update_message::delete_all(name, zone, class.into(), use_edns)
}

/// Calls `UpdateMessage::add_pre_requisites` of hickory-proto. Claimed: the
/// records of the set are put behind the prerequisites, and nothing else changes.
#[verifier::external_body]
fn add_prerequisites(message: &mut Message, set: RecordSet)
    ensures
        message_view(*final(message)) == (UpdateView {
            prerequisites: message_view(*old(message)).prerequisites + record_set_view(
                set,
            ).records,
            ..message_view(*old(message))
        }),
        message_header(*final(message)) == message_header(*old(message)),
{
    message.add_pre_requisites(set);
}

/// Calls `UpdateMessage::add_updates` of hickory-proto. Claimed: the records of
/// the set are put behind the updates, and nothing else changes.
#[verifier::external_body]
fn add_updates(message: &mut Message, set: RecordSet)
    ensures
        message_view(*final(message)) == (UpdateView {
            updates: message_view(*old(message)).updates + record_set_view(set).records,
            ..message_view(*old(message))
        }),
        message_header(*final(message)) == message_header(*old(message)),
{
    message.add_updates(set);
}

/// The record that says no record with this name and type may exist.
pub open spec fn absent(name: Seq<Seq<u8>>, kind: u16) -> RecordView {
    RecordView { name, class: CLASS_NONE, ttl: 0, data: DataView::Empty(kind) }
}

/// The record that deletes all records with this name and type.
pub open spec fn cleared(name: Seq<Seq<u8>>, kind: u16) -> RecordView {
    RecordView { name, class: CLASS_ANY, ttl: 0, data: DataView::Empty(kind) }
}

/// A record of the Internet class.
pub open spec fn internet(name: Seq<Seq<u8>>, ttl: u32, data: DataView) -> RecordView {
    RecordView { name, class: CLASS_IN, ttl, data }
}

/// The records that must be in place when a holder of the credential acts: the
/// credential points to the hostname, and the hostname is marked.
pub open spec fn authorization(
    ptr_name: Seq<Seq<u8>>,
    hostname: Seq<Seq<u8>>,
) -> Seq<RecordView> {
    seq![
        internet(ptr_name, 0, DataView::Ptr(hostname)),
        internet(hostname, 0, crate::record::marker_data()),
    ]
}

/// The update that reserves a hostname and stores its credential.
pub open spec fn creation(
    zone: Seq<Seq<u8>>,
    ptr_name: Seq<Seq<u8>>,
    hostname: Seq<Seq<u8>>,
) -> UpdateView {
    UpdateView {
        opcode: OPCODE_UPDATE,
        zone,
        kind: TYPE_SOA,
        class: CLASS_IN,
        prerequisites: seq![
            absent(hostname, crate::record::TYPE_TXT),
            absent(ptr_name, TYPE_PTR),
        ],
        updates: seq![
            internet(hostname, RECORD_TTL, crate::record::marker_data()),
            internet(ptr_name, RECORD_TTL, DataView::Ptr(hostname)),
        ],
        additionals: Seq::empty(),
        signatures: Seq::empty(),
        edns: update_edns(true),
    }
}

/// The update that replaces the addresses of one family.
pub open spec fn readdressing(
    zone: Seq<Seq<u8>>,
    ptr_name: Seq<Seq<u8>>,
    hostname: Seq<Seq<u8>>,
    address: AddressView,
) -> UpdateView {
    UpdateView {
        opcode: OPCODE_UPDATE,
        zone,
        kind: TYPE_SOA,
        class: CLASS_IN,
        prerequisites: authorization(ptr_name, hostname),
        updates: seq![
            cleared(hostname, crate::record::kind_of(crate::record::address_data(address))),
            internet(hostname, RECORD_TTL, crate::record::address_data(address)),
        ],
        additionals: Seq::empty(),
        signatures: Seq::empty(),
        edns: update_edns(true),
    }
}

/// The update that removes a hostname and its credential.
pub open spec fn removal(
    zone: Seq<Seq<u8>>,
    ptr_name: Seq<Seq<u8>>,
    hostname: Seq<Seq<u8>>,
) -> UpdateView {
    UpdateView {
        opcode: OPCODE_UPDATE,
        zone,
        kind: TYPE_SOA,
        class: CLASS_IN,
        prerequisites: authorization(ptr_name, hostname),
        updates: seq![cleared(hostname, TYPE_ANY), cleared(ptr_name, TYPE_ANY)],
        additionals: Seq::empty(),
        signatures: Seq::empty(),
        edns: update_edns(true),
    }
}

/// The character strings of the record that marks a hostname.
fn marker_strings() -> (r: Vec<Vec<u8>>)
    ensures
        crate::name::byte_strings(r@) == seq![crate::record::marker_text()],
{
    let mut r: Vec<Vec<u8>> = Vec::new();
    r.push(marker());
    assert(crate::name::byte_strings(r@) =~= seq![crate::record::marker_text()]);
    r
}

/// Makes a message depend on the credential and the marker being in place.
pub fn authorization_prerequisites(message: &mut Message, ptr_name: &DnsName, hostname: &DnsName)
    ensures
        message_view(*final(message)) == (UpdateView {
            prerequisites: message_view(*old(message)).prerequisites + authorization(
                ptr_name@,
                hostname@,
            ),
            ..message_view(*old(message))
        }),
        message_header(*final(message)) == message_header(*old(message)),
{
    proof {
        use_type_invariant(ptr_name);
        use_type_invariant(hostname);
    }
    let ghost before = message_view(*message).prerequisites;
    add_prerequisites(message, ptr_record(ptr_name, CLASS_IN, 0, hostname));
    add_prerequisites(message, txt_record(hostname, CLASS_IN, 0, &marker_strings()));
    assert(message_view(*message).prerequisites =~= before + authorization(ptr_name@, hostname@));
}

/// The message that reserves a hostname and stores its credential.
pub fn create_message(zone: &DnsName, ptr_name: &DnsName, hostname: &DnsName) -> (r: Message)
    requires
        crate::name::zone_of(zone@, hostname@),
    ensures
        message_view(r) == creation(zone@, ptr_name@, hostname@),
        is_request(message_header(r)),
{
    proof {
        use_type_invariant(zone);
        use_type_invariant(ptr_name);
        use_type_invariant(hostname);
    }
    let mut message = create(
        txt_record(hostname, CLASS_IN, RECORD_TTL, &marker_strings()),
        zone,
        true,
    );
    add_prerequisites(&mut message, empty_record(ptr_name, CLASS_NONE, 0, TYPE_PTR));
    add_updates(&mut message, ptr_record(ptr_name, CLASS_IN, RECORD_TTL, hostname));
    let ghost made = message_view(message);
    let ghost wanted = creation(zone@, ptr_name@, hostname@);
    assert(made.prerequisites =~= wanted.prerequisites);
    assert(made.updates =~= wanted.updates);
    message
}

/// The message that replaces the addresses of one family.
pub fn address_message(
    zone: &DnsName,
    ptr_name: &DnsName,
    hostname: &DnsName,
    address: &Address,
) -> (r: Message)
    requires
        crate::name::zone_of(zone@, hostname@),
    ensures
        message_view(r) == readdressing(zone@, ptr_name@, hostname@, address@),
        is_request(message_header(r)),
{
    proof {
        use_type_invariant(zone);
        use_type_invariant(hostname);
    }
    let kind: u16 = match address {
        Address::V4(_) => TYPE_A,
        Address::V6(_) => TYPE_AAAA,
    };
    let mut message = delete_rrset(hostname, kind, zone, true);
    authorization_prerequisites(&mut message, ptr_name, hostname);
    let set = match address {
        Address::V4(ip) => a_record(hostname, CLASS_IN, RECORD_TTL, ip),
        Address::V6(ip) => aaaa_record(hostname, CLASS_IN, RECORD_TTL, ip),
    };
    add_updates(&mut message, set);
    let ghost made = message_view(message);
    let ghost wanted = readdressing(zone@, ptr_name@, hostname@, address@);
    assert(made.prerequisites =~= wanted.prerequisites);
    assert(made.updates =~= wanted.updates);
    message
}

/// The message that removes a hostname and its credential.
pub fn delete_message(zone: &DnsName, ptr_name: &DnsName, hostname: &DnsName) -> (r: Message)
    requires
        crate::name::zone_of(zone@, hostname@),
    ensures
        message_view(r) == removal(zone@, ptr_name@, hostname@),
        is_request(message_header(r)),
{
    proof {
        use_type_invariant(zone);
        use_type_invariant(ptr_name);
        use_type_invariant(hostname);
    }
    let mut message = delete_all(hostname, zone, CLASS_IN, true);
    authorization_prerequisites(&mut message, ptr_name, hostname);
    add_updates(&mut message, empty_record(ptr_name, CLASS_ANY, 0, TYPE_ANY));
    let ghost made = message_view(message);
    let ghost wanted = removal(zone@, ptr_name@, hostname@);
    assert(made.prerequisites =~= wanted.prerequisites);
    assert(made.updates =~= wanted.updates);
    message
}

} // verus!
