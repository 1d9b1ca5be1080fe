//! Resource records as plain values.

use vstd::prelude::*;

use crate::name::{byte_strings, DnsName};

verus! {

/// The type code of IPv4 address records.
pub const TYPE_A: u16 = 1;

/// The type code of alias records.
pub const TYPE_CNAME: u16 = 5;

/// The type code of start-of-authority records, by which an update names its
/// zone.
pub const TYPE_SOA: u16 = 6;

/// The type code of pointer records.
pub const TYPE_PTR: u16 = 12;

/// The type code of text records.
pub const TYPE_TXT: u16 = 16;

/// The type code of IPv6 address records.
pub const TYPE_AAAA: u16 = 28;

/// The type code that stands for every type in an update.
pub const TYPE_ANY: u16 = 255;

/// The class code of the Internet.
pub const CLASS_IN: u16 = 1;

/// The class code that negates a record of an update.
pub const CLASS_NONE: u16 = 254;

/// The class code that stands for every class in an update.
pub const CLASS_ANY: u16 = 255;

/// The time to live, in seconds, of the records that the service creates.
pub const RECORD_TTL: u32 = 60;

/// The text `ddns=1`, which marks a hostname as one of the service's own.
pub open spec fn marker_text() -> Seq<u8> {
    seq![100u8, 100u8, 110u8, 115u8, 61u8, 49u8]
}

/// An IP address: the octets of an IPv4 address or the segments of an IPv6
/// address.
pub enum Address {
    V4([u8; 4]),
    V6([u16; 8]),
}

/// An IP address: the octets of an IPv4 address or the segments of an IPv6
/// address.
pub enum AddressView {
    V4(Seq<u8>),
    V6(Seq<u16>),
}

impl View for Address {
    type V = AddressView;

    open spec fn view(&self) -> AddressView {
        match self {
            Address::V4(octets) => AddressView::V4(octets@),
            Address::V6(segments) => AddressView::V6(segments@),
        }
    }
}

/// What the data of a record says.
pub enum DataView {
    Ptr(Seq<Seq<u8>>),
    Txt(Seq<Seq<u8>>),
    A(Seq<u8>),
    Aaaa(Seq<u16>),
    Empty(u16),
    Other(u16),
}

/// A record: its owner name, its class, its time to live and its data.
pub struct RecordView {
    pub name: Seq<Seq<u8>>,
    pub class: u16,
    pub ttl: u32,
    pub data: DataView,
}

/// The type code of a record with this data.
pub open spec fn kind_of(data: DataView) -> u16 {
    match data {
        DataView::Ptr(_) => TYPE_PTR,
        DataView::Txt(_) => TYPE_TXT,
        DataView::A(_) => TYPE_A,
        DataView::Aaaa(_) => TYPE_AAAA,
        DataView::Empty(kind) => kind,
        DataView::Other(kind) => kind,
    }
}

/// The data of an address record.
pub open spec fn address_data(address: AddressView) -> DataView {
    match address {
        AddressView::V4(octets) => DataView::A(octets),
        AddressView::V6(segments) => DataView::Aaaa(segments),
    }
}

/// The data of the record that marks a hostname.
pub open spec fn marker_data() -> DataView {
    DataView::Txt(seq![marker_text()])
}

/// The data of a record: a name, character strings, an address, none at all
/// (then the record has just this type), or data of another type.
pub enum RecordData {
    Ptr(DnsName),
    Txt(Vec<Vec<u8>>),
    A([u8; 4]),
    Aaaa([u16; 8]),
    Empty(u16),
    Other(u16),
}

impl View for RecordData {
    type V = DataView;

    open spec fn view(&self) -> DataView {
        match self {
            RecordData::Ptr(target) => DataView::Ptr(target@),
            RecordData::Txt(strings) => DataView::Txt(byte_strings(strings@)),
            RecordData::A(octets) => DataView::A(octets@),
            RecordData::Aaaa(segments) => DataView::Aaaa(segments@),
            RecordData::Empty(kind) => DataView::Empty(*kind),
            RecordData::Other(kind) => DataView::Other(*kind),
        }
    }
}

/// A resource record.
pub struct DnsRecord {
    pub name: DnsName,
    pub class: u16,
    pub ttl: u32,
    pub data: RecordData,
}

impl View for DnsRecord {
    type V = RecordView;

    open spec fn view(&self) -> RecordView {
        RecordView { name: self.name@, class: self.class, ttl: self.ttl, data: self.data@ }
    }
}

/// The records that a vector holds.
pub open spec fn record_views(v: Seq<DnsRecord>) -> Seq<RecordView> {
    v.map_values(|r: DnsRecord| r@)
}

/// The text that marks a hostname.
pub fn marker() -> (r: Vec<u8>)
    ensures
        r@ == marker_text(),
{
    vec![100, 100, 110, 115, 61, 49]
}

} // verus!
