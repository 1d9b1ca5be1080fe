//! IP addresses as text.

use hickory_client::proto::rr::rdata::{A, AAAA};
use vstd::prelude::*;

use crate::record::{Address, AddressView};

verus! {

/// A number below 256 in decimal, without leading zeros.
pub open spec fn decimal(n: u8) -> Seq<char> {
    let ones = (48 + n as int % 10) as char;
    let tens = (48 + (n as int / 10) % 10) as char;
    let hundreds = (48 + n as int / 100) as char;
    if n < 10 {
        seq![ones]
    } else if n < 100 {
        seq![tens, ones]
    } else {
        seq![hundreds, tens, ones]
    }
}

/// The text of an IPv4 address: its octets in decimal with dots between them.
pub open spec fn ipv4_text(octets: Seq<u8>) -> Seq<char> {
    decimal(octets[0]) + seq!['.'] + (decimal(octets[1]) + seq!['.'] + (decimal(octets[2]) + seq![
        '.',
    ] + decimal(octets[3])))
}

/// The octets of the IPv4 address with this text.
pub open spec fn ipv4_of(text: Seq<char>) -> Option<Seq<u8>> {
    if exists|o: Seq<u8>| o.len() == 4 && #[trigger] ipv4_text(o) == text {
        Some(choose|o: Seq<u8>| o.len() == 4 && #[trigger] ipv4_text(o) == text)
    } else {
        None
    }
}

/// The text that `AAAA` prints for an IPv6 address.
pub uninterp spec fn ipv6_text(segments: Seq<u16>) -> Seq<char>;

/// The segments of the IPv6 address that `AAAA` reads from a text.
pub uninterp spec fn ipv6_of(text: Seq<char>) -> Option<Seq<u16>>;

/// The text of an address.
pub open spec fn text_of(address: AddressView) -> Seq<char> {
    match address {
        AddressView::V4(octets) => ipv4_text(octets),
        AddressView::V6(segments) => ipv6_text(segments),
    }
}

/// The address with this text.
pub open spec fn address_of(text: Seq<char>) -> Option<AddressView> {
    match ipv4_of(text) {
        Some(octets) => Some(AddressView::V4(octets)),
        None => match ipv6_of(text) {
            Some(segments) => Some(AddressView::V6(segments)),
            None => None,
        },
    }
}

/// An address, if there is one.
pub open spec fn opt_address(address: Option<Address>) -> Option<AddressView> {
    match address {
        Some(address) => Some(address@),
        None => None,
    }
}

/// Prints an `A` of hickory-proto, which prints the standard library's
/// `Ipv4Addr`. Claimed: the text is the octets in decimal with dots between
/// them.
#[verifier::external_body]
fn print_ipv4(octets: &[u8; 4]) -> (r: String)
    ensures
        r@ == ipv4_text(octets@),
{
    A::new(octets[0], octets[1], octets[2], octets[3]).to_string()
}

/// Prints an `AAAA` of hickory-proto, which prints the standard library's
/// `Ipv6Addr`. Claimed: the text is a function of the segments. Which of the
/// forms of an IPv6 address it has is not described.
#[verifier::external_body]
fn print_ipv6(s: &[u16; 8]) -> (r: String)
    ensures
        r@ == ipv6_text(s@),
{
    AAAA::new(s[0], s[1], s[2], s[3], s[4], s[5], s[6], s[7]).to_string()
}

/// Parses an `A` of hickory-proto, which parses the standard library's
/// `Ipv4Addr`: four octets in decimal with dots between them, where neither
/// octal nor hexadecimal numbers are allowed. Claimed: an address comes back
/// just for its own text.
#[verifier::external_body]
fn parse_ipv4(text: &str) -> (r: Option<[u8; 4]>)
    ensures
        match r {
            Some(octets) => ipv4_text(octets@) == text@,
            None => forall|o: Seq<u8>| o.len() == 4 ==> #[trigger] ipv4_text(o) != text@,
        },
{
    match text.parse::<A>() {
        Ok(address) => Some(address.octets()),
        Err(_) => None,
    }
}

/// Parses an `AAAA` of hickory-proto, which parses the standard library's
/// `Ipv6Addr`. Claimed: the result is a function of the text. Which texts are
/// accepted is not described.
#[verifier::external_body]
fn parse_ipv6(text: &str) -> (r: Option<[u16; 8]>)
    ensures
        match r {
            Some(segments) => ipv6_of(text@) == Some(segments@),
            None => ipv6_of(text@) is None,
        },
{
    match text.parse::<AAAA>() {
        Ok(address) => Some(address.segments()),
        Err(_) => None,
    }
}

impl Address {
    /// The address as text.
    pub fn to_text(&self) -> (r: String)
        ensures
            r@ == text_of(self@),
    {
        match self {
            Address::V4(octets) => print_ipv4(octets),
            Address::V6(segments) => print_ipv6(segments),
        }
    }

    /// The address with this text.
    pub fn from_text(text: &str) -> (r: Option<Address>)
        ensures
            opt_address(r) == address_of(text@),
    {
        if let Some(octets) = parse_ipv4(text) {
            proof {
                assert(ipv4_of(text@) is Some);
                lemma_ipv4_injective(octets@, ipv4_of(text@)->Some_0);
            }
            return Some(Address::V4(octets));
        }
        match parse_ipv6(text) {
            Some(segments) => Some(Address::V6(segments)),
            None => None,
        }
    }
}

/// A number in decimal has no dots, and different numbers differ in decimal.
proof fn lemma_decimal(a: u8, b: u8)
    ensures
        !decimal(a).contains('.'),
        decimal(a) == decimal(b) ==> a == b,
{
    let x = decimal(a);
    let y = decimal(b);
    if x == y {
        assert(x.len() == y.len());
        assert(x[0] == y[0] && x[x.len() - 1] == y[y.len() - 1]);
        assert(a >= 100 ==> x[1] == y[1]);
    }
}

/// The pieces of an IPv4 address's text are its octets.
proof fn lemma_ipv4_pieces(octets: Seq<u8>)
    ensures
        crate::name::split_dots(ipv4_text(octets)) == seq![
            decimal(octets[0]),
            decimal(octets[1]),
            decimal(octets[2]),
            decimal(octets[3]),
        ],
{
    let d = decimal(octets[3]);
    let cd = decimal(octets[2]) + seq!['.'] + d;
    let bcd = decimal(octets[1]) + seq!['.'] + cd;
    lemma_decimal(octets[0], 0);
    lemma_decimal(octets[1], 0);
    lemma_decimal(octets[2], 0);
    lemma_decimal(octets[3], 0);
    crate::name::lemma_split_prefix(decimal(octets[2]), d);
    crate::name::lemma_split_prefix(decimal(octets[1]), cd);
    crate::name::lemma_split_prefix(decimal(octets[0]), bcd);
    assert(crate::name::split_dots(ipv4_text(octets)) =~= seq![
        decimal(octets[0]),
        decimal(octets[1]),
        decimal(octets[2]),
        decimal(octets[3]),
    ]);
}

/// The text of an IPv4 address is that of one address only.
pub proof fn lemma_ipv4_injective(a: Seq<u8>, b: Seq<u8>)
    requires
        a.len() == 4,
        b.len() == 4,
        ipv4_text(a) == ipv4_text(b),
    ensures
        a == b,
{
    lemma_ipv4_pieces(a);
    lemma_ipv4_pieces(b);
    let x = crate::name::split_dots(ipv4_text(a));
    let y = crate::name::split_dots(ipv4_text(b));
    assert(x[0] == y[0] && x[1] == y[1] && x[2] == y[2] && x[3] == y[3]);
    lemma_decimal(a[0], b[0]);
    lemma_decimal(a[1], b[1]);
    lemma_decimal(a[2], b[2]);
    lemma_decimal(a[3], b[3]);
    assert(a =~= b);
}

} // verus!
