//! What the client is told.

use vstd::prelude::*;

use crate::error::{DdnsError, ErrorKind, ErrorView};

verus! {

/// The HTTP status of a request that was carried out.
pub const STATUS_OK: u16 = 200;

/// The HTTP status of a request that makes no sense.
pub const STATUS_BAD_REQUEST: u16 = 400;

/// The HTTP status of a request without a valid credential.
pub const STATUS_UNAUTHORIZED: u16 = 401;

/// The HTTP status of a request for a hostname that is taken.
pub const STATUS_CONFLICT: u16 = 409;

/// The HTTP status of a request that the DNS server did not serve.
pub const STATUS_BAD_GATEWAY: u16 = 502;

/// What an HTTP response says. The field `error` is always sent, as null where
/// there is no error; the other fields are sent where they hold a text.
pub struct ReplyView {
    pub status: u16,
    pub error: Option<Seq<char>>,
    pub token: Option<Seq<char>>,
    pub hostname: Option<Seq<char>>,
    pub address: Option<Seq<char>>,
}

/// An HTTP response. The field `error` is always sent, as null where there is
/// no error; the other fields are sent where they hold a text.
pub struct Reply {
    pub status: u16,
    pub error: Option<String>,
    pub token: Option<String>,
    pub hostname: Option<String>,
    pub address: Option<String>,
}

/// The text that an optional string holds.
pub open spec fn opt_text(s: Option<String>) -> Option<Seq<char>> {
    match s {
        Some(s) => Some(s@),
        None => None,
    }
}

impl View for Reply {
    type V = ReplyView;

    open spec fn view(&self) -> ReplyView {
        ReplyView {
            status: self.status,
            error: opt_text(self.error),
            token: opt_text(self.token),
            hostname: opt_text(self.hostname),
            address: opt_text(self.address),
        }
    }
}

/// The response that tells of a failure.
pub open spec fn refusal(status: u16, message: Seq<char>) -> ReplyView {
    ReplyView { status, error: Some(message), token: None, hostname: None, address: None }
}

/// The response to a failure of this kind.
pub open spec fn error_reply(error: ErrorView) -> ReplyView {
    let status = match error.kind {
        ErrorKind::PermissionDenied => STATUS_UNAUTHORIZED,
        ErrorKind::AlreadyExists => STATUS_CONFLICT,
        ErrorKind::Other => STATUS_BAD_GATEWAY,
    };
    refusal(status, error.message)
}

/// The response that tells of a failure.
pub fn json_error(status: u16, message: String) -> (r: Reply)
    ensures
        r@ == refusal(status, message@),
{
    Reply { status, error: Some(message), token: None, hostname: None, address: None }
}

/// The response to a failure.
pub fn dns_error_response(error: DdnsError) -> (r: Reply)
    ensures
        r@ == error_reply(error@),
{
    let status: u16 = match error.kind {
        ErrorKind::PermissionDenied => STATUS_UNAUTHORIZED,
        ErrorKind::AlreadyExists => STATUS_CONFLICT,
        ErrorKind::Other => STATUS_BAD_GATEWAY,
    };
    json_error(status, error.message)
}

} // verus!
