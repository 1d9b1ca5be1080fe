//! What comes back from the DNS server and what it means.

use vstd::prelude::*;

use crate::error::{DdnsError, ErrorKind, ErrorView};
use crate::record::{DnsRecord, RecordView};

verus! {

/// A response code of DNS: its number and its description.
pub struct ResponseCode {
    pub code: u16,
    pub text: String,
}

/// The response code for success.
pub const NO_ERROR: u16 = 0;

/// The response code for a name that does not exist.
pub const NX_DOMAIN: u16 = 3;

/// The response code for a name that exists and should not.
pub const YX_DOMAIN: u16 = 6;

/// The response code for records that exist and should not.
pub const YX_RRSET: u16 = 7;

/// The response code for records that should exist and do not.
pub const NX_RRSET: u16 = 8;

/// What came of a question to the DNS server.
pub enum QueryReply {
    /// No answer came, for the reason given.
    Failed(String),
    /// The server answered with this code and these records.
    Answered(ResponseCode, Vec<DnsRecord>),
}

/// What came of an update sent to the DNS server.
pub enum UpdateReply {
    /// The server sent no response.
    Missing,
    /// Sending failed, for the reason given.
    Failed(String),
    /// The server answered with this code.
    Answered(ResponseCode),
}

/// The records that a question brought, or the failure.
pub open spec fn answers_of(reply: QueryReply) -> Result<Seq<RecordView>, ErrorView> {
    match reply {
        QueryReply::Failed(reason) => Err(crate::error::other(reason@)),
        QueryReply::Answered(code, records) => {
            if code.code == NO_ERROR {
                Ok(crate::record::record_views(records@))
            } else if code.code == NX_DOMAIN {
                Ok(Seq::empty())
            } else {
                Err(crate::error::other("DNS query failed with "@ + code.text@))
            }
        },
    }
}

/// Whether an update went through, or the failure.
pub open spec fn update_result(reply: UpdateReply) -> Result<(), ErrorView> {
    match reply {
        UpdateReply::Missing => Err(crate::error::other("DNS server returned no response"@)),
        UpdateReply::Failed(reason) => Err(crate::error::other(reason@)),
        UpdateReply::Answered(code) => {
            if code.code == NO_ERROR {
                Ok(())
            } else if code.code == YX_DOMAIN || code.code == YX_RRSET {
                Err(
                    ErrorView {
                        kind: ErrorKind::AlreadyExists,
                        message: "DNS name or record already exists"@,
                    },
                )
            } else if code.code == NX_DOMAIN || code.code == NX_RRSET {
                Err(crate::error::denied("DNS authorization prerequisite no longer exists"@))
            } else {
                Err(crate::error::other("DNS update failed with "@ + code.text@))
            }
        },
    }
}

/// The records that a question to the DNS server brought.
pub fn query(reply: QueryReply) -> (r: Result<Vec<DnsRecord>, DdnsError>)
    ensures
        match r {
            Ok(records) => answers_of(reply) == Ok::<Seq<RecordView>, ErrorView>(
                crate::record::record_views(records@),
            ),
            Err(e) => answers_of(reply) == Err::<Seq<RecordView>, ErrorView>(e@),
        },
{
    match reply {
        QueryReply::Failed(reason) => Err(DdnsError::other(reason)),
        QueryReply::Answered(code, records) => {
            if code.code == NO_ERROR {
                Ok(records)
            } else if code.code == NX_DOMAIN {
                let none: Vec<DnsRecord> = Vec::new();
                assert(crate::record::record_views(none@) =~= Seq::empty());
                Ok(none)
            } else {
                Err(
                    DdnsError::other(
                        "DNS query failed with ".to_owned().concat(code.text.as_str()),
                    ),
                )
            }
        },
    }
}

/// Whether an update sent to the DNS server went through.
pub fn send_update(reply: UpdateReply) -> (r: Result<(), DdnsError>)
    ensures
        match r {
            Ok(_) => update_result(reply) is Ok,
            Err(e) => update_result(reply) == Err::<(), ErrorView>(e@),
        },
{
    match reply {
        UpdateReply::Missing => Err(
            DdnsError::other("DNS server returned no response".to_owned()),
        ),
        UpdateReply::Failed(reason) => Err(DdnsError::other(reason)),
        UpdateReply::Answered(code) => {
            if code.code == NO_ERROR {
                Ok(())
            } else if code.code == YX_DOMAIN || code.code == YX_RRSET {
                Err(
                    DdnsError {
                        kind: ErrorKind::AlreadyExists,
                        message: "DNS name or record already exists".to_owned(),
                    },
                )
            } else if code.code == NX_DOMAIN || code.code == NX_RRSET {
                Err(DdnsError::permission_denied("DNS authorization prerequisite no longer exists"))
            } else {
                Err(
                    DdnsError::other(
                        "DNS update failed with ".to_owned().concat(code.text.as_str()),
                    ),
                )
            }
        },
    }
}

} // verus!
