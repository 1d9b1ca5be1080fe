//! Failures and what they are called.

use vstd::prelude::*;

verus! {

/// What a failure means for the client.
#[derive(Debug, Clone, Copy, PartialEq, Eq, Structural)]
pub enum ErrorKind {
    /// The client may not do this.
    PermissionDenied,
    /// The hostname is taken.
    AlreadyExists,
    /// The DNS server or the configuration is at fault.
    Other,
}

/// What a failure says.
pub struct ErrorView {
    pub kind: ErrorKind,
    pub message: Seq<char>,
}

/// A failure.
#[derive(Debug)]
pub struct DdnsError {
    pub kind: ErrorKind,
    pub message: String,
}

impl View for DdnsError {
    type V = ErrorView;

    open spec fn view(&self) -> ErrorView {
        ErrorView { kind: self.kind, message: self.message@ }
    }
}

/// The refusal of a request, in these words.
pub open spec fn denied(message: Seq<char>) -> ErrorView {
    ErrorView { kind: ErrorKind::PermissionDenied, message }
}

/// A failure that is not the client's doing, in these words.
pub open spec fn other(message: Seq<char>) -> ErrorView {
    ErrorView { kind: ErrorKind::Other, message }
}

impl DdnsError {
    /// The refusal of a request, in these words.
    pub fn permission_denied(message: &str) -> (r: DdnsError)
        ensures
            r@ == denied(message@),
    {
        DdnsError { kind: ErrorKind::PermissionDenied, message: message.to_owned() }
    }

    /// A failure that is not the client's doing, in these words.
    pub fn other(message: String) -> (r: DdnsError)
        ensures
            r@ == other(message@),
    {
        DdnsError { kind: ErrorKind::Other, message }
    }
}

} // verus!
