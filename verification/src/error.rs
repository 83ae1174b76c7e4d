//! The error type shared by every fallible operation of the crate.

use vstd::prelude::*;
use vstd::string::*;

verus! {

/// The kinds of failure a caller can branch on.
#[derive(Clone, Copy, Debug, PartialEq, Eq, Structural)]
pub enum ErrorKind {
    /// No secure randomness was available while generating a keypair.
    EntropyError,
    /// The URL does not name a peer that can be dialled.
    AddressError,
    /// The transport could not be opened, or it dropped.
    TransportError,
    /// The peer offered a public key that is not a valid key encoding.
    InvalidPeerKey,
    /// The peer's node identifier is not the one the caller asked for.
    IdentityMismatch,
    /// A frame is truncated, oversized, or otherwise not in wire form.
    MalformedFrame,
    /// A frame carries a protocol version this crate does not speak.
    UnsupportedVersion,
    /// A frame arrived out of sequence or was seen before.
    ReplayOrOrderingError,
    /// A deadline passed before the peer answered.
    Timeout,
    /// The session is closed, or not yet open for this operation.
    SessionClosed,
}

/// A failure: its kind, for branching, and a text for people.
#[derive(Clone, Debug, PartialEq, Eq)]
pub struct Error {
    pub kind: ErrorKind,
    pub message: String,
}

/// The mathematical value of an [`Error`].
pub struct ErrorView {
    pub kind: ErrorKind,
    pub message: Seq<char>,
}

impl View for Error {
    type V = ErrorView;

    open spec fn view(&self) -> ErrorView {
        ErrorView { kind: self.kind, message: self.message@ }
    }
}

/// The text that an error of `kind` carries when nothing more specific is known.
pub open spec fn kind_text(kind: ErrorKind) -> Seq<char> {
    match kind {
        ErrorKind::EntropyError => "no entropy available"@,
        ErrorKind::AddressError => "invalid address"@,
        ErrorKind::TransportError => "transport failure"@,
        ErrorKind::InvalidPeerKey => "invalid peer key"@,
        ErrorKind::IdentityMismatch => "peer identity mismatch"@,
        ErrorKind::MalformedFrame => "malformed frame"@,
        ErrorKind::UnsupportedVersion => "unsupported protocol version"@,
        ErrorKind::ReplayOrOrderingError => "frame out of sequence"@,
        ErrorKind::Timeout => "timed out"@,
        ErrorKind::SessionClosed => "session closed"@,
    }
}

/// The error of `kind` with its standard text.
pub open spec fn plain_error(kind: ErrorKind) -> ErrorView {
    ErrorView { kind, message: kind_text(kind) }
}

impl ErrorKind {
    /// The standard text for this kind.
    pub fn text(self) -> (res: String)
        ensures
            res@ == kind_text(self),
    {
        match self {
            ErrorKind::EntropyError => "no entropy available".to_owned(),
            ErrorKind::AddressError => "invalid address".to_owned(),
            ErrorKind::TransportError => "transport failure".to_owned(),
            ErrorKind::InvalidPeerKey => "invalid peer key".to_owned(),
            ErrorKind::IdentityMismatch => "peer identity mismatch".to_owned(),
            ErrorKind::MalformedFrame => "malformed frame".to_owned(),
            ErrorKind::UnsupportedVersion => "unsupported protocol version".to_owned(),
            ErrorKind::ReplayOrOrderingError => "frame out of sequence".to_owned(),
            ErrorKind::Timeout => "timed out".to_owned(),
            ErrorKind::SessionClosed => "session closed".to_owned(),
        }
    }
}

impl Error {
    /// An error of `kind` with its standard text.
    pub fn new(kind: ErrorKind) -> (res: Error)
        ensures
            res@ == plain_error(kind),
    {
        Error { kind, message: kind.text() }
    }

    /// An error of `kind` that keeps the text `message` as it was given.
    pub fn with_message(kind: ErrorKind, message: String) -> (res: Error)
        ensures
            res@ == (ErrorView { kind, message: message@ }),
    {
        Error { kind, message }
    }
}

} // verus!
