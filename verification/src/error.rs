//! The error taxonomy: the stable set of error kinds that travels over the
//! wire inside an `Error` message, and the framework's own conversion errors.

use vstd::prelude::*;

verus! {

/// The kind of error received from a peer.
///
/// The integer code of each kind is stable across protocol versions and is
/// never renumbered. An unrecognised code decodes to `Unknown`, never to a
/// decode failure, so older and newer peers degrade gracefully.
#[derive(Debug, Clone, Copy, PartialEq, Eq, Structural)]
pub enum ErrorKind {
    /// The peer has sent an error that has no predetermined kind; the
    /// optional reason string should carry the details.
    Unknown,
    /// The requested file was unable to be uploaded.
    FailedFileUpload,
    /// The requested file does not exist.
    FileDoesntExist,
    /// The peer should have authenticated before making this request.
    InvalidSession,
}

/// The stable wire code of an error kind.
pub open spec fn spec_kind_code(k: ErrorKind) -> i32 {
    match k {
        ErrorKind::Unknown => 0,
        ErrorKind::FailedFileUpload => 1,
        ErrorKind::FileDoesntExist => 2,
        ErrorKind::InvalidSession => 3,
    }
}

/// The kind denoted by a wire code; every code outside the known set maps to
/// `Unknown`.
pub open spec fn spec_kind_of_code(code: i32) -> ErrorKind {
    if code == 1 {
        ErrorKind::FailedFileUpload
    } else if code == 2 {
        ErrorKind::FileDoesntExist
    } else if code == 3 {
        ErrorKind::InvalidSession
    } else {
        ErrorKind::Unknown
    }
}

impl ErrorKind {
    /// The stable wire code of this kind.
    pub fn code(&self) -> (r: i32)
        ensures
            r == spec_kind_code(*self),
    {
        match self {
            ErrorKind::Unknown => 0,
            ErrorKind::FailedFileUpload => 1,
            ErrorKind::FileDoesntExist => 2,
            ErrorKind::InvalidSession => 3,
        }
    }
}

impl From<i32> for ErrorKind {
    /// Classify a wire code, mapping every unrecognised code to `Unknown`.
    fn from(value: i32) -> (r: ErrorKind) {
        if value == 1 {
            ErrorKind::FailedFileUpload
        } else if value == 2 {
            ErrorKind::FileDoesntExist
        } else if value == 3 {
            ErrorKind::InvalidSession
        } else {
            ErrorKind::Unknown
        }
    }
}

impl vstd::std_specs::convert::FromSpecImpl<i32> for ErrorKind {
    open spec fn obeys_from_spec() -> bool {
        true
    }

    open spec fn from_spec(value: i32) -> ErrorKind {
        spec_kind_of_code(value)
    }
}

/// Errors surfaced by the framework itself: a received byte sequence that
/// could not be decoded as a message, or a message that could not be encoded.
#[derive(Debug, Clone, PartialEq, Eq)]
pub enum Error {
    /// The received bytes do not form a well-formed message.
    ByteDecodeError(String),
    /// The provided message could not be encoded for sending.
    ByteEncodeError(String),
}

impl Error {
    /// A human-readable description of this error.
    pub fn describe(&self) -> (r: String)
        ensures
            self matches Error::ByteDecodeError(d) ==> r@ == "failed to decode bytes as valid message "@
                + d@,
            self matches Error::ByteEncodeError(d) ==> r@ == "failed to encode bytes as valid message "@
                + d@,
    {
        match self {
            Error::ByteDecodeError(d) => "failed to decode bytes as valid message ".to_owned().concat(
                d.as_str(),
            ),
            Error::ByteEncodeError(d) => "failed to encode bytes as valid message ".to_owned().concat(
                d.as_str(),
            ),
        }
    }
}

} // verus!
