//! The message model: the closed set of application message kinds exchanged
//! between the two peers, with strongly typed fields.

use crate::error::ErrorKind;
use vstd::prelude::*;

verus! {

/// Four bytes identifying a file.
pub type FileId = u32;

/// Eight bytes identifying a peer publicly.
pub type PublicId = u64;

/// An authentication key.
pub type Passcode = Vec<u8>;

/// Eight bytes identifying one upload on the holder.
pub type UploadId = u64;

/// A piece of data that can be sent between the two peers of a connection.
/// It is converted to a compact binary wire form for sending and converted
/// back from binary on receipt.
#[derive(Debug, Clone, PartialEq, Eq)]
pub enum Message {
    /// Acknowledgement of a previous request.
    Ack,
    /// An error has occurred; expect this in response to a bad request.
    Error {
        /// The kind of error that has occurred.
        kind: ErrorKind,
        /// A human-readable reason for the error, optionally included.
        reason: Option<String>,
    },
    /// Request the peer to upload the given file to the given url.
    UploadTo {
        /// The file to upload.
        file_id: FileId,
        /// The url that the file should be posted to.
        upload_url: String,
    },
    /// Request the peer to send the metadata of a file.
    MetadataReq {
        /// The file whose metadata is requested.
        file_id: FileId,
        /// The upload to attach when answering with `MetadataRes`.
        upload_id: UploadId,
    },
    /// The metadata about a shared file.
    MetadataRes {
        /// The file this metadata describes.
        file_id: FileId,
        /// When this share expires, in seconds past the epoch.
        exp: u64,
        /// When this share was created, in seconds past the epoch.
        crt: u64,
        /// Size of the share in bytes.
        file_size: u64,
        /// Name of the person who shared the file.
        username: String,
        /// Name of the file.
        file_name: String,
        /// The upload this answer belongs to.
        upload_id: UploadId,
    },
    /// Request this peer to authenticate itself under the given public id.
    AuthReq {
        /// The peer to authenticate.
        public_id: PublicId,
    },
    /// Answer carrying the public id being authenticated and its passcode.
    AuthRes {
        /// The peer being authenticated.
        public_id: PublicId,
        /// The passcode for that peer.
        passcode: Passcode,
    },
    /// Request the status of the peer.
    StatusReq {
        /// The peer whose status is requested.
        public_id: PublicId,
    },
    /// Answer to a `StatusReq` carrying the status of the peer.
    StatusRes {
        /// The answering peer.
        public_id: PublicId,
        /// Whether the peer is ready to accept connections.
        ready: bool,
        /// Uptime of the peer in seconds.
        uptime: u64,
        /// Optional status message from the peer.
        message: Option<String>,
    },
}

/// The mathematical value of a `Message`: strings as character sequences,
/// byte vectors as byte sequences.
#[verifier::ext_equal]
pub enum MessageView {
    /// Acknowledgement.
    Ack,
    /// A protocol-level error with its kind and optional reason.
    Error {
        /// The kind of error.
        kind: ErrorKind,
        /// The optional reason.
        reason: Option<Seq<char>>,
    },
    /// An upload instruction.
    UploadTo {
        /// The file to upload.
        file_id: u32,
        /// The target url.
        upload_url: Seq<char>,
    },
    /// A metadata request.
    MetadataReq {
        /// The file whose metadata is requested.
        file_id: u32,
        /// The upload to answer under.
        upload_id: u64,
    },
    /// A metadata answer.
    MetadataRes {
        /// The file described.
        file_id: u32,
        /// Expiry time in seconds past the epoch.
        exp: u64,
        /// Creation time in seconds past the epoch.
        crt: u64,
        /// Size in bytes.
        file_size: u64,
        /// The sharing user.
        username: Seq<char>,
        /// The file name.
        file_name: Seq<char>,
        /// The upload answered.
        upload_id: u64,
    },
    /// An authentication request.
    AuthReq {
        /// The peer to authenticate.
        public_id: u64,
    },
    /// An authentication answer.
    AuthRes {
        /// The peer being authenticated.
        public_id: u64,
        /// Its passcode.
        passcode: Seq<u8>,
    },
    /// A status request.
    StatusReq {
        /// The peer asked.
        public_id: u64,
    },
    /// A status answer.
    StatusRes {
        /// The answering peer.
        public_id: u64,
        /// Whether it is ready.
        ready: bool,
        /// Its uptime in seconds.
        uptime: u64,
        /// Its optional status message.
        message: Option<Seq<char>>,
    },
}

/// The view of an optional string: the character sequence, if present.
pub open spec fn opt_string_view(s: Option<String>) -> Option<Seq<char>> {
    match s {
        Some(x) => Some(x@),
        None => None,
    }
}

impl View for Message {
    type V = MessageView;

    open spec fn view(&self) -> MessageView {
        match self {
            Message::Ack => MessageView::Ack,
            Message::Error { kind, reason } => MessageView::Error {
                kind: *kind,
                reason: opt_string_view(*reason),
            },
            Message::UploadTo { file_id, upload_url } => MessageView::UploadTo {
                file_id: *file_id,
                upload_url: upload_url@,
            },
            Message::MetadataReq { file_id, upload_id } => MessageView::MetadataReq {
                file_id: *file_id,
                upload_id: *upload_id,
            },
            Message::MetadataRes { file_id, exp, crt, file_size, username, file_name, upload_id } => MessageView::MetadataRes {
                file_id: *file_id,
                exp: *exp,
                crt: *crt,
                file_size: *file_size,
                username: username@,
                file_name: file_name@,
                upload_id: *upload_id,
            },
            Message::AuthReq { public_id } => MessageView::AuthReq { public_id: *public_id },
            Message::AuthRes { public_id, passcode } => MessageView::AuthRes {
                public_id: *public_id,
                passcode: passcode@,
            },
            Message::StatusReq { public_id } => MessageView::StatusReq { public_id: *public_id },
            Message::StatusRes { public_id, ready, uptime, message } => MessageView::StatusRes {
                public_id: *public_id,
                ready: *ready,
                uptime: *uptime,
                message: opt_string_view(*message),
            },
        }
    }
}

} // verus!
