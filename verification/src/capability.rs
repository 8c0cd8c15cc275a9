//! Capability restriction: each of the two protocol roles may only produce
//! a declared subset of the message kinds, and may only legally receive what
//! the opposite role may produce.
//!
//! The restriction is enforced statically by the sealed-variant pattern:
//! each role owns a restricted sum type holding only its permitted kinds,
//! which converts one-way into the full `Message` type. Building a
//! forbidden kind for a role does not compile, and the conversion carries a
//! proof that its result always lies in the role's allowed set. A run-time
//! check is also provided for callers that hold a full `Message`.

use crate::error::ErrorKind;
use crate::message::{Message, MessageView};
use vstd::prelude::*;

verus! {

/// A message type which can be sent: implemented by each role's restricted
/// message type.
pub trait Sendable {

}

/// A message type which can be received: implemented by the full message
/// type that decoding yields.
pub trait Receivable {

}

impl Receivable for Message {

}

/// Whether the initiator — the requesting and authenticating side of the
/// connection — may send a message of this shape.
pub open spec fn initiator_may_send(v: MessageView) -> bool {
    match v {
        MessageView::Ack => true,
        MessageView::Error { .. } => true,
        MessageView::UploadTo { .. } => true,
        MessageView::MetadataReq { .. } => true,
        MessageView::MetadataRes { .. } => false,
        MessageView::AuthReq { .. } => true,
        MessageView::AuthRes { .. } => false,
        MessageView::StatusReq { .. } => true,
        MessageView::StatusRes { .. } => true,
    }
}

/// Whether the responder — the holding and authenticated side of the
/// connection — may send a message of this shape.
pub open spec fn responder_may_send(v: MessageView) -> bool {
    match v {
        MessageView::Ack => true,
        MessageView::Error { .. } => true,
        MessageView::UploadTo { .. } => false,
        MessageView::MetadataReq { .. } => false,
        MessageView::MetadataRes { .. } => true,
        MessageView::AuthReq { .. } => false,
        MessageView::AuthRes { .. } => true,
        MessageView::StatusReq { .. } => true,
        MessageView::StatusRes { .. } => true,
    }
}

/// One of the two protocol participants.
#[derive(Debug, Clone, Copy, PartialEq, Eq, Structural)]
pub enum Role {
    /// The side that requests uploads and metadata and authenticates its
    /// peer.
    Initiator,
    /// The side that holds the files and answers.
    Responder,
}

impl Role {
    /// The opposite participant.
    pub open spec fn spec_other(self) -> Role {
        match self {
            Role::Initiator => Role::Responder,
            Role::Responder => Role::Initiator,
        }
    }

    /// Whether this role may send a message of this shape.
    pub open spec fn spec_may_send(self, v: MessageView) -> bool {
        match self {
            Role::Initiator => initiator_may_send(v),
            Role::Responder => responder_may_send(v),
        }
    }

    /// Whether this role may legally receive a message of this shape:
    /// exactly what the opposite role may send.
    pub open spec fn spec_may_receive(self, v: MessageView) -> bool {
        self.spec_other().spec_may_send(v)
    }

    /// The opposite participant.
    pub fn other(self) -> (r: Role)
        ensures
            r == self.spec_other(),
    {
        match self {
            Role::Initiator => Role::Responder,
            Role::Responder => Role::Initiator,
        }
    }

    /// The run-time capability check: whether this role may send the
    /// message. A sender refuses the message before it can reach the wire
    /// when this is false.
    pub fn may_send(self, m: &Message) -> (r: bool)
        ensures
            r == self.spec_may_send(m@),
    {
        match self {
            Role::Initiator => match m {
                Message::MetadataRes { .. } => false,
                Message::AuthRes { .. } => false,
                _ => true,
            },
            Role::Responder => match m {
                Message::UploadTo { .. } => false,
                Message::MetadataReq { .. } => false,
                Message::AuthReq { .. } => false,
                _ => true,
            },
        }
    }

    /// The run-time capability check on the receiving side.
    pub fn may_receive(self, m: &Message) -> (r: bool)
        ensures
            r == self.spec_may_receive(m@),
    {
        self.other().may_send(m)
    }
}

/// What a role may legally receive is exactly what the opposite role may
/// send, for every message shape.
pub proof fn lemma_capability_duality(role: Role, v: MessageView)
    ensures
        role.spec_may_receive(v) == role.spec_other().spec_may_send(v),
        role.spec_other().spec_other() == role,
{
}

/// The messages the initiator is permitted to construct and send. A kind
/// outside this set cannot be built for the initiator at all: the variant
/// does not exist on this type, so the misuse fails to compile.
#[derive(Debug, Clone, PartialEq, Eq)]
pub enum InitiatorMessage {
    /// Acknowledgement of a previous request.
    Ack,
    /// An error answer.
    Error {
        /// The kind of error that occurred.
        kind: ErrorKind,
        /// A human-readable reason, optionally included.
        reason: Option<String>,
    },
    /// Request the peer to upload a file.
    UploadTo {
        /// The file to upload.
        file_id: u32,
        /// The url to post the file to.
        upload_url: String,
    },
    /// Request the metadata of a file.
    MetadataReq {
        /// The file whose metadata is requested.
        file_id: u32,
        /// The upload to answer under.
        upload_id: u64,
    },
    /// Request the peer to authenticate itself.
    AuthReq {
        /// The peer to authenticate.
        public_id: u64,
    },
    /// Request the status of the peer.
    StatusReq {
        /// The peer asked.
        public_id: u64,
    },
    /// Answer a status request.
    StatusRes {
        /// The answering peer.
        public_id: u64,
        /// Whether it is ready.
        ready: bool,
        /// Its uptime in seconds.
        uptime: u64,
        /// Its optional status message.
        message: Option<String>,
    },
}

impl Sendable for InitiatorMessage {

}

impl View for InitiatorMessage {
    type V = MessageView;

    open spec fn view(&self) -> MessageView {
        match self {
            InitiatorMessage::Ack => MessageView::Ack,
            InitiatorMessage::Error { kind, reason } => MessageView::Error {
                kind: *kind,
                reason: crate::message::opt_string_view(*reason),
            },
            InitiatorMessage::UploadTo { file_id, upload_url } => MessageView::UploadTo {
                file_id: *file_id,
                upload_url: upload_url@,
            },
            InitiatorMessage::MetadataReq { file_id, upload_id } => MessageView::MetadataReq {
                file_id: *file_id,
                upload_id: *upload_id,
            },
            InitiatorMessage::AuthReq { public_id } => MessageView::AuthReq {
                public_id: *public_id,
            },
            InitiatorMessage::StatusReq { public_id } => MessageView::StatusReq {
                public_id: *public_id,
            },
            InitiatorMessage::StatusRes { public_id, ready, uptime, message } => MessageView::StatusRes {
                public_id: *public_id,
                ready: *ready,
                uptime: *uptime,
                message: crate::message::opt_string_view(*message),
            },
        }
    }
}

impl InitiatorMessage {
    /// The one-way conversion into the full message type. Capability
    /// enforcement: whatever the initiator builds, the result always lies
    /// in the initiator's allowed set, so a forbidden kind never reaches
    /// the wire.
    pub fn into_message(self) -> (r: Message)
        ensures
            r@ == self@,
            initiator_may_send(r@),
    {
        match self {
            InitiatorMessage::Ack => Message::Ack,
            InitiatorMessage::Error { kind, reason } => Message::Error { kind, reason },
            InitiatorMessage::UploadTo { file_id, upload_url } => Message::UploadTo {
                file_id,
                upload_url,
            },
            InitiatorMessage::MetadataReq { file_id, upload_id } => Message::MetadataReq {
                file_id,
                upload_id,
            },
            InitiatorMessage::AuthReq { public_id } => Message::AuthReq { public_id },
            InitiatorMessage::StatusReq { public_id } => Message::StatusReq { public_id },
            InitiatorMessage::StatusRes { public_id, ready, uptime, message } => Message::StatusRes {
                public_id,
                ready,
                uptime,
                message,
            },
        }
    }
}

/// The messages the responder is permitted to construct and send. A kind
/// outside this set cannot be built for the responder at all: the variant
/// does not exist on this type, so the misuse fails to compile.
#[derive(Debug, Clone, PartialEq, Eq)]
pub enum ResponderMessage {
    /// Acknowledgement of a previous request.
    Ack,
    /// An error answer.
    Error {
        /// The kind of error that occurred.
        kind: ErrorKind,
        /// A human-readable reason, optionally included.
        reason: Option<String>,
    },
    /// The metadata of a shared file.
    MetadataRes {
        /// The file described.
        file_id: u32,
        /// Expiry time in seconds past the epoch.
        exp: u64,
        /// Creation time in seconds past the epoch.
        crt: u64,
        /// Size in bytes.
        file_size: u64,
        /// The sharing user.
        username: String,
        /// The file name.
        file_name: String,
        /// The upload answered.
        upload_id: u64,
    },
    /// An authentication answer.
    AuthRes {
        /// The peer being authenticated.
        public_id: u64,
        /// Its passcode.
        passcode: Vec<u8>,
    },
    /// Request the status of the peer.
    StatusReq {
        /// The peer asked.
        public_id: u64,
    },
    /// Answer a status request.
    StatusRes {
        /// The answering peer.
        public_id: u64,
        /// Whether it is ready.
        ready: bool,
        /// Its uptime in seconds.
        uptime: u64,
        /// Its optional status message.
        message: Option<String>,
    },
}

impl Sendable for ResponderMessage {

}

impl View for ResponderMessage {
    type V = MessageView;

    open spec fn view(&self) -> MessageView {
        match self {
            ResponderMessage::Ack => MessageView::Ack,
            ResponderMessage::Error { kind, reason } => MessageView::Error {
                kind: *kind,
                reason: crate::message::opt_string_view(*reason),
            },
            ResponderMessage::MetadataRes {
                file_id,
                exp,
                crt,
                file_size,
                username,
                file_name,
                upload_id,
            } => MessageView::MetadataRes {
                file_id: *file_id,
                exp: *exp,
                crt: *crt,
                file_size: *file_size,
                username: username@,
                file_name: file_name@,
                upload_id: *upload_id,
            },
            ResponderMessage::AuthRes { public_id, passcode } => MessageView::AuthRes {
                public_id: *public_id,
                passcode: passcode@,
            },
            ResponderMessage::StatusReq { public_id } => MessageView::StatusReq {
                public_id: *public_id,
            },
            ResponderMessage::StatusRes { public_id, ready, uptime, message } => MessageView::StatusRes {
                public_id: *public_id,
                ready: *ready,
                uptime: *uptime,
                message: crate::message::opt_string_view(*message),
            },
        }
    }
}

impl ResponderMessage {
    /// The one-way conversion into the full message type. Capability
    /// enforcement: whatever the responder builds, the result always lies
    /// in the responder's allowed set, so a forbidden kind never reaches
    /// the wire.
    pub fn into_message(self) -> (r: Message)
        ensures
            r@ == self@,
            responder_may_send(r@),
    {
        match self {
            ResponderMessage::Ack => Message::Ack,
            ResponderMessage::Error { kind, reason } => Message::Error { kind, reason },
            ResponderMessage::MetadataRes {
                file_id,
                exp,
                crt,
                file_size,
                username,
                file_name,
                upload_id,
            } => Message::MetadataRes {
                file_id,
                exp,
                crt,
                file_size,
                username,
                file_name,
                upload_id,
            },
            ResponderMessage::AuthRes { public_id, passcode } => Message::AuthRes {
                public_id,
                passcode,
            },
            ResponderMessage::StatusReq { public_id } => Message::StatusReq { public_id },
            ResponderMessage::StatusRes { public_id, ready, uptime, message } => Message::StatusRes {
                public_id,
                ready,
                uptime,
                message,
            },
        }
    }
}

} // verus!
