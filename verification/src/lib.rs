//! A bidirectional application-level message protocol for peers that talk over
//! a persistent, ordered byte stream (typically a websocket), together with the
//! codec that converts typed messages to and from a compact binary wire form.
//!
//! The wire form is a length-delimited, field-tagged binary record: an outer
//! envelope pairs a stable integer discriminant with an opaque payload, and
//! each payload is itself a record of tagged fields, so decoders can skip
//! unknown fields and accept fields in any order.
//!
//! `Message::into_bytes` and `Message::from_bytes` are the two canonical
//! conversion entry points; their contracts pin the wire form down exactly,
//! and the laws module states and proves the protocol's guarantees — among
//! them that decoding the encoding of any message yields that message back.
//! The capability module restricts each peer role to the message kinds it is
//! permitted to produce.

pub mod capability;
pub mod codec;
pub mod envelope;
pub mod error;
pub mod laws;
pub mod message;
pub mod varint;
pub mod wire;

pub use capability::{InitiatorMessage, Receivable, ResponderMessage, Role, Sendable};
pub use envelope::Envelope;
pub use error::Error;
pub use error::ErrorKind;
pub use message::{FileId, Message, Passcode, PublicId, UploadId};
