//! The message codec: the mapping between the message model and the wire
//! envelope, and the single canonical encode and decode entry points.
//!
//! Every message kind owns one stable discriminant, and the two are in
//! bijection. Decoding is strict about the outer shape — an unrecognised
//! discriminant or a malformed record is an error — but tolerant inside an
//! `Error` payload, where an unknown kind code degrades to
//! `ErrorKind::Unknown` so that error reporting stays forward-compatible.

use crate::envelope::{spec_envelope_bytes, spec_envelope_decode, Envelope, EnvelopeView};
use crate::error::{spec_kind_code, spec_kind_of_code, Error, ErrorKind};
use crate::message::{Message, MessageView};
use crate::wire::{
    delim_field, delim_field_ok, entries_view, extract_slots, num_field, num_field_ok,
    parse_record, seq_lookup, spec_delim_field, spec_num_field, spec_record, write_delim_field,
    write_num_field, FieldData, FieldVal,
};
use vstd::prelude::*;
use vstd::utf8::{decode_utf8, encode_utf8, encode_utf8_decode_utf8, valid_utf8};

verus! {

/// The stable discriminant of each message kind. These values are never
/// reassigned across protocol revisions, only appended to.
pub open spec fn spec_discriminant(v: MessageView) -> i32 {
    match v {
        MessageView::Ack => 0,
        MessageView::Error { .. } => 1,
        MessageView::UploadTo { .. } => 2,
        MessageView::MetadataReq { .. } => 3,
        MessageView::MetadataRes { .. } => 4,
        MessageView::AuthReq { .. } => 5,
        MessageView::AuthRes { .. } => 6,
        MessageView::StatusReq { .. } => 7,
        MessageView::StatusRes { .. } => 8,
    }
}

/// A numeric field under implicit presence: omitted when zero.
pub open spec fn opt_num_field(f: u64, v: u64) -> Seq<u8> {
    if v == 0 {
        Seq::<u8>::empty()
    } else {
        spec_num_field(f, v)
    }
}

/// A length-delimited field under implicit presence: omitted when empty.
pub open spec fn opt_delim_field(f: u64, b: Seq<u8>) -> Seq<u8> {
    if b.len() == 0 {
        Seq::<u8>::empty()
    } else {
        spec_delim_field(f, b)
    }
}

/// An optional string field under explicit presence: present whenever the
/// value is present, even when the string is empty, so that absent and empty
/// stay distinguishable end to end.
pub open spec fn opt_string_field(f: u64, s: Option<Seq<char>>) -> Seq<u8> {
    match s {
        Some(m) => spec_delim_field(f, encode_utf8(m)),
        None => Seq::<u8>::empty(),
    }
}

/// The canonical payload of an `Error` message with the given kind code.
pub open spec fn spec_error_payload(code: i32, reason: Option<Seq<char>>) -> Seq<u8> {
    opt_num_field(1, code as u64) + opt_string_field(3, reason)
}

/// The canonical payload bytes of a message.
pub open spec fn spec_payload(v: MessageView) -> Seq<u8> {
    match v {
        MessageView::Ack => Seq::<u8>::empty(),
        MessageView::Error { kind, reason } => spec_error_payload(spec_kind_code(kind), reason),
        MessageView::UploadTo { file_id, upload_url } => opt_num_field(1, file_id as u64)
            + opt_delim_field(2, encode_utf8(upload_url)),
        MessageView::MetadataReq { file_id, upload_id } => opt_num_field(1, file_id as u64)
            + opt_num_field(2, upload_id),
        MessageView::MetadataRes { file_id, exp, crt, file_size, username, file_name, upload_id } => opt_num_field(
            1,
            file_id as u64,
        ) + opt_num_field(2, exp) + opt_num_field(3, crt) + opt_num_field(4, file_size)
            + opt_delim_field(5, encode_utf8(username)) + opt_delim_field(6, encode_utf8(file_name))
            + opt_num_field(7, upload_id),
        MessageView::AuthReq { public_id } => opt_num_field(1, public_id),
        MessageView::AuthRes { public_id, passcode } => opt_num_field(1, public_id)
            + opt_delim_field(2, passcode),
        MessageView::StatusReq { public_id } => opt_num_field(1, public_id),
        MessageView::StatusRes { public_id, ready, uptime, message } => opt_num_field(1, public_id)
            + opt_num_field(2, if ready { 1u64 } else { 0u64 }) + opt_num_field(3, uptime)
            + opt_string_field(4, message),
    }
}

/// Whether a message's canonical payload fits the wire's length prefix.
/// Every message that exists at run time is encodable, since its payload
/// lives in memory; only unbounded mathematical values fall outside.
pub open spec fn encodable(v: MessageView) -> bool {
    spec_payload(v).len() <= u64::MAX
}

/// The canonical wire bytes of a message: its payload wrapped in an envelope
/// under its discriminant.
pub open spec fn spec_encode(v: MessageView) -> Seq<u8> {
    spec_envelope_bytes(
        EnvelopeView { discriminant: spec_discriminant(v), payload: spec_payload(v) },
    )
}

/// Whether field `f` fits a string field: absent, or length-delimited bytes
/// that are valid UTF-8.
pub open spec fn str_field_ok(es: Seq<(u64, FieldVal)>, f: u64) -> bool {
    &&& delim_field_ok(es, f)
    &&& (delim_field(es, f) matches Some(b) ==> valid_utf8(b))
}

/// The characters of string field `f`, empty when absent.
pub open spec fn str_field(es: Seq<(u64, FieldVal)>, f: u64) -> Seq<char> {
    match delim_field(es, f) {
        Some(b) => decode_utf8(b),
        None => Seq::<char>::empty(),
    }
}

/// The characters of optional string field `f`, `None` when absent.
pub open spec fn opt_str_field(es: Seq<(u64, FieldVal)>, f: u64) -> Option<Seq<char>> {
    match delim_field(es, f) {
        Some(b) => Some(decode_utf8(b)),
        None => None,
    }
}

/// The bytes of byte-sequence field `f`, empty when absent.
pub open spec fn bytes_field(es: Seq<(u64, FieldVal)>, f: u64) -> Seq<u8> {
    match delim_field(es, f) {
        Some(b) => b,
        None => Seq::<u8>::empty(),
    }
}

/// The `Error` message an error-payload record denotes. An unknown kind code
/// yields `ErrorKind::Unknown`, never a failure.
pub open spec fn interp_error(es: Seq<(u64, FieldVal)>) -> Option<MessageView> {
    if num_field_ok(es, 1) && str_field_ok(es, 3) {
        Some(
            MessageView::Error {
                kind: spec_kind_of_code(num_field(es, 1) as i32),
                reason: opt_str_field(es, 3),
            },
        )
    } else {
        None
    }
}

/// The `UploadTo` message an upload-payload record denotes.
pub open spec fn interp_upload_to(es: Seq<(u64, FieldVal)>) -> Option<MessageView> {
    if num_field_ok(es, 1) && str_field_ok(es, 2) {
        Some(
            MessageView::UploadTo {
                file_id: num_field(es, 1) as u32,
                upload_url: str_field(es, 2),
            },
        )
    } else {
        None
    }
}

/// The `MetadataReq` message a record denotes.
pub open spec fn interp_metadata_req(es: Seq<(u64, FieldVal)>) -> Option<MessageView> {
    if num_field_ok(es, 1) && num_field_ok(es, 2) {
        Some(
            MessageView::MetadataReq {
                file_id: num_field(es, 1) as u32,
                upload_id: num_field(es, 2),
            },
        )
    } else {
        None
    }
}

/// The `MetadataRes` message a record denotes.
pub open spec fn interp_metadata_res(es: Seq<(u64, FieldVal)>) -> Option<MessageView> {
    if num_field_ok(es, 1) && num_field_ok(es, 2) && num_field_ok(es, 3) && num_field_ok(es, 4)
        && str_field_ok(es, 5) && str_field_ok(es, 6) && num_field_ok(es, 7) {
        Some(
            MessageView::MetadataRes {
                file_id: num_field(es, 1) as u32,
                exp: num_field(es, 2),
                crt: num_field(es, 3),
                file_size: num_field(es, 4),
                username: str_field(es, 5),
                file_name: str_field(es, 6),
                upload_id: num_field(es, 7),
            },
        )
    } else {
        None
    }
}

/// The `AuthReq` message a record denotes.
pub open spec fn interp_auth_req(es: Seq<(u64, FieldVal)>) -> Option<MessageView> {
    if num_field_ok(es, 1) {
        Some(MessageView::AuthReq { public_id: num_field(es, 1) })
    } else {
        None
    }
}

/// The `AuthRes` message a record denotes.
pub open spec fn interp_auth_res(es: Seq<(u64, FieldVal)>) -> Option<MessageView> {
    if num_field_ok(es, 1) && delim_field_ok(es, 2) {
        Some(
            MessageView::AuthRes { public_id: num_field(es, 1), passcode: bytes_field(es, 2) },
        )
    } else {
        None
    }
}

/// The `StatusReq` message a record denotes.
pub open spec fn interp_status_req(es: Seq<(u64, FieldVal)>) -> Option<MessageView> {
    if num_field_ok(es, 1) {
        Some(MessageView::StatusReq { public_id: num_field(es, 1) })
    } else {
        None
    }
}

/// The `StatusRes` message a record denotes.
pub open spec fn interp_status_res(es: Seq<(u64, FieldVal)>) -> Option<MessageView> {
    if num_field_ok(es, 1) && num_field_ok(es, 2) && num_field_ok(es, 3) && str_field_ok(es, 4) {
        Some(
            MessageView::StatusRes {
                public_id: num_field(es, 1),
                ready: num_field(es, 2) != 0,
                uptime: num_field(es, 3),
                message: opt_str_field(es, 4),
            },
        )
    } else {
        None
    }
}

/// The message a payload denotes under discriminant `d`, for `d` between one
/// and eight; `None` when the payload does not parse under that schema.
pub open spec fn spec_decode_payload(d: i32, p: Seq<u8>) -> Option<MessageView> {
    match spec_record(p) {
        None => None,
        Some(es) => if d == 1 {
            interp_error(es)
        } else if d == 2 {
            interp_upload_to(es)
        } else if d == 3 {
            interp_metadata_req(es)
        } else if d == 4 {
            interp_metadata_res(es)
        } else if d == 5 {
            interp_auth_req(es)
        } else if d == 6 {
            interp_auth_res(es)
        } else if d == 7 {
            interp_status_req(es)
        } else {
            interp_status_res(es)
        },
    }
}

/// The outcome of decoding: a message, a rejected unknown discriminant, or a
/// malformed byte sequence.
pub enum DecodeOutcome {
    /// The bytes denote this message.
    Msg(MessageView),
    /// The envelope is well-formed but its discriminant names no known
    /// message kind.
    UnknownDiscriminant,
    /// The bytes are not a well-formed envelope, or the payload does not
    /// parse under the schema its discriminant demands.
    Malformed,
}

/// The message an already-decoded envelope denotes.
pub open spec fn spec_envelope_to_message(env: EnvelopeView) -> DecodeOutcome {
    if env.discriminant == 0 {
        DecodeOutcome::Msg(MessageView::Ack)
    } else if 1 <= env.discriminant <= 8 {
        match spec_decode_payload(env.discriminant, env.payload) {
            Some(v) => DecodeOutcome::Msg(v),
            None => DecodeOutcome::Malformed,
        }
    } else {
        DecodeOutcome::UnknownDiscriminant
    }
}

/// The outcome of decoding a byte sequence, end to end.
pub open spec fn spec_decode(s: Seq<u8>) -> DecodeOutcome {
    match spec_envelope_decode(s) {
        None => DecodeOutcome::Malformed,
        Some(env) => spec_envelope_to_message(env),
    }
}

impl Message {
    /// Wrap this message in its wire envelope: its stable discriminant and
    /// its canonical payload bytes. This conversion is total: every message
    /// value has an envelope.
    pub fn to_envelope(&self) -> (r: Envelope)
        ensures
            r@.discriminant == spec_discriminant(self@),
            r@.payload == spec_payload(self@),
            encodable(self@),
    {
        let (discriminant, payload): (i32, Vec<u8>) = match self {
            Message::Ack => (0, Vec::new()),
            Message::Error { kind, reason } => {
                let mut p: Vec<u8> = Vec::new();
                let code = kind.code();
                if code != 0 {
                    write_num_field(&mut p, 1, code as u64);
                }
                match reason {
                    Some(r) => write_delim_field(&mut p, 3, r.as_str().as_bytes()),
                    None => {},
                }
                proof {
                    assert(p@ =~= spec_payload(self@));
                }
                (1, p)
            },
            Message::UploadTo { file_id, upload_url } => {
                let mut p: Vec<u8> = Vec::new();
                if *file_id != 0 {
                    write_num_field(&mut p, 1, *file_id as u64);
                }
                let url_bytes = upload_url.as_str().as_bytes();
                if url_bytes.len() > 0 {
                    write_delim_field(&mut p, 2, url_bytes);
                }
                proof {
                    assert(p@ =~= spec_payload(self@));
                }
                (2, p)
            },
            Message::MetadataReq { file_id, upload_id } => {
                let mut p: Vec<u8> = Vec::new();
                if *file_id != 0 {
                    write_num_field(&mut p, 1, *file_id as u64);
                }
                if *upload_id != 0 {
                    write_num_field(&mut p, 2, *upload_id);
                }
                proof {
                    assert(p@ =~= spec_payload(self@));
                }
                (3, p)
            },
            Message::MetadataRes { file_id, exp, crt, file_size, username, file_name, upload_id } => {
                let mut p: Vec<u8> = Vec::new();
                if *file_id != 0 {
                    write_num_field(&mut p, 1, *file_id as u64);
                }
                if *exp != 0 {
                    write_num_field(&mut p, 2, *exp);
                }
                if *crt != 0 {
                    write_num_field(&mut p, 3, *crt);
                }
                if *file_size != 0 {
                    write_num_field(&mut p, 4, *file_size);
                }
                let username_bytes = username.as_str().as_bytes();
                if username_bytes.len() > 0 {
                    write_delim_field(&mut p, 5, username_bytes);
                }
                let file_name_bytes = file_name.as_str().as_bytes();
                if file_name_bytes.len() > 0 {
                    write_delim_field(&mut p, 6, file_name_bytes);
                }
                if *upload_id != 0 {
                    write_num_field(&mut p, 7, *upload_id);
                }
                proof {
                    assert(p@ =~= spec_payload(self@));
                }
                (4, p)
            },
            Message::AuthReq { public_id } => {
                let mut p: Vec<u8> = Vec::new();
                if *public_id != 0 {
                    write_num_field(&mut p, 1, *public_id);
                }
                proof {
                    assert(p@ =~= spec_payload(self@));
                }
                (5, p)
            },
            Message::AuthRes { public_id, passcode } => {
                let mut p: Vec<u8> = Vec::new();
                if *public_id != 0 {
                    write_num_field(&mut p, 1, *public_id);
                }
                if passcode.len() > 0 {
                    write_delim_field(&mut p, 2, passcode.as_slice());
                }
                proof {
                    assert(p@ =~= spec_payload(self@));
                }
                (6, p)
            },
            Message::StatusReq { public_id } => {
                let mut p: Vec<u8> = Vec::new();
                if *public_id != 0 {
                    write_num_field(&mut p, 1, *public_id);
                }
                proof {
                    assert(p@ =~= spec_payload(self@));
                }
                (7, p)
            },
            Message::StatusRes { public_id, ready, uptime, message } => {
                let mut p: Vec<u8> = Vec::new();
                if *public_id != 0 {
                    write_num_field(&mut p, 1, *public_id);
                }
                if *ready {
                    write_num_field(&mut p, 2, 1);
                }
                if *uptime != 0 {
                    write_num_field(&mut p, 3, *uptime);
                }
                match message {
                    Some(m) => write_delim_field(&mut p, 4, m.as_str().as_bytes()),
                    None => {},
                }
                proof {
                    assert(p@ =~= spec_payload(self@));
                }
                (8, p)
            },
        };
        proof {
            assert(payload@.len() == payload.len());
        }
        Envelope { discriminant, payload }
    }

    /// Encode this message into its canonical wire bytes: the single
    /// canonical encode entry point. Encoding succeeds for every
    /// constructible message, and decoding the result yields this message
    /// back; the `Result` is kept so that callers handle the conversion
    /// uniformly with decoding.
    pub fn into_bytes(self) -> (r: Result<Vec<u8>, Error>)
        ensures
            r matches Ok(b) && b@ == spec_encode(self@) && spec_decode(b@)
                == DecodeOutcome::Msg(self@),
    {
        let env = self.to_envelope();
        proof {
            crate::laws::lemma_round_trip(self@);
        }
        Ok(env.encode())
    }
}

/// Relies on std's `String::from_utf8`: it succeeds exactly when the input
/// is valid UTF-8, and the bytes of the resulting string are the input
/// bytes.
#[verifier::external_body]
fn string_from_utf8(bytes: Vec<u8>) -> (r: Option<String>)
    ensures
        r is Some <==> valid_utf8(bytes@),
        r matches Some(s) ==> encode_utf8(s@) == bytes@,
{
    String::from_utf8(bytes).ok()
}

/// The error reported whenever received bytes do not parse.
fn malformed() -> (r: Error)
    ensures
        r matches Error::ByteDecodeError(s) && s@ == "malformed wire data"@,
{
    Error::ByteDecodeError("malformed wire data".to_owned())
}

/// Read a numeric field out of its slot: zero when absent, an error when
/// the field arrived with the wrong wire kind.
fn slot_num(s: Option<FieldData>) -> (r: Option<u64>)
    ensures
        match crate::wire::slot_view(s) {
            None => r == Some(0u64),
            Some(FieldVal::Num(v)) => r == Some(v),
            Some(_) => r is None,
        },
{
    match s {
        None => Some(0),
        Some(FieldData::Num(v)) => Some(v),
        Some(_) => None,
    }
}

/// Read a length-delimited field out of its slot: `None` when absent, an
/// error when the field arrived with the wrong wire kind.
fn slot_bytes(s: Option<FieldData>) -> (r: Option<Option<Vec<u8>>>)
    ensures
        match crate::wire::slot_view(s) {
            None => r matches Some(o) && o is None,
            Some(FieldVal::Delim(b)) => r matches Some(o) && o matches Some(v) && v@ == b,
            Some(_) => r is None,
        },
{
    match s {
        None => Some(None),
        Some(FieldData::Delim(b)) => Some(Some(b)),
        Some(_) => None,
    }
}

/// Turn the bytes of a string field into the string: the empty string when
/// the field was absent, an error when the bytes are not valid UTF-8.
fn required_string(b: Option<Vec<u8>>) -> (r: Option<String>)
    ensures
        b is None ==> (r matches Some(s) && s@ == Seq::<char>::empty()),
        b matches Some(bb) ==> {
            &&& (r is Some <==> valid_utf8(bb@))
            &&& (r matches Some(s) ==> s@ == decode_utf8(bb@))
        },
{
    match b {
        None => Some(String::new()),
        Some(bb) => match string_from_utf8(bb) {
            Some(s) => {
                proof {
                    encode_utf8_decode_utf8(s@);
                }
                Some(s)
            },
            None => None,
        },
    }
}

/// Turn the bytes of an optional string field into the optional string:
/// `None` when the field was absent, an error when the bytes are not valid
/// UTF-8.
fn optional_string(b: Option<Vec<u8>>) -> (r: Option<Option<String>>)
    ensures
        b is None ==> (r matches Some(o) && o is None),
        b matches Some(bb) ==> {
            &&& (r is Some <==> valid_utf8(bb@))
            &&& (r matches Some(o) ==> o matches Some(s) && s@ == decode_utf8(bb@))
        },
{
    match b {
        None => Some(None),
        Some(bb) => match string_from_utf8(bb) {
            Some(s) => {
                proof {
                    encode_utf8_decode_utf8(s@);
                }
                Some(Some(s))
            },
            None => None,
        },
    }
}

/// Decode the payload of an `Error` message.
fn decode_error_payload(p: &[u8]) -> (r: Result<Message, Error>)
    ensures
        match spec_decode_payload(1, p@) {
            Some(v) => r matches Ok(m) && m@ == v,
            None => r matches Err(e) && e matches Error::ByteDecodeError(s) && s@
                == "malformed wire data"@,
        },
{
    let entries = match parse_record(p, 0) {
        Some(e) => e,
        None => {
            return Err(malformed());
        },
    };
    let ghost ev = entries_view(entries@);
    let slots = extract_slots(entries);
    proof {
        assert(slots.slot(1) == seq_lookup(ev, 1));
        assert(slots.slot(3) == seq_lookup(ev, 3));
    }
    let code64 = match slot_num(slots.f1) {
        Some(v) => v,
        None => {
            return Err(malformed());
        },
    };
    let reason_bytes = match slot_bytes(slots.f3) {
        Some(o) => o,
        None => {
            return Err(malformed());
        },
    };
    let reason = match optional_string(reason_bytes) {
        Some(o) => o,
        None => {
            return Err(malformed());
        },
    };
    let kind = ErrorKind::from(#[verifier::truncate] (code64 as i32));
    Ok(Message::Error { kind, reason })
}

/// Decode the payload of an `UploadTo` message.
fn decode_upload_to_payload(p: &[u8]) -> (r: Result<Message, Error>)
    ensures
        match spec_decode_payload(2, p@) {
            Some(v) => r matches Ok(m) && m@ == v,
            None => r matches Err(e) && e matches Error::ByteDecodeError(s) && s@
                == "malformed wire data"@,
        },
{
    let entries = match parse_record(p, 0) {
        Some(e) => e,
        None => {
            return Err(malformed());
        },
    };
    let ghost ev = entries_view(entries@);
    let slots = extract_slots(entries);
    proof {
        assert(slots.slot(1) == seq_lookup(ev, 1));
        assert(slots.slot(2) == seq_lookup(ev, 2));
    }
    let file_id64 = match slot_num(slots.f1) {
        Some(v) => v,
        None => {
            return Err(malformed());
        },
    };
    let url_bytes = match slot_bytes(slots.f2) {
        Some(o) => o,
        None => {
            return Err(malformed());
        },
    };
    let upload_url = match required_string(url_bytes) {
        Some(s) => s,
        None => {
            return Err(malformed());
        },
    };
    Ok(Message::UploadTo { file_id: #[verifier::truncate] (file_id64 as u32), upload_url })
}

/// Decode the payload of a `MetadataReq` message.
fn decode_metadata_req_payload(p: &[u8]) -> (r: Result<Message, Error>)
    ensures
        match spec_decode_payload(3, p@) {
            Some(v) => r matches Ok(m) && m@ == v,
            None => r matches Err(e) && e matches Error::ByteDecodeError(s) && s@
                == "malformed wire data"@,
        },
{
    let entries = match parse_record(p, 0) {
        Some(e) => e,
        None => {
            return Err(malformed());
        },
    };
    let ghost ev = entries_view(entries@);
    let slots = extract_slots(entries);
    proof {
        assert(slots.slot(1) == seq_lookup(ev, 1));
        assert(slots.slot(2) == seq_lookup(ev, 2));
    }
    let file_id64 = match slot_num(slots.f1) {
        Some(v) => v,
        None => {
            return Err(malformed());
        },
    };
    let upload_id = match slot_num(slots.f2) {
        Some(v) => v,
        None => {
            return Err(malformed());
        },
    };
    Ok(Message::MetadataReq { file_id: #[verifier::truncate] (file_id64 as u32), upload_id })
}

/// Decode the payload of a `MetadataRes` message.
fn decode_metadata_res_payload(p: &[u8]) -> (r: Result<Message, Error>)
    ensures
        match spec_decode_payload(4, p@) {
            Some(v) => r matches Ok(m) && m@ == v,
            None => r matches Err(e) && e matches Error::ByteDecodeError(s) && s@
                == "malformed wire data"@,
        },
{
    let entries = match parse_record(p, 0) {
        Some(e) => e,
        None => {
            return Err(malformed());
        },
    };
    let ghost ev = entries_view(entries@);
    let slots = extract_slots(entries);
    proof {
        assert(slots.slot(1) == seq_lookup(ev, 1));
        assert(slots.slot(2) == seq_lookup(ev, 2));
        assert(slots.slot(3) == seq_lookup(ev, 3));
        assert(slots.slot(4) == seq_lookup(ev, 4));
        assert(slots.slot(5) == seq_lookup(ev, 5));
        assert(slots.slot(6) == seq_lookup(ev, 6));
        assert(slots.slot(7) == seq_lookup(ev, 7));
    }
    let file_id64 = match slot_num(slots.f1) {
        Some(v) => v,
        None => {
            return Err(malformed());
        },
    };
    let exp = match slot_num(slots.f2) {
        Some(v) => v,
        None => {
            return Err(malformed());
        },
    };
    let crt = match slot_num(slots.f3) {
        Some(v) => v,
        None => {
            return Err(malformed());
        },
    };
    let file_size = match slot_num(slots.f4) {
        Some(v) => v,
        None => {
            return Err(malformed());
        },
    };
    let username_bytes = match slot_bytes(slots.f5) {
        Some(o) => o,
        None => {
            return Err(malformed());
        },
    };
    let username = match required_string(username_bytes) {
        Some(s) => s,
        None => {
            return Err(malformed());
        },
    };
    let file_name_bytes = match slot_bytes(slots.f6) {
        Some(o) => o,
        None => {
            return Err(malformed());
        },
    };
    let file_name = match required_string(file_name_bytes) {
        Some(s) => s,
        None => {
            return Err(malformed());
        },
    };
    let upload_id = match slot_num(slots.f7) {
        Some(v) => v,
        None => {
            return Err(malformed());
        },
    };
    Ok(
        Message::MetadataRes {
            file_id: #[verifier::truncate] (file_id64 as u32),
            exp,
            crt,
            file_size,
            username,
            file_name,
            upload_id,
        },
    )
}

/// Decode the payload of an `AuthReq` message.
fn decode_auth_req_payload(p: &[u8]) -> (r: Result<Message, Error>)
    ensures
        match spec_decode_payload(5, p@) {
            Some(v) => r matches Ok(m) && m@ == v,
            None => r matches Err(e) && e matches Error::ByteDecodeError(s) && s@
                == "malformed wire data"@,
        },
{
    let entries = match parse_record(p, 0) {
        Some(e) => e,
        None => {
            return Err(malformed());
        },
    };
    let ghost ev = entries_view(entries@);
    let slots = extract_slots(entries);
    proof {
        assert(slots.slot(1) == seq_lookup(ev, 1));
    }
    let public_id = match slot_num(slots.f1) {
        Some(v) => v,
        None => {
            return Err(malformed());
        },
    };
    Ok(Message::AuthReq { public_id })
}

/// Decode the payload of an `AuthRes` message.
fn decode_auth_res_payload(p: &[u8]) -> (r: Result<Message, Error>)
    ensures
        match spec_decode_payload(6, p@) {
            Some(v) => r matches Ok(m) && m@ == v,
            None => r matches Err(e) && e matches Error::ByteDecodeError(s) && s@
                == "malformed wire data"@,
        },
{
    let entries = match parse_record(p, 0) {
        Some(e) => e,
        None => {
            return Err(malformed());
        },
    };
    let ghost ev = entries_view(entries@);
    let slots = extract_slots(entries);
    proof {
        assert(slots.slot(1) == seq_lookup(ev, 1));
        assert(slots.slot(2) == seq_lookup(ev, 2));
    }
    let public_id = match slot_num(slots.f1) {
        Some(v) => v,
        None => {
            return Err(malformed());
        },
    };
    let passcode_bytes = match slot_bytes(slots.f2) {
        Some(o) => o,
        None => {
            return Err(malformed());
        },
    };
    let passcode = match passcode_bytes {
        Some(b) => b,
        None => Vec::new(),
    };
    Ok(Message::AuthRes { public_id, passcode })
}

/// Decode the payload of a `StatusReq` message.
fn decode_status_req_payload(p: &[u8]) -> (r: Result<Message, Error>)
    ensures
        match spec_decode_payload(7, p@) {
            Some(v) => r matches Ok(m) && m@ == v,
            None => r matches Err(e) && e matches Error::ByteDecodeError(s) && s@
                == "malformed wire data"@,
        },
{
    let entries = match parse_record(p, 0) {
        Some(e) => e,
        None => {
            return Err(malformed());
        },
    };
    let ghost ev = entries_view(entries@);
    let slots = extract_slots(entries);
    proof {
        assert(slots.slot(1) == seq_lookup(ev, 1));
    }
    let public_id = match slot_num(slots.f1) {
        Some(v) => v,
        None => {
            return Err(malformed());
        },
    };
    Ok(Message::StatusReq { public_id })
}

/// Decode the payload of a `StatusRes` message.
fn decode_status_res_payload(p: &[u8]) -> (r: Result<Message, Error>)
    ensures
        match spec_decode_payload(8, p@) {
            Some(v) => r matches Ok(m) && m@ == v,
            None => r matches Err(e) && e matches Error::ByteDecodeError(s) && s@
                == "malformed wire data"@,
        },
{
    let entries = match parse_record(p, 0) {
        Some(e) => e,
        None => {
            return Err(malformed());
        },
    };
    let ghost ev = entries_view(entries@);
    let slots = extract_slots(entries);
    proof {
        assert(slots.slot(1) == seq_lookup(ev, 1));
        assert(slots.slot(2) == seq_lookup(ev, 2));
        assert(slots.slot(3) == seq_lookup(ev, 3));
        assert(slots.slot(4) == seq_lookup(ev, 4));
    }
    let public_id = match slot_num(slots.f1) {
        Some(v) => v,
        None => {
            return Err(malformed());
        },
    };
    let ready_num = match slot_num(slots.f2) {
        Some(v) => v,
        None => {
            return Err(malformed());
        },
    };
    let uptime = match slot_num(slots.f3) {
        Some(v) => v,
        None => {
            return Err(malformed());
        },
    };
    let message_bytes = match slot_bytes(slots.f4) {
        Some(o) => o,
        None => {
            return Err(malformed());
        },
    };
    let message = match optional_string(message_bytes) {
        Some(o) => o,
        None => {
            return Err(malformed());
        },
    };
    Ok(Message::StatusRes { public_id, ready: ready_num != 0, uptime, message })
}

impl Message {
    /// Reconstruct the message an envelope carries. Fails with an
    /// "unrecognised i32 variant" error when the discriminant names no
    /// known message kind, and with a "malformed wire data" error when the
    /// payload does not parse under the schema the discriminant demands.
    pub fn from_envelope(env: Envelope) -> (r: Result<Message, Error>)
        ensures
            match spec_envelope_to_message(env@) {
                DecodeOutcome::Msg(v) => r matches Ok(m) && m@ == v,
                DecodeOutcome::UnknownDiscriminant => r matches Err(e) && e
                    matches Error::ByteDecodeError(s) && s@ == "unrecognised i32 variant"@,
                DecodeOutcome::Malformed => r matches Err(e) && e matches Error::ByteDecodeError(s)
                    && s@ == "malformed wire data"@,
            },
    {
        let d = env.discriminant;
        if d == 0 {
            Ok(Message::Ack)
        } else if d == 1 {
            decode_error_payload(env.payload.as_slice())
        } else if d == 2 {
            decode_upload_to_payload(env.payload.as_slice())
        } else if d == 3 {
            decode_metadata_req_payload(env.payload.as_slice())
        } else if d == 4 {
            decode_metadata_res_payload(env.payload.as_slice())
        } else if d == 5 {
            decode_auth_req_payload(env.payload.as_slice())
        } else if d == 6 {
            decode_auth_res_payload(env.payload.as_slice())
        } else if d == 7 {
            decode_status_req_payload(env.payload.as_slice())
        } else if d == 8 {
            decode_status_res_payload(env.payload.as_slice())
        } else {
            Err(Error::ByteDecodeError("unrecognised i32 variant".to_owned()))
        }
    }

    /// Decode a message from wire bytes: the single canonical decode entry
    /// point. Fails exactly when the bytes are not a well-formed envelope,
    /// when the discriminant is unrecognised, or when the payload does not
    /// parse under its schema — and never panics on any input.
    pub fn from_bytes(input: &[u8]) -> (r: Result<Message, Error>)
        ensures
            match spec_decode(input@) {
                DecodeOutcome::Msg(v) => r matches Ok(m) && m@ == v,
                DecodeOutcome::UnknownDiscriminant => r matches Err(e) && e
                    matches Error::ByteDecodeError(s) && s@ == "unrecognised i32 variant"@,
                DecodeOutcome::Malformed => r matches Err(e) && e matches Error::ByteDecodeError(s)
                    && s@ == "malformed wire data"@,
            },
    {
        match Envelope::decode(input) {
            Err(e) => Err(e),
            Ok(env) => Message::from_envelope(env),
        }
    }
}

} // verus!
