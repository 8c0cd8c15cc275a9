//! The laws the codec obeys, stated over the specification model and proved
//! once for every message: the round-trip law, the discriminant bijection,
//! the rejection of unknown discriminants, and the tolerance of unknown
//! error-kind codes.

use crate::codec::{
    encodable, opt_delim_field, opt_num_field, opt_string_field, spec_decode, spec_decode_payload,
    spec_discriminant, spec_encode, spec_error_payload, spec_payload, DecodeOutcome,
};
use crate::codec::{
    interp_auth_req, interp_auth_res, interp_error, interp_metadata_req, interp_metadata_res,
    interp_status_req, interp_status_res, interp_upload_to,
};
use crate::envelope::{lemma_envelope_roundtrip, spec_envelope_bytes, EnvelopeView};
use crate::error::{spec_kind_code, spec_kind_of_code, ErrorKind};
use crate::message::MessageView;
use crate::wire::{
    lemma_parse_delim_field, lemma_parse_num_field, parse_fields_at, seq_lookup, spec_record,
    FieldVal,
};
use vstd::prelude::*;
use vstd::utf8::{encode_scalar, encode_utf8, encode_utf8_decode_utf8, encode_utf8_valid_utf8};

verus! {

/// Appending one entry changes exactly the lookup of its field number.
proof fn lemma_lookup_push(es: Seq<(u64, FieldVal)>, f: u64, x: FieldVal)
    ensures
        forall|q: u64| #[trigger] seq_lookup(es.push((f, x)), q) == (if q == f {
            Some(x)
        } else {
            seq_lookup(es, q)
        }),
{
    let es2 = es.push((f, x));
    assert(es2.drop_last() =~= es);
    assert(es2.last() == (f, x));
}

/// A character sequence encodes to no bytes exactly when it is empty.
proof fn lemma_encode_utf8_empty(s: Seq<char>)
    ensures
        encode_utf8(s).len() == 0 <==> s.len() == 0,
{
    if s.len() > 0 {
        assert(encode_utf8(s) == encode_scalar(s[0] as u32) + encode_utf8(s.drop_first()));
        assert(encode_scalar(s[0] as u32).len() >= 1);
    }
}

/// The entries after an implicit-presence numeric field: unchanged when the
/// value is zero and the field omitted.
spec fn next_es_num(es: Seq<(u64, FieldVal)>, f: u64, v: u64) -> Seq<(u64, FieldVal)> {
    if v == 0 {
        es
    } else {
        es.push((f, FieldVal::Num(v)))
    }
}

/// Walk the parse across one implicit-presence numeric field.
proof fn step_num(p: Seq<u8>, pos: int, es: Seq<(u64, FieldVal)>, f: u64, v: u64)
    requires
        0 <= pos,
        1 <= f <= 7,
        pos + opt_num_field(f, v).len() <= p.len(),
        p.subrange(pos, pos + opt_num_field(f, v).len() as int) == opt_num_field(f, v),
    ensures
        parse_fields_at(p, pos, es) == parse_fields_at(
            p,
            pos + opt_num_field(f, v).len() as int,
            next_es_num(es, f, v),
        ),
        forall|q: u64| #[trigger] seq_lookup(next_es_num(es, f, v), q) == (if q == f && v != 0 {
            Some(FieldVal::Num(v))
        } else {
            seq_lookup(es, q)
        }),
{
    if v != 0 {
        lemma_parse_num_field(p, pos, es, f, v);
        lemma_lookup_push(es, f, FieldVal::Num(v));
    }
}

/// The entries after an implicit-presence delimited field: unchanged when
/// the bytes are empty and the field omitted.
spec fn next_es_delim(es: Seq<(u64, FieldVal)>, f: u64, b: Seq<u8>) -> Seq<(u64, FieldVal)> {
    if b.len() == 0 {
        es
    } else {
        es.push((f, FieldVal::Delim(b)))
    }
}

/// Walk the parse across one implicit-presence delimited field.
proof fn step_delim(p: Seq<u8>, pos: int, es: Seq<(u64, FieldVal)>, f: u64, b: Seq<u8>)
    requires
        0 <= pos,
        1 <= f <= 7,
        b.len() <= u64::MAX,
        pos + opt_delim_field(f, b).len() <= p.len(),
        p.subrange(pos, pos + opt_delim_field(f, b).len() as int) == opt_delim_field(f, b),
    ensures
        parse_fields_at(p, pos, es) == parse_fields_at(
            p,
            pos + opt_delim_field(f, b).len() as int,
            next_es_delim(es, f, b),
        ),
        forall|q: u64| #[trigger] seq_lookup(next_es_delim(es, f, b), q) == (if q == f && b.len()
            != 0 {
            Some(FieldVal::Delim(b))
        } else {
            seq_lookup(es, q)
        }),
{
    if b.len() != 0 {
        lemma_parse_delim_field(p, pos, es, f, b);
        lemma_lookup_push(es, f, FieldVal::Delim(b));
    }
}

/// The entries after an explicit-presence string field: present whenever
/// the value is present, even as the empty string.
spec fn next_es_opt_str(es: Seq<(u64, FieldVal)>, f: u64, s: Option<Seq<char>>) -> Seq<
    (u64, FieldVal),
> {
    match s {
        None => es,
        Some(m) => es.push((f, FieldVal::Delim(encode_utf8(m)))),
    }
}

/// Walk the parse across one explicit-presence optional string field.
proof fn step_opt_str(p: Seq<u8>, pos: int, es: Seq<(u64, FieldVal)>, f: u64, s: Option<Seq<char>>)
    requires
        0 <= pos,
        1 <= f <= 7,
        (s matches Some(m) ==> encode_utf8(m).len() <= u64::MAX),
        pos + opt_string_field(f, s).len() <= p.len(),
        p.subrange(pos, pos + opt_string_field(f, s).len() as int) == opt_string_field(f, s),
    ensures
        parse_fields_at(p, pos, es) == parse_fields_at(
            p,
            pos + opt_string_field(f, s).len() as int,
            next_es_opt_str(es, f, s),
        ),
        forall|q: u64| #[trigger] seq_lookup(next_es_opt_str(es, f, s), q) == (if q == f
            && s is Some {
            Some(FieldVal::Delim(encode_utf8(s->Some_0)))
        } else {
            seq_lookup(es, q)
        }),
{
    if let Some(m) = s {
        lemma_parse_delim_field(p, pos, es, f, encode_utf8(m));
        lemma_lookup_push(es, f, FieldVal::Delim(encode_utf8(m)));
    }
}

/// An error payload with any kind code — known or not — decodes to the
/// `Error` message whose kind that code denotes.
proof fn lemma_error_payload_record(code: i32, reason: Option<Seq<char>>)
    requires
        spec_error_payload(code, reason).len() <= u64::MAX,
    ensures
        spec_decode_payload(1, spec_error_payload(code, reason)) == Some(
            MessageView::Error { kind: spec_kind_of_code(code), reason },
        ),
{
    let p = spec_error_payload(code, reason);
    let empty = Seq::<(u64, FieldVal)>::empty();
    let c1 = opt_num_field(1, code as u64);
    let c2 = opt_string_field(3, reason);
    assert(p == c1 + c2);
    assert(p.subrange(0, c1.len() as int) =~= c1);
    assert(p.subrange(c1.len() as int, c1.len() + c2.len() as int) =~= c2);
    step_num(p, 0, empty, 1, code as u64);
    let es1 = next_es_num(empty, 1, code as u64);
    step_opt_str(p, c1.len() as int, es1, 3, reason);
    let es2 = next_es_opt_str(es1, 3, reason);
    assert(parse_fields_at(p, p.len() as int, es2) == Some(es2));
    assert(spec_record(p) == Some(es2));
    if let Some(m) = reason {
        encode_utf8_valid_utf8(m);
        encode_utf8_decode_utf8(m);
    }
    assert((code as u64) as i32 == code) by (bit_vector);
    assert(interp_error(es2) == Some(MessageView::Error { kind: spec_kind_of_code(code), reason }));
}

/// The canonical payload of an `UploadTo` message decodes back to it.
proof fn lemma_upload_to_record(file_id: u32, upload_url: Seq<char>)
    requires
        encodable(MessageView::UploadTo { file_id, upload_url }),
    ensures
        spec_decode_payload(2, spec_payload(MessageView::UploadTo { file_id, upload_url }))
            == Some(MessageView::UploadTo { file_id, upload_url }),
{
    let v = MessageView::UploadTo { file_id, upload_url };
    let p = spec_payload(v);
    let empty = Seq::<(u64, FieldVal)>::empty();
    let fid = file_id as u64;
    let ub = encode_utf8(upload_url);
    let c1 = opt_num_field(1, fid);
    let c2 = opt_delim_field(2, ub);
    assert(p == c1 + c2);
    assert(p.subrange(0, c1.len() as int) =~= c1);
    assert(p.subrange(c1.len() as int, c1.len() + c2.len() as int) =~= c2);
    step_num(p, 0, empty, 1, fid);
    let es1 = next_es_num(empty, 1, fid);
    step_delim(p, c1.len() as int, es1, 2, ub);
    let es2 = next_es_delim(es1, 2, ub);
    assert(parse_fields_at(p, p.len() as int, es2) == Some(es2));
    assert(spec_record(p) == Some(es2));
    encode_utf8_valid_utf8(upload_url);
    encode_utf8_decode_utf8(upload_url);
    lemma_encode_utf8_empty(upload_url);
    assert(interp_upload_to(es2) == Some(v));
}

/// The canonical payload of a `MetadataReq` message decodes back to it.
proof fn lemma_metadata_req_record(file_id: u32, upload_id: u64)
    requires
        encodable(MessageView::MetadataReq { file_id, upload_id }),
    ensures
        spec_decode_payload(3, spec_payload(MessageView::MetadataReq { file_id, upload_id }))
            == Some(MessageView::MetadataReq { file_id, upload_id }),
{
    let v = MessageView::MetadataReq { file_id, upload_id };
    let p = spec_payload(v);
    let empty = Seq::<(u64, FieldVal)>::empty();
    let fid = file_id as u64;
    let c1 = opt_num_field(1, fid);
    let c2 = opt_num_field(2, upload_id);
    assert(p == c1 + c2);
    assert(p.subrange(0, c1.len() as int) =~= c1);
    assert(p.subrange(c1.len() as int, c1.len() + c2.len() as int) =~= c2);
    step_num(p, 0, empty, 1, fid);
    let es1 = next_es_num(empty, 1, fid);
    step_num(p, c1.len() as int, es1, 2, upload_id);
    let es2 = next_es_num(es1, 2, upload_id);
    assert(parse_fields_at(p, p.len() as int, es2) == Some(es2));
    assert(spec_record(p) == Some(es2));
    assert(interp_metadata_req(es2) == Some(v));
}

/// The canonical payload of a `MetadataRes` message decodes back to it.
#[verifier::rlimit(100)]
#[verifier::spinoff_prover]
proof fn lemma_metadata_res_record(
    file_id: u32,
    exp: u64,
    crt: u64,
    file_size: u64,
    username: Seq<char>,
    file_name: Seq<char>,
    upload_id: u64,
)
    requires
        encodable(
            MessageView::MetadataRes {
                file_id,
                exp,
                crt,
                file_size,
                username,
                file_name,
                upload_id,
            },
        ),
    ensures
        spec_decode_payload(
            4,
            spec_payload(
                MessageView::MetadataRes {
                    file_id,
                    exp,
                    crt,
                    file_size,
                    username,
                    file_name,
                    upload_id,
                },
            ),
        ) == Some(
            MessageView::MetadataRes {
                file_id,
                exp,
                crt,
                file_size,
                username,
                file_name,
                upload_id,
            },
        ),
{
    let v = MessageView::MetadataRes {
        file_id,
        exp,
        crt,
        file_size,
        username,
        file_name,
        upload_id,
    };
    let p = spec_payload(v);
    let empty = Seq::<(u64, FieldVal)>::empty();
    let fid = file_id as u64;
    let un = encode_utf8(username);
    let fnb = encode_utf8(file_name);
    let c1 = opt_num_field(1, fid);
    let c2 = opt_num_field(2, exp);
    let c3 = opt_num_field(3, crt);
    let c4 = opt_num_field(4, file_size);
    let c5 = opt_delim_field(5, un);
    let c6 = opt_delim_field(6, fnb);
    let c7 = opt_num_field(7, upload_id);
    assert(p == c1 + c2 + c3 + c4 + c5 + c6 + c7);
    let p1 = c1.len() as int;
    let p2 = p1 + c2.len();
    let p3 = p2 + c3.len();
    let p4 = p3 + c4.len();
    let p5 = p4 + c5.len();
    let p6 = p5 + c6.len();
    let p7 = p6 + c7.len();
    assert(p.subrange(0, p1) =~= c1);
    assert(p.subrange(p1, p2) =~= c2);
    assert(p.subrange(p2, p3) =~= c3);
    assert(p.subrange(p3, p4) =~= c4);
    assert(p.subrange(p4, p5) =~= c5);
    assert(p.subrange(p5, p6) =~= c6);
    assert(p.subrange(p6, p7) =~= c7);
    step_num(p, 0, empty, 1, fid);
    let es1 = next_es_num(empty, 1, fid);
    step_num(p, p1, es1, 2, exp);
    let es2 = next_es_num(es1, 2, exp);
    step_num(p, p2, es2, 3, crt);
    let es3 = next_es_num(es2, 3, crt);
    step_num(p, p3, es3, 4, file_size);
    let es4 = next_es_num(es3, 4, file_size);
    step_delim(p, p4, es4, 5, un);
    let es5 = next_es_delim(es4, 5, un);
    step_delim(p, p5, es5, 6, fnb);
    let es6 = next_es_delim(es5, 6, fnb);
    step_num(p, p6, es6, 7, upload_id);
    let es7 = next_es_num(es6, 7, upload_id);
    assert(parse_fields_at(p, p.len() as int, es7) == Some(es7));
    assert(spec_record(p) == Some(es7));
    encode_utf8_valid_utf8(username);
    encode_utf8_decode_utf8(username);
    lemma_encode_utf8_empty(username);
    encode_utf8_valid_utf8(file_name);
    encode_utf8_decode_utf8(file_name);
    lemma_encode_utf8_empty(file_name);
    assert(interp_metadata_res(es7) == Some(v));
}

/// The canonical payload of a single-number message decodes to that number
/// under fields one; this covers `AuthReq` and `StatusReq`.
proof fn lemma_single_num_record(public_id: u64)
    ensures
        spec_record(opt_num_field(1, public_id)) matches Some(es) && seq_lookup(es, 1) == (if public_id == 0 {
            None
        } else {
            Some(FieldVal::Num(public_id))
        }) && (forall|q: u64| q != 1 ==> #[trigger] seq_lookup(es, q) is None),
{
    let p = opt_num_field(1, public_id);
    let empty = Seq::<(u64, FieldVal)>::empty();
    assert(p.subrange(0, p.len() as int) =~= p);
    step_num(p, 0, empty, 1, public_id);
    let es1 = next_es_num(empty, 1, public_id);
    assert(parse_fields_at(p, p.len() as int, es1) == Some(es1));
    assert(spec_record(p) == Some(es1));
}

/// The canonical payload of an `AuthRes` message decodes back to it.
proof fn lemma_auth_res_record(public_id: u64, passcode: Seq<u8>)
    requires
        encodable(MessageView::AuthRes { public_id, passcode }),
    ensures
        spec_decode_payload(6, spec_payload(MessageView::AuthRes { public_id, passcode }))
            == Some(MessageView::AuthRes { public_id, passcode }),
{
    let v = MessageView::AuthRes { public_id, passcode };
    let p = spec_payload(v);
    let empty = Seq::<(u64, FieldVal)>::empty();
    let c1 = opt_num_field(1, public_id);
    let c2 = opt_delim_field(2, passcode);
    assert(p == c1 + c2);
    assert(p.subrange(0, c1.len() as int) =~= c1);
    assert(p.subrange(c1.len() as int, c1.len() + c2.len() as int) =~= c2);
    step_num(p, 0, empty, 1, public_id);
    let es1 = next_es_num(empty, 1, public_id);
    step_delim(p, c1.len() as int, es1, 2, passcode);
    let es2 = next_es_delim(es1, 2, passcode);
    assert(parse_fields_at(p, p.len() as int, es2) == Some(es2));
    assert(spec_record(p) == Some(es2));
    assert(interp_auth_res(es2) == Some(v));
}

/// The canonical payload of a `StatusRes` message decodes back to it.
#[verifier::rlimit(60)]
#[verifier::spinoff_prover]
proof fn lemma_status_res_record(
    public_id: u64,
    ready: bool,
    uptime: u64,
    message: Option<Seq<char>>,
)
    requires
        encodable(MessageView::StatusRes { public_id, ready, uptime, message }),
    ensures
        spec_decode_payload(
            8,
            spec_payload(MessageView::StatusRes { public_id, ready, uptime, message }),
        ) == Some(MessageView::StatusRes { public_id, ready, uptime, message }),
{
    let v = MessageView::StatusRes { public_id, ready, uptime, message };
    let p = spec_payload(v);
    let empty = Seq::<(u64, FieldVal)>::empty();
    let rn: u64 = if ready {
        1
    } else {
        0
    };
    let c1 = opt_num_field(1, public_id);
    let c2 = opt_num_field(2, rn);
    let c3 = opt_num_field(3, uptime);
    let c4 = opt_string_field(4, message);
    assert(p == c1 + c2 + c3 + c4);
    let p1 = c1.len() as int;
    let p2 = p1 + c2.len();
    let p3 = p2 + c3.len();
    let p4 = p3 + c4.len();
    assert(p.subrange(0, p1) =~= c1);
    assert(p.subrange(p1, p2) =~= c2);
    assert(p.subrange(p2, p3) =~= c3);
    assert(p.subrange(p3, p4) =~= c4);
    step_num(p, 0, empty, 1, public_id);
    let es1 = next_es_num(empty, 1, public_id);
    step_num(p, p1, es1, 2, rn);
    let es2 = next_es_num(es1, 2, rn);
    step_num(p, p2, es2, 3, uptime);
    let es3 = next_es_num(es2, 3, uptime);
    step_opt_str(p, p3, es3, 4, message);
    let es4 = next_es_opt_str(es3, 4, message);
    assert(parse_fields_at(p, p.len() as int, es4) == Some(es4));
    assert(spec_record(p) == Some(es4));
    if let Some(m) = message {
        encode_utf8_valid_utf8(m);
        encode_utf8_decode_utf8(m);
    }
    assert(interp_status_res(es4) == Some(v));
}

/// The canonical payload of every message other than the acknowledgement
/// decodes, under that message's own discriminant, back to the message.
proof fn lemma_payload_roundtrip(v: MessageView)
    requires
        encodable(v),
        !(v is Ack),
    ensures
        spec_decode_payload(spec_discriminant(v), spec_payload(v)) == Some(v),
{
    match v {
        MessageView::Ack => {},
        MessageView::Error { kind, reason } => {
            lemma_error_payload_record(spec_kind_code(kind), reason);
        },
        MessageView::UploadTo { file_id, upload_url } => {
            lemma_upload_to_record(file_id, upload_url);
        },
        MessageView::MetadataReq { file_id, upload_id } => {
            lemma_metadata_req_record(file_id, upload_id);
        },
        MessageView::MetadataRes { file_id, exp, crt, file_size, username, file_name, upload_id } => {
            lemma_metadata_res_record(file_id, exp, crt, file_size, username, file_name, upload_id);
        },
        MessageView::AuthReq { public_id } => {
            lemma_single_num_record(public_id);
            if let Some(es) = spec_record(spec_payload(v)) {
                assert(interp_auth_req(es) == Some(v));
            }
        },
        MessageView::AuthRes { public_id, passcode } => {
            lemma_auth_res_record(public_id, passcode);
        },
        MessageView::StatusReq { public_id } => {
            lemma_single_num_record(public_id);
            if let Some(es) = spec_record(spec_payload(v)) {
                assert(interp_status_req(es) == Some(v));
            }
        },
        MessageView::StatusRes { public_id, ready, uptime, message } => {
            lemma_status_res_record(public_id, ready, uptime, message);
        },
    }
}

/// Round-trip law: decoding the canonical encoding of any encodable message
/// yields exactly that message.
pub proof fn lemma_round_trip(v: MessageView)
    requires
        encodable(v),
    ensures
        spec_decode(spec_encode(v)) == DecodeOutcome::Msg(v),
{
    let env = EnvelopeView { discriminant: spec_discriminant(v), payload: spec_payload(v) };
    lemma_envelope_roundtrip(env);
    if !(v is Ack) {
        lemma_payload_roundtrip(v);
    }
}

/// The message that an empty payload denotes under each known discriminant:
/// the default value of that discriminant's message kind.
pub open spec fn default_message(d: i32) -> MessageView {
    if d == 0 {
        MessageView::Ack
    } else if d == 1 {
        MessageView::Error { kind: ErrorKind::Unknown, reason: None }
    } else if d == 2 {
        MessageView::UploadTo { file_id: 0, upload_url: Seq::<char>::empty() }
    } else if d == 3 {
        MessageView::MetadataReq { file_id: 0, upload_id: 0 }
    } else if d == 4 {
        MessageView::MetadataRes {
            file_id: 0,
            exp: 0,
            crt: 0,
            file_size: 0,
            username: Seq::<char>::empty(),
            file_name: Seq::<char>::empty(),
            upload_id: 0,
        }
    } else if d == 5 {
        MessageView::AuthReq { public_id: 0 }
    } else if d == 6 {
        MessageView::AuthRes { public_id: 0, passcode: Seq::<u8>::empty() }
    } else if d == 7 {
        MessageView::StatusReq { public_id: 0 }
    } else {
        MessageView::StatusRes { public_id: 0, ready: false, uptime: 0, message: None }
    }
}

/// Discriminant bijection: under every known discriminant, an envelope with
/// an empty payload decodes to a message of that discriminant's own kind —
/// so no two discriminants ever decode to colliding variants, and encoding
/// the decoded message names the discriminant again.
pub proof fn lemma_discriminant_bijection(d: i32)
    requires
        0 <= d <= 8,
    ensures
        spec_envelope_to_message_of(d) == DecodeOutcome::Msg(default_message(d)),
        spec_discriminant(default_message(d)) == d,
{
    let empty = Seq::<(u64, FieldVal)>::empty();
    let p = Seq::<u8>::empty();
    assert(parse_fields_at(p, 0, empty) == Some(empty));
    assert(spec_record(p) == Some(empty));
}

/// The outcome of decoding an envelope with discriminant `d` and an empty
/// payload.
pub open spec fn spec_envelope_to_message_of(d: i32) -> DecodeOutcome {
    crate::codec::spec_envelope_to_message(
        EnvelopeView { discriminant: d, payload: Seq::<u8>::empty() },
    )
}

/// No two known discriminants decode to the same message: the discriminant
/// alone determines which kind of message an envelope denotes.
pub proof fn lemma_no_variant_collision(d1: i32, d2: i32)
    requires
        0 <= d1 <= 8,
        0 <= d2 <= 8,
        d1 != d2,
    ensures
        spec_envelope_to_message_of(d1) != spec_envelope_to_message_of(d2),
{
    lemma_discriminant_bijection(d1);
    lemma_discriminant_bijection(d2);
}

/// Unknown discriminant rejection: an envelope whose discriminant names no
/// known message kind decodes to the unrecognised-variant error, whatever
/// its payload holds.
pub proof fn lemma_unknown_discriminant(d: i32, p: Seq<u8>)
    requires
        !(0 <= d <= 8),
        p.len() <= u64::MAX,
    ensures
        spec_decode(spec_envelope_bytes(EnvelopeView { discriminant: d, payload: p }))
            == DecodeOutcome::UnknownDiscriminant,
{
    lemma_envelope_roundtrip(EnvelopeView { discriminant: d, payload: p });
}

/// Unknown error-kind tolerance: an error payload whose kind code lies
/// outside the known set decodes to `ErrorKind::Unknown`, never to a decode
/// failure.
pub proof fn lemma_unknown_error_kind_tolerance(code: i32, reason: Option<Seq<char>>)
    requires
        spec_error_payload(code, reason).len() <= u64::MAX,
    ensures
        spec_decode(
            spec_envelope_bytes(
                EnvelopeView { discriminant: 1, payload: spec_error_payload(code, reason) },
            ),
        ) == DecodeOutcome::Msg(MessageView::Error { kind: spec_kind_of_code(code), reason }),
        code != 1 && code != 2 && code != 3 ==> spec_kind_of_code(code) == ErrorKind::Unknown,
{
    lemma_envelope_roundtrip(
        EnvelopeView { discriminant: 1, payload: spec_error_payload(code, reason) },
    );
    lemma_error_payload_record(code, reason);
}

} // verus!
