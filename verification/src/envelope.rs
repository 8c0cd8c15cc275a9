//! The wire envelope: the fixed outer record pairing a numeric discriminant
//! with an opaque payload. This is the minimal stable contract that must
//! round-trip even as the payload schemas evolve.

use crate::error::Error;
use crate::wire::{
    delim_field, delim_field_ok, entries_view, extract_slots, lemma_parse_delim_field,
    lemma_parse_num_field, num_field, num_field_ok, parse_record, seq_lookup, spec_delim_field,
    spec_num_field, spec_record, write_delim_field, write_num_field, FieldData, FieldVal,
};
use vstd::prelude::*;

verus! {

/// The outer wire record: a discriminant that selects the payload's schema,
/// and the payload bytes themselves.
///
/// The discriminant uniquely determines how the payload is to be read; an
/// unrecognised discriminant is always a decode error at the message layer,
/// never silently dropped.
#[derive(Debug, Clone, PartialEq, Eq)]
pub struct Envelope {
    /// The stable integer tag naming the payload's schema.
    pub discriminant: i32,
    /// The payload bytes, opaque at this layer.
    pub payload: Vec<u8>,
}

/// The mathematical value of an `Envelope`.
#[verifier::ext_equal]
pub struct EnvelopeView {
    /// The discriminant.
    pub discriminant: i32,
    /// The payload bytes.
    pub payload: Seq<u8>,
}

impl View for Envelope {
    type V = EnvelopeView;

    open spec fn view(&self) -> EnvelopeView {
        EnvelopeView { discriminant: self.discriminant, payload: self.payload@ }
    }
}

/// The canonical wire bytes of an envelope: the discriminant as numeric
/// field one, the payload as length-delimited field two, each omitted when
/// it holds its default value.
pub open spec fn spec_envelope_bytes(v: EnvelopeView) -> Seq<u8> {
    (if v.discriminant == 0 {
        Seq::<u8>::empty()
    } else {
        spec_num_field(1, v.discriminant as u64)
    }) + (if v.payload.len() == 0 {
        Seq::<u8>::empty()
    } else {
        spec_delim_field(2, v.payload)
    })
}

/// Whether the fields of a record fit the envelope schema.
pub open spec fn envelope_entries_ok(es: Seq<(u64, FieldVal)>) -> bool {
    num_field_ok(es, 1) && delim_field_ok(es, 2)
}

/// The envelope a record denotes.
pub open spec fn envelope_of_entries(es: Seq<(u64, FieldVal)>) -> EnvelopeView {
    EnvelopeView {
        discriminant: num_field(es, 1) as i32,
        payload: match delim_field(es, 2) {
            Some(b) => b,
            None => Seq::<u8>::empty(),
        },
    }
}

/// The envelope denoted by a byte sequence, or `None` when the bytes are
/// not a well-formed envelope record.
pub open spec fn spec_envelope_decode(s: Seq<u8>) -> Option<EnvelopeView> {
    match spec_record(s) {
        None => None,
        Some(es) => if envelope_entries_ok(es) {
            Some(envelope_of_entries(es))
        } else {
            None
        },
    }
}

impl Envelope {
    /// Encode this envelope into its canonical wire bytes. Encoding always
    /// succeeds, for every discriminant and payload.
    pub fn encode(&self) -> (r: Vec<u8>)
        ensures
            r@ == spec_envelope_bytes(self@),
    {
        let mut out: Vec<u8> = Vec::new();
        if self.discriminant != 0 {
            write_num_field(&mut out, 1, self.discriminant as u64);
        }
        if self.payload.len() > 0 {
            write_delim_field(&mut out, 2, self.payload.as_slice());
        }
        proof {
            assert(Seq::<u8>::empty() + (if self@.payload.len() == 0 {
                Seq::<u8>::empty()
            } else {
                spec_delim_field(2, self@.payload)
            }) =~= (if self@.payload.len() == 0 {
                Seq::<u8>::empty()
            } else {
                spec_delim_field(2, self@.payload)
            }));
            assert(spec_num_field(1, self@.discriminant as u64) + Seq::<u8>::empty() =~= spec_num_field(
                1,
                self@.discriminant as u64,
            ));
            assert(Seq::<u8>::empty() + Seq::<u8>::empty() =~= Seq::<u8>::empty());
        }
        out
    }

    /// Decode an envelope from wire bytes. Fails exactly when the bytes are
    /// not a well-formed field-tagged record, or when a field the envelope
    /// schema knows arrives with the wrong wire kind.
    pub fn decode(s: &[u8]) -> (r: Result<Envelope, Error>)
        ensures
            match spec_envelope_decode(s@) {
                Some(v) => r matches Ok(env) && env@ == v,
                None => r matches Err(e) && e matches Error::ByteDecodeError(m) && m@
                    == "malformed wire data"@,
            },
    {
        match parse_record(s, 0) {
            None => Err(Error::ByteDecodeError("malformed wire data".to_owned())),
            Some(entries) => {
                let ghost ev = entries_view(entries@);
                let slots = extract_slots(entries);
                proof {
                    assert(slots.slot(1) == seq_lookup(ev, 1));
                    assert(slots.slot(2) == seq_lookup(ev, 2));
                }
                let discriminant: i32 = match slots.f1 {
                    None => 0,
                    Some(FieldData::Num(v)) => #[verifier::truncate] (v as i32),
                    Some(_) => {
                        return Err(Error::ByteDecodeError("malformed wire data".to_owned()));
                    },
                };
                let payload: Vec<u8> = match slots.f2 {
                    None => Vec::new(),
                    Some(FieldData::Delim(b)) => b,
                    Some(_) => {
                        return Err(Error::ByteDecodeError("malformed wire data".to_owned()));
                    },
                };
                Ok(Envelope { discriminant, payload })
            },
        }
    }
}

/// Every envelope whose payload length fits the wire's length prefix decodes
/// back to itself from its canonical bytes.
pub proof fn lemma_envelope_roundtrip(v: EnvelopeView)
    requires
        v.payload.len() <= u64::MAX,
    ensures
        spec_envelope_decode(spec_envelope_bytes(v)) == Some(v),
{
    let s = spec_envelope_bytes(v);
    let empty = Seq::<(u64, FieldVal)>::empty();
    let d = v.discriminant;
    let p = v.payload;
    if d == 0 && p.len() == 0 {
        assert(s =~= Seq::<u8>::empty());
        assert(spec_record(s) == Some(empty));
        assert(envelope_of_entries(empty) =~= v);
    } else if d != 0 && p.len() == 0 {
        let a = spec_num_field(1, d as u64);
        assert(s =~= a);
        assert(s.subrange(0, a.len() as int) =~= a);
        lemma_parse_num_field(s, 0, empty, 1, d as u64);
        let es = empty.push((1u64, FieldVal::Num(d as u64)));
        assert(spec_record(s) == Some(es));
        assert(es.drop_last() =~= empty);
        assert(seq_lookup(es, 1) == Some(FieldVal::Num(d as u64)));
        assert(seq_lookup(es, 2) == seq_lookup(empty, 2));
        assert((d as u64) as i32 == d) by (bit_vector);
        assert(envelope_of_entries(es) =~= v);
    } else if d == 0 && p.len() > 0 {
        let b = spec_delim_field(2, p);
        assert(s =~= b);
        assert(s.subrange(0, b.len() as int) =~= b);
        lemma_parse_delim_field(s, 0, empty, 2, p);
        let es = empty.push((2u64, FieldVal::Delim(p)));
        assert(spec_record(s) == Some(es));
        assert(es.drop_last() =~= empty);
        assert(seq_lookup(es, 2) == Some(FieldVal::Delim(p)));
        assert(seq_lookup(es, 1) == seq_lookup(empty, 1));
        assert(envelope_of_entries(es) =~= v);
    } else {
        let a = spec_num_field(1, d as u64);
        let b = spec_delim_field(2, p);
        assert(s == a + b);
        assert(s.subrange(0, s.len() as int) =~= s);
        crate::wire::lemma_subrange_concat(s, 0, a, b);
        lemma_parse_num_field(s, 0, empty, 1, d as u64);
        let es1 = empty.push((1u64, FieldVal::Num(d as u64)));
        lemma_parse_delim_field(s, a.len() as int, es1, 2, p);
        let es = es1.push((2u64, FieldVal::Delim(p)));
        assert(spec_record(s) == Some(es));
        assert(es.drop_last() =~= es1);
        assert(es1.drop_last() =~= empty);
        assert(seq_lookup(es, 2) == Some(FieldVal::Delim(p)));
        assert(seq_lookup(es, 1) == seq_lookup(es1, 1));
        assert(seq_lookup(es1, 1) == Some(FieldVal::Num(d as u64)));
        assert((d as u64) as i32 == d) by (bit_vector);
        assert(envelope_of_entries(es) =~= v);
    }
}

} // verus!
