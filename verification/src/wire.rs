//! The field-tagged record layer of the wire form.
//!
//! A record is a sequence of fields, each introduced by a varint tag holding
//! a field number and a wire kind: numeric (varint), eight-byte, length-
//! delimited, or four-byte. Decoders skip fields they do not know and accept
//! fields in any order; when a field number repeats, the last occurrence
//! wins, so a record denotes a partial map from field numbers to values.

use crate::varint::{
    lemma_raw_varint_bounds, lemma_spec_varint_len, lemma_varint_parse_encode, read_varint,
    spec_varint, varint_at, write_varint,
};
use vstd::prelude::*;

verus! {

/// The value of one wire field, at the specification level. The two
/// fixed-width kinds can only be skipped, never interpreted, so their
/// payload is not retained.
pub enum FieldVal {
    /// A numeric (varint) field.
    Num(u64),
    /// A length-delimited field.
    Delim(Seq<u8>),
    /// An eight-byte field.
    Fix64,
    /// A four-byte field.
    Fix32,
}

/// The value of one wire field, as decoded at run time.
#[derive(Debug)]
pub enum FieldData {
    /// A numeric (varint) field.
    Num(u64),
    /// A length-delimited field.
    Delim(Vec<u8>),
    /// An eight-byte field.
    Fix64,
    /// A four-byte field.
    Fix32,
}

impl View for FieldData {
    type V = FieldVal;

    open spec fn view(&self) -> FieldVal {
        match self {
            FieldData::Num(v) => FieldVal::Num(*v),
            FieldData::Delim(b) => FieldVal::Delim(b@),
            FieldData::Fix64 => FieldVal::Fix64,
            FieldData::Fix32 => FieldVal::Fix32,
        }
    }
}

/// The field entries denoted by a run-time record.
pub open spec fn entries_view(es: Seq<(u64, FieldData)>) -> Seq<(u64, FieldVal)> {
    es.map_values(|p: (u64, FieldData)| (p.0, p.1@))
}

/// Parse every field of `s` from position `i` to the end, appending each to
/// `es`; `None` when the bytes are not a well-formed record.
pub open spec fn parse_fields_at(s: Seq<u8>, i: int, es: Seq<(u64, FieldVal)>) -> Option<
    Seq<(u64, FieldVal)>,
>
    decreases s.len() - i
        when 0 <= i <= s.len()
        via parse_fields_at_decreases
{
    if i >= s.len() {
        Some(es)
    } else {
        match varint_at(s, i) {
            None => None,
            Some((tag, e)) => {
                let f = tag / 8;
                let wt = tag % 8;
                if f == 0 {
                    None
                } else if wt == 0 {
                    match varint_at(s, e) {
                        None => None,
                        Some((v, e2)) => parse_fields_at(s, e2, es.push((f, FieldVal::Num(v)))),
                    }
                } else if wt == 1 {
                    if e + 8 <= s.len() {
                        parse_fields_at(s, e + 8, es.push((f, FieldVal::Fix64)))
                    } else {
                        None
                    }
                } else if wt == 2 {
                    match varint_at(s, e) {
                        None => None,
                        Some((len, e2)) => if e2 + len <= s.len() {
                            parse_fields_at(
                                s,
                                e2 + len,
                                es.push((f, FieldVal::Delim(s.subrange(e2, e2 + len)))),
                            )
                        } else {
                            None
                        },
                    }
                } else if wt == 5 {
                    if e + 4 <= s.len() {
                        parse_fields_at(s, e + 4, es.push((f, FieldVal::Fix32)))
                    } else {
                        None
                    }
                } else {
                    None
                }
            },
        }
    }
}

#[via_fn]
proof fn parse_fields_at_decreases(s: Seq<u8>, i: int, es: Seq<(u64, FieldVal)>) {
    lemma_raw_varint_bounds(s, i);
    if i < s.len() {
        if let Some((tag, e)) = varint_at(s, i) {
            lemma_raw_varint_bounds(s, e);
        }
    }
}

/// The field entries of a whole record.
pub open spec fn spec_record(s: Seq<u8>) -> Option<Seq<(u64, FieldVal)>> {
    parse_fields_at(s, 0, Seq::<(u64, FieldVal)>::empty())
}

/// The winning (last) occurrence of field `f` among the entries.
pub open spec fn seq_lookup(es: Seq<(u64, FieldVal)>, f: u64) -> Option<FieldVal>
    decreases es.len(),
{
    if es.len() == 0 {
        None
    } else if es.last().0 == f {
        Some(es.last().1)
    } else {
        seq_lookup(es.drop_last(), f)
    }
}

/// Whether field `f` is either absent or numeric, as a numeric field of a
/// known message schema demands.
pub open spec fn num_field_ok(es: Seq<(u64, FieldVal)>, f: u64) -> bool {
    match seq_lookup(es, f) {
        None => true,
        Some(FieldVal::Num(_)) => true,
        Some(_) => false,
    }
}

/// The value of numeric field `f`, zero when absent.
pub open spec fn num_field(es: Seq<(u64, FieldVal)>, f: u64) -> u64 {
    match seq_lookup(es, f) {
        Some(FieldVal::Num(v)) => v,
        _ => 0,
    }
}

/// Whether field `f` is either absent or length-delimited, as a string or
/// bytes field of a known message schema demands.
pub open spec fn delim_field_ok(es: Seq<(u64, FieldVal)>, f: u64) -> bool {
    match seq_lookup(es, f) {
        None => true,
        Some(FieldVal::Delim(_)) => true,
        Some(_) => false,
    }
}

/// The bytes of length-delimited field `f`, `None` when absent.
pub open spec fn delim_field(es: Seq<(u64, FieldVal)>, f: u64) -> Option<Seq<u8>> {
    match seq_lookup(es, f) {
        Some(FieldVal::Delim(b)) => Some(b),
        _ => None,
    }
}

/// The canonical encoding of a numeric field.
pub open spec fn spec_num_field(f: u64, v: u64) -> Seq<u8> {
    spec_varint((f * 8) as nat) + spec_varint(v as nat)
}

/// The canonical encoding of a length-delimited field.
pub open spec fn spec_delim_field(f: u64, b: Seq<u8>) -> Seq<u8> {
    spec_varint((f * 8 + 2) as nat) + spec_varint(b.len()) + b
}

/// A concatenation found inside `s` splits into its two parts.
pub proof fn lemma_subrange_concat(s: Seq<u8>, i: int, a: Seq<u8>, b: Seq<u8>)
    requires
        0 <= i,
        i + a.len() + b.len() <= s.len(),
        s.subrange(i, i + a.len() + b.len()) == a + b,
    ensures
        s.subrange(i, i + a.len() as int) == a,
        s.subrange(i + a.len() as int, i + a.len() + b.len()) == b,
{
    let whole = s.subrange(i, i + a.len() + b.len());
    assert forall|j: int| 0 <= j < a.len() implies s.subrange(i, i + a.len() as int)[j]
        == a[j] by {
        assert(whole[j] == (a + b)[j]);
    }
    assert(s.subrange(i, i + a.len() as int) =~= a);
    assert forall|j: int| 0 <= j < b.len() implies s.subrange(
        i + a.len() as int,
        i + a.len() + b.len(),
    )[j] == b[j] by {
        assert(whole[j + a.len()] == (a + b)[j + a.len()]);
    }
    assert(s.subrange(i + a.len() as int, i + a.len() + b.len()) =~= b);
}

/// Parsing a record that starts with a canonically encoded numeric field
/// records that field and goes on behind it.
pub proof fn lemma_parse_num_field(s: Seq<u8>, i: int, es: Seq<(u64, FieldVal)>, f: u64, v: u64)
    requires
        0 <= i,
        1 <= f <= 7,
        i + spec_num_field(f, v).len() <= s.len(),
        s.subrange(i, i + spec_num_field(f, v).len() as int) == spec_num_field(f, v),
    ensures
        parse_fields_at(s, i, es) == parse_fields_at(
            s,
            i + spec_num_field(f, v).len() as int,
            es.push((f, FieldVal::Num(v))),
        ),
{
    let t = spec_varint((f * 8) as nat);
    let w = spec_varint(v as nat);
    lemma_subrange_concat(s, i, t, w);
    lemma_varint_parse_encode(s, i, (f * 8) as nat);
    lemma_varint_parse_encode(s, i + t.len(), v as nat);
    assert(varint_at(s, i) == Some(((f * 8) as u64, i + t.len() as int)));
    assert(((f * 8) as u64) / 8 == f && ((f * 8) as u64) % 8 == 0);
    lemma_spec_varint_len((f * 8) as nat);
}

/// Parsing a record that starts with a canonically encoded length-delimited
/// field records that field and goes on behind it.
pub proof fn lemma_parse_delim_field(
    s: Seq<u8>,
    i: int,
    es: Seq<(u64, FieldVal)>,
    f: u64,
    b: Seq<u8>,
)
    requires
        0 <= i,
        1 <= f <= 7,
        b.len() <= u64::MAX,
        i + spec_delim_field(f, b).len() <= s.len(),
        s.subrange(i, i + spec_delim_field(f, b).len() as int) == spec_delim_field(f, b),
    ensures
        parse_fields_at(s, i, es) == parse_fields_at(
            s,
            i + spec_delim_field(f, b).len() as int,
            es.push((f, FieldVal::Delim(b))),
        ),
{
    let t = spec_varint((f * 8 + 2) as nat);
    let w = spec_varint(b.len());
    assert(spec_delim_field(f, b) == t + (w + b)) by {
        assert(t + w + b =~= t + (w + b));
    }
    lemma_subrange_concat(s, i, t, w + b);
    lemma_subrange_concat(s, i + t.len(), w, b);
    lemma_varint_parse_encode(s, i, (f * 8 + 2) as nat);
    lemma_varint_parse_encode(s, i + t.len(), b.len());
    assert(varint_at(s, i) == Some(((f * 8 + 2) as u64, i + t.len() as int)));
    assert(((f * 8 + 2) as u64) / 8 == f && ((f * 8 + 2) as u64) % 8 == 2);
    let e = i + t.len() as int;
    let e2 = e + w.len() as int;
    assert(s.subrange(e2, e2 + b.len() as int) == b);
}

/// Decode every field of `s` from position `from` to the end.
pub fn parse_record(s: &[u8], from: usize) -> (r: Option<Vec<(u64, FieldData)>>)
    requires
        from <= s@.len(),
    ensures
        match r {
            Some(v) => parse_fields_at(s@, from as int, Seq::<(u64, FieldVal)>::empty()) == Some(
                entries_view(v@),
            ),
            None => parse_fields_at(s@, from as int, Seq::<(u64, FieldVal)>::empty()) is None,
        },
{
    let mut out: Vec<(u64, FieldData)> = Vec::new();
    let mut i: usize = from;
    proof {
        assert(entries_view(out@) =~= Seq::<(u64, FieldVal)>::empty());
    }
    while i < s.len()
        invariant
            from <= i <= s@.len(),
            parse_fields_at(s@, from as int, Seq::<(u64, FieldVal)>::empty()) == parse_fields_at(
                s@,
                i as int,
                entries_view(out@),
            ),
        decreases s@.len() - i,
    {
        let ghost prev = entries_view(out@);
        match read_varint(s, i) {
            None => {
                return None;
            },
            Some((tag, e)) => {
                let f = tag / 8;
                let wt = tag % 8;
                if f == 0 {
                    return None;
                } else if wt == 0 {
                    match read_varint(s, e) {
                        None => {
                            return None;
                        },
                        Some((v, e2)) => {
                            out.push((f, FieldData::Num(v)));
                            proof {
                                assert(entries_view(out@) =~= prev.push((f, FieldVal::Num(v))));
                            }
                            i = e2;
                        },
                    }
                } else if wt == 1 {
                    if s.len() - e >= 8 {
                        out.push((f, FieldData::Fix64));
                        proof {
                            assert(entries_view(out@) =~= prev.push((f, FieldVal::Fix64)));
                        }
                        i = e + 8;
                    } else {
                        return None;
                    }
                } else if wt == 2 {
                    match read_varint(s, e) {
                        None => {
                            return None;
                        },
                        Some((len, e2)) => {
                            if len <= (s.len() - e2) as u64 {
                                let end = e2 + len as usize;
                                let bytes = vstd::slice::slice_to_vec(&s[e2..end]);
                                out.push((f, FieldData::Delim(bytes)));
                                proof {
                                    assert(entries_view(out@) =~= prev.push(
                                        (f, FieldVal::Delim(s@.subrange(e2 as int, end as int))),
                                    ));
                                }
                                i = end;
                            } else {
                                return None;
                            }
                        },
                    }
                } else if wt == 5 {
                    if s.len() - e >= 4 {
                        out.push((f, FieldData::Fix32));
                        proof {
                            assert(entries_view(out@) =~= prev.push((f, FieldVal::Fix32)));
                        }
                        i = e + 4;
                    } else {
                        return None;
                    }
                } else {
                    return None;
                }
            },
        }
    }
    Some(out)
}

/// Append the canonical encoding of a numeric field to `out`.
pub fn write_num_field(out: &mut Vec<u8>, f: u64, v: u64)
    requires
        1 <= f <= 7,
    ensures
        final(out)@ == old(out)@ + spec_num_field(f, v),
{
    write_varint(out, f * 8);
    write_varint(out, v);
}

/// Append the canonical encoding of a length-delimited field to `out`.
pub fn write_delim_field(out: &mut Vec<u8>, f: u64, b: &[u8])
    requires
        1 <= f <= 7,
    ensures
        final(out)@ == old(out)@ + spec_delim_field(f, b@),
{
    write_varint(out, f * 8 + 2);
    write_varint(out, b.len() as u64);
    let mut rest = vstd::slice::slice_to_vec(b);
    out.append(&mut rest);
}

/// The winning occurrence of each schema field number, one through seven:
/// every known message schema draws its fields from that range.
pub struct FieldSlots {
    /// Winning occurrence of field one.
    pub f1: Option<FieldData>,
    /// Winning occurrence of field two.
    pub f2: Option<FieldData>,
    /// Winning occurrence of field three.
    pub f3: Option<FieldData>,
    /// Winning occurrence of field four.
    pub f4: Option<FieldData>,
    /// Winning occurrence of field five.
    pub f5: Option<FieldData>,
    /// Winning occurrence of field six.
    pub f6: Option<FieldData>,
    /// Winning occurrence of field seven.
    pub f7: Option<FieldData>,
}

/// The field value a slot holds, if any.
pub open spec fn slot_view(s: Option<FieldData>) -> Option<FieldVal> {
    match s {
        Some(d) => Some(d@),
        None => None,
    }
}

impl FieldSlots {
    /// The winning occurrence of field `f`.
    pub open spec fn slot(&self, f: u64) -> Option<FieldVal> {
        if f == 1 {
            slot_view(self.f1)
        } else if f == 2 {
            slot_view(self.f2)
        } else if f == 3 {
            slot_view(self.f3)
        } else if f == 4 {
            slot_view(self.f4)
        } else if f == 5 {
            slot_view(self.f5)
        } else if f == 6 {
            slot_view(self.f6)
        } else if f == 7 {
            slot_view(self.f7)
        } else {
            None
        }
    }
}

/// The extraction invariant for one slot: an undecided slot means the
/// winning occurrence still lies among the remaining entries; a decided slot
/// holds the winning occurrence itself.
pub open spec fn slot_inv(
    cur: Option<FieldVal>,
    ev0: Seq<(u64, FieldVal)>,
    rest: Seq<(u64, FieldVal)>,
    f: u64,
) -> bool {
    match cur {
        None => seq_lookup(ev0, f) == seq_lookup(rest, f),
        Some(x) => seq_lookup(ev0, f) == Some(x),
    }
}

/// Resolve the winning occurrence of each schema field number among the
/// decoded entries of a record.
pub fn extract_slots(entries: Vec<(u64, FieldData)>) -> (r: FieldSlots)
    ensures
        forall|f: u64| 1 <= f <= 7 ==> #[trigger] r.slot(f) == seq_lookup(
            entries_view(entries@),
            f,
        ),
{
    let ghost ev0 = entries_view(entries@);
    let mut slots = FieldSlots {
        f1: None,
        f2: None,
        f3: None,
        f4: None,
        f5: None,
        f6: None,
        f7: None,
    };
    let mut rest = entries;
    while rest.len() > 0
        invariant
            slot_inv(slot_view(slots.f1), ev0, entries_view(rest@), 1),
            slot_inv(slot_view(slots.f2), ev0, entries_view(rest@), 2),
            slot_inv(slot_view(slots.f3), ev0, entries_view(rest@), 3),
            slot_inv(slot_view(slots.f4), ev0, entries_view(rest@), 4),
            slot_inv(slot_view(slots.f5), ev0, entries_view(rest@), 5),
            slot_inv(slot_view(slots.f6), ev0, entries_view(rest@), 6),
            slot_inv(slot_view(slots.f7), ev0, entries_view(rest@), 7),
        decreases rest.len(),
    {
        let ghost prev = entries_view(rest@);
        let popped = rest.pop();
        proof {
            assert(prev.len() == rest@.len() + 1);
            assert(entries_view(rest@) =~= prev.drop_last());
        }
        if let Some((k, fv)) = popped {
            proof {
                assert(prev.last() == (k, fv@));
            }
            if k == 1 {
                if slots.f1.is_none() {
                    slots.f1 = Some(fv);
                }
            } else if k == 2 {
                if slots.f2.is_none() {
                    slots.f2 = Some(fv);
                }
            } else if k == 3 {
                if slots.f3.is_none() {
                    slots.f3 = Some(fv);
                }
            } else if k == 4 {
                if slots.f4.is_none() {
                    slots.f4 = Some(fv);
                }
            } else if k == 5 {
                if slots.f5.is_none() {
                    slots.f5 = Some(fv);
                }
            } else if k == 6 {
                if slots.f6.is_none() {
                    slots.f6 = Some(fv);
                }
            } else if k == 7 {
                if slots.f7.is_none() {
                    slots.f7 = Some(fv);
                }
            }
        }
    }
    proof {
        assert(entries_view(rest@) =~= Seq::<(u64, FieldVal)>::empty());
        assert forall|f: u64| 1 <= f <= 7 implies #[trigger] slots.slot(f) == seq_lookup(
            ev0,
            f,
        ) by {
            if f == 1 {
                assert(slot_inv(slot_view(slots.f1), ev0, entries_view(rest@), 1));
            } else if f == 2 {
                assert(slot_inv(slot_view(slots.f2), ev0, entries_view(rest@), 2));
            } else if f == 3 {
                assert(slot_inv(slot_view(slots.f3), ev0, entries_view(rest@), 3));
            } else if f == 4 {
                assert(slot_inv(slot_view(slots.f4), ev0, entries_view(rest@), 4));
            } else if f == 5 {
                assert(slot_inv(slot_view(slots.f5), ev0, entries_view(rest@), 5));
            } else if f == 6 {
                assert(slot_inv(slot_view(slots.f6), ev0, entries_view(rest@), 6));
            } else {
                assert(slot_inv(slot_view(slots.f7), ev0, entries_view(rest@), 7));
            }
        }
    }
    slots
}

} // verus!
