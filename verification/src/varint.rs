//! Base-128 variable-length integers: the primitive that carries every tag,
//! length prefix and numeric field of the wire form.
//!
//! An encoded integer is a little-endian sequence of 7-bit groups; every byte
//! but the last has its high bit set. The decoder accepts any encoding of at
//! most ten bytes whose value fits in 64 bits, so non-minimal encodings from
//! other producers are tolerated; the encoder always emits the minimal form.

use vstd::arithmetic::power2::{lemma2_to64, lemma2_to64_rest, lemma_pow2_adds, pow2};
use vstd::prelude::*;

verus! {

/// The minimal base-128 encoding of `n`.
pub open spec fn spec_varint(n: nat) -> Seq<u8>
    decreases n,
{
    if n < 128 {
        seq![n as u8]
    } else {
        seq![(128 + n % 128) as u8] + spec_varint(n / 128)
    }
}

/// Parse a base-128 integer of any length at position `i` of `s`, yielding
/// the value and the position one past its final byte.
pub open spec fn raw_varint_at(s: Seq<u8>, i: int) -> Option<(nat, int)>
    decreases s.len() - i when 0 <= i <= s.len()
{
    if i >= s.len() {
        None
    } else if s[i] < 128 {
        Some((s[i] as nat, i + 1))
    } else {
        match raw_varint_at(s, i + 1) {
            Some((v, e)) => Some(((s[i] - 128) as nat + 128 * v, e)),
            None => None,
        }
    }
}

/// Parse a base-128 integer at position `i` of `s` under the wire limits: at
/// most ten bytes, and a value that fits in 64 bits.
pub open spec fn varint_at(s: Seq<u8>, i: int) -> Option<(u64, int)> {
    match raw_varint_at(s, i) {
        Some((v, e)) => if e - i <= 10 && v <= u64::MAX {
            Some((v as u64, e))
        } else {
            None
        },
        None => None,
    }
}

/// A parsed varint occupies at least one byte and ends within the input.
pub proof fn lemma_raw_varint_bounds(s: Seq<u8>, i: int)
    requires
        0 <= i <= s.len(),
    ensures
        raw_varint_at(s, i) matches Some(ve) ==> i < ve.1 <= s.len(),
    decreases s.len() - i,
{
    if i < s.len() && s[i] >= 128 {
        lemma_raw_varint_bounds(s, i + 1);
    }
}

/// A value below `2^(7k)` encodes in at most `k` bytes.
proof fn lemma_spec_varint_len_bound(n: nat, k: nat)
    requires
        1 <= k,
        n < pow2(7 * k),
    ensures
        spec_varint(n).len() <= k,
    decreases k,
{
    if n >= 128 {
        let k1 = (7 * (k - 1)) as nat;
        lemma_pow2_adds(7, k1);
        lemma2_to64();
        if k == 1 {
            assert(false);
        } else {
            assert(n / 128 < pow2(k1)) by (nonlinear_arith)
                requires
                    n < 128 * pow2(k1),
            ;
            lemma_spec_varint_len_bound(n / 128, (k - 1) as nat);
        }
    }
}

/// The minimal encoding of a 64-bit value takes at most ten bytes.
pub proof fn lemma_spec_varint_len(n: nat)
    ensures
        1 <= spec_varint(n).len(),
        n <= u64::MAX ==> spec_varint(n).len() <= 10,
    decreases n,
{
    if n >= 128 {
        lemma_spec_varint_len(n / 128);
    }
    if n <= u64::MAX {
        assert(pow2(70) == pow2(64) * 64) by {
            lemma_pow2_adds(64, 6);
            lemma2_to64();
        }
        assert(pow2(64) == 0x10000000000000000) by {
            lemma2_to64_rest();
        }
        lemma_spec_varint_len_bound(n, 10);
    }
}

/// Parsing reads back exactly what the minimal encoding wrote, no matter what
/// bytes follow it.
pub proof fn lemma_varint_parse_encode(s: Seq<u8>, i: int, n: nat)
    requires
        0 <= i,
        i + spec_varint(n).len() <= s.len(),
        s.subrange(i, i + spec_varint(n).len() as int) == spec_varint(n),
    ensures
        raw_varint_at(s, i) == Some((n, i + spec_varint(n).len() as int)),
        n <= u64::MAX ==> varint_at(s, i) == Some((n as u64, i + spec_varint(n).len() as int)),
    decreases n,
{
    lemma_spec_varint_len(n);
    let len = spec_varint(n).len() as int;
    assert(s[i] == spec_varint(n)[0]);
    if n < 128 {
        assert(raw_varint_at(s, i) == Some((n, i + 1)));
    } else {
        let rest = spec_varint(n / 128);
        assert(spec_varint(n) == seq![(128 + n % 128) as u8] + rest);
        assert(s.subrange(i + 1, i + len) == rest) by {
            assert forall|j: int| 0 <= j < rest.len() implies s.subrange(i + 1, i + len)[j]
                == rest[j] by {
                assert(s.subrange(i, i + len)[j + 1] == rest[j]);
            }
            assert(s.subrange(i + 1, i + len) =~= rest);
        }
        lemma_varint_parse_encode(s, i + 1, n / 128);
        assert(s[i] == (128 + n % 128) as u8);
        assert((s[i] - 128) as nat + 128 * (n / 128) == n) by (nonlinear_arith)
            requires
                s[i] == (128 + n % 128) as u8,
                n >= 128,
        ;
    }
}

/// Read a varint at `pos`, limited to `fuel` bytes; the result value is
/// bounded by `2^(7 * fuel)`.
fn read_varint_raw(s: &[u8], pos: usize, fuel: usize) -> (r: Option<(u128, usize)>)
    requires
        pos <= s@.len(),
        fuel <= 10,
    ensures
        match r {
            Some(ve) => {
                &&& raw_varint_at(s@, pos as int) == Some((ve.0 as nat, ve.1 as int))
                &&& pos < ve.1 <= s@.len()
                &&& ve.1 - pos <= fuel
                &&& ve.0 < pow2((7 * fuel) as nat)
            },
            None => raw_varint_at(s@, pos as int) matches Some(ve) ==> ve.1 - pos > fuel,
        },
    decreases fuel,
{
    proof {
        lemma2_to64();
        lemma2_to64_rest();
    }
    if fuel == 0 {
        proof {
            lemma_raw_varint_bounds(s@, pos as int);
        }
        return None;
    }
    if pos == s.len() {
        return None;
    }
    let b = s[pos];
    if b < 128 {
        proof {
            if fuel > 1 {
                vstd::arithmetic::power2::lemma_pow2_strictly_increases(7, (7 * fuel) as nat);
            }
        }
        Some((b as u128, pos + 1))
    } else {
        match read_varint_raw(s, pos + 1, fuel - 1) {
            None => {
                proof {
                    lemma_raw_varint_bounds(s@, pos as int + 1);
                }
                None
            },
            Some((v, e)) => {
                proof {
                    let k1 = (7 * (fuel - 1)) as nat;
                    let bn = b as nat;
                    let vn = v as nat;
                    lemma_pow2_adds(7, k1);
                    assert((bn - 128) + 128 * vn < 128 * (vn + 1)) by (nonlinear_arith)
                        requires
                            bn < 256,
                    ;
                    assert(128 * (v + 1) <= 128 * pow2(k1)) by (nonlinear_arith)
                        requires
                            v < pow2(k1),
                    ;
                    assert(pow2((7 * fuel) as nat) <= pow2(70)) by {
                        if ((7 * fuel) as nat) < 70 {
                            vstd::arithmetic::power2::lemma_pow2_strictly_increases(
                                (7 * fuel) as nat,
                                70,
                            );
                        }
                    }
                    assert(pow2(70) == 0x400000000000000000) by {
                        lemma_pow2_adds(64, 6);
                    }
                }
                Some(((b - 128) as u128 + 128 * v, e))
            },
        }
    }
}

/// Read a varint at `pos` under the wire limits: at most ten bytes and a
/// value that fits in 64 bits.
pub fn read_varint(s: &[u8], pos: usize) -> (r: Option<(u64, usize)>)
    requires
        pos <= s@.len(),
    ensures
        match r {
            Some(ve) => {
                &&& varint_at(s@, pos as int) == Some((ve.0, ve.1 as int))
                &&& pos < ve.1 <= s@.len()
            },
            None => varint_at(s@, pos as int) is None,
        },
{
    match read_varint_raw(s, pos, 10) {
        None => None,
        Some((v, e)) => {
            if v <= u64::MAX as u128 {
                Some((v as u64, e))
            } else {
                None
            }
        },
    }
}

/// Append the minimal encoding of `n` to `out`.
pub fn write_varint(out: &mut Vec<u8>, n: u64)
    ensures
        final(out)@ == old(out)@ + spec_varint(n as nat),
{
    let mut cur: u64 = n;
    while cur >= 128
        invariant
            old(out)@ + spec_varint(n as nat) == out@ + spec_varint(cur as nat),
        decreases cur,
    {
        out.push((cur % 128 + 128) as u8);
        proof {
            assert(spec_varint(cur as nat) == seq![(128 + (cur as nat) % 128) as u8]
                + spec_varint((cur as nat) / 128));
        }
        cur = cur / 128;
    }
    out.push(cur as u8);
    proof {
        assert(spec_varint(cur as nat) == seq![cur as u8]);
    }
}

} // verus!
