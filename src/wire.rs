//! The protobuf wire format, as far as the certificate messages need it:
//! varints, field keys, and the skipping of fields that are not read.

use vstd::prelude::*;

verus! {

/// `128` raised to the power `i`: the weight of the `i`-th group of a varint.
pub open spec fn pow128(i: nat) -> nat
    decreases i,
{
    if i == 0 {
        1
    } else {
        128 * pow128((i - 1) as nat)
    }
}

/// The number of bytes of the varint at the start of `s`, scanning from byte
/// `i`, where all bytes before `i` have their continuation bit set. A varint
/// has at most ten bytes, and its tenth byte may only be `0` or `1`.
pub open spec fn varint_end(s: Seq<u8>, i: nat) -> Option<nat>
    decreases 10 - i,
{
    if i >= 10 || i >= s.len() {
        None
    } else if s[i as int] < 128 {
        if i == 9 && s[i as int] >= 2 {
            None
        } else {
            Some(i + 1)
        }
    } else {
        varint_end(s, i + 1)
    }
}

/// The value of the first `n` bytes of `s` read as little-endian groups of
/// seven bits.
pub open spec fn varint_value(s: Seq<u8>, n: nat) -> nat
    decreases n,
{
    if n == 0 {
        0
    } else {
        varint_value(s, (n - 1) as nat) + (s[n - 1] % 128) as nat * pow128((n - 1) as nat)
    }
}

/// The varint at the start of `s`: its value and its length in bytes.
pub open spec fn varint(s: Seq<u8>) -> Option<(nat, nat)> {
    match varint_end(s, 0) {
        Some(n) => Some((varint_value(s, n), n)),
        None => None,
    }
}

proof fn lemma_pow128_grows(i: nat, j: nat)
    requires
        i <= j,
    ensures
        pow128(i) <= pow128(j),
    decreases j,
{
    if i < j {
        lemma_pow128_grows(i, (j - 1) as nat);
    }
}

proof fn lemma_varint_end_scan(s: Seq<u8>, i: nat)
    requires
        i < 10,
        i < s.len(),
        s[i as int] >= 128,
    ensures
        varint_end(s, i) == varint_end(s, i + 1),
{
}

/// Reads the varint that starts at `pos` in `b`.
pub fn read_varint(b: &[u8], pos: usize) -> (r: Option<(u64, usize)>)
    requires
        pos <= b.len(),
    ensures
        match r {
            None => varint(b@.skip(pos as int)) is None,
            Some((v, n)) => varint(b@.skip(pos as int)) == Some((v as nat, n as nat)),
        },
{
    let ghost s = b@.skip(pos as int);
    let mut i: usize = 0;
    let mut value: u64 = 0;
    let mut scale: u64 = 1;
    proof {
        reveal_with_fuel(pow128, 10);
        assert(pow128(9) == 0x8000_0000_0000_0000);
        assert(pow128(8) == 0x100_0000_0000_0000);
    }
    while i < 10
        invariant
            i <= 10,
            pos <= b.len(),
            s == b@.skip(pos as int),
            value == varint_value(s, i as nat),
            scale == pow128(i as nat),
            value < scale,
            i <= 9 ==> scale <= 0x8000_0000_0000_0000,
            pow128(9) == 0x8000_0000_0000_0000,
            varint_end(s, 0) == varint_end(s, i as nat),
        decreases 10 - i,
    {
        if i >= b.len() - pos {
            return None;
        }
        let byte = b[pos + i];
        assert(byte == s[i as int]);
        if i == 9 && byte >= 2 {
            assert(varint_end(s, 10) is None);
            return None;
        }
        let low: u64 = (byte % 128) as u64;
        proof {
            if i < 9 {
                lemma_pow128_grows(i as nat, 8);
                assert(scale <= 0x100_0000_0000_0000);
                assert(low * scale <= 127 * scale) by (nonlinear_arith)
                    requires
                        low <= 127,
                ;
            } else {
                assert(low <= 1);
                assert(low * scale <= scale) by (nonlinear_arith)
                    requires
                        low <= 1,
                ;
            }
            assert(low * scale <= 127 * scale) by (nonlinear_arith)
                requires
                    low <= 127,
            ;
        }
        value = value + low * scale;
        if byte < 128 {
            return Some((value, i + 1));
        }
        proof {
            lemma_varint_end_scan(s, i as nat);
            lemma_pow128_grows((i + 1) as nat, 9);
        }
        scale = scale * 128;
        i = i + 1;
    }
    None
}

proof fn lemma_varint_end_bound(s: Seq<u8>, i: nat)
    ensures
        varint_end(s, i) matches Some(n) ==> i < n && n <= s.len() && n <= 10,
    decreases 10 - i,
{
    if i < 10 && i < s.len() && s[i as int] >= 128 {
        lemma_varint_end_bound(s, i + 1);
    }
}

/// What a field holds, as far as this crate reads it. Fixed-width fields are
/// only skipped.
pub enum WireValue {
    Varint(nat),
    Bytes(Seq<u8>),
    Fixed,
}

/// A field of a message: its number and its value.
pub struct WireField {
    pub tag: nat,
    pub value: WireValue,
}

/// The field at the start of `s` and the number of bytes it takes. A key
/// must fit in 32 bits and name a field number of at least one; groups are
/// not accepted.
pub open spec fn next_field(s: Seq<u8>) -> Option<(WireField, nat)> {
    match varint(s) {
        None => None,
        Some((key, kn)) => {
            let tag = key / 8;
            let wt = key % 8;
            let rest = s.skip(kn as int);
            if key > 0xffff_ffff || tag == 0 {
                None
            } else if wt == 0 {
                match varint(rest) {
                    Some((v, vn)) => Some((WireField { tag, value: WireValue::Varint(v) }, kn + vn)),
                    None => None,
                }
            } else if wt == 1 || wt == 5 {
                let width: nat = if wt == 1 { 8 } else { 4 };
                if width <= rest.len() {
                    Some((WireField { tag, value: WireValue::Fixed }, kn + width))
                } else {
                    None
                }
            } else if wt == 2 {
                match varint(rest) {
                    Some((len, ln)) => if ln + len <= rest.len() {
                        Some(
                            (
                                WireField {
                                    tag,
                                    value: WireValue::Bytes(rest.subrange(ln as int, (ln + len) as int)),
                                },
                                kn + ln + len,
                            ),
                        )
                    } else {
                        None
                    },
                    None => None,
                }
            } else {
                None
            }
        },
    }
}

/// Decodes the fields of `s` one after another into the message `m`, with
/// `apply` saying how each field changes the message (or rejects it).
pub open spec fn decode_from<M>(apply: spec_fn(M, WireField) -> Option<M>, m: M, s: Seq<u8>) -> Option<M>
    decreases s.len(),
{
    if s.len() == 0 {
        Some(m)
    } else {
        match next_field(s) {
            Some((f, n)) => if 0 < n <= s.len() {
                match apply(m, f) {
                    Some(m2) => decode_from(apply, m2, s.skip(n as int)),
                    None => None,
                }
            } else {
                None
            },
            None => None,
        }
    }
}

/// A field as read from a buffer: its number and wire type, its value if it
/// is a varint, and where its bytes lie if it is length-delimited.
pub struct FieldRef {
    pub tag: u64,
    pub wire: u64,
    pub varint: u64,
    pub start: usize,
    pub end: usize,
}

/// `f`, read from `b`, is the field `w`.
pub open spec fn field_matches(b: Seq<u8>, f: FieldRef, w: WireField) -> bool {
    f.tag == w.tag && match w.value {
        WireValue::Varint(v) => f.wire == 0 && f.varint == v,
        WireValue::Bytes(d) => f.wire == 2 && f.start <= f.end <= b.len() && d == b.subrange(
            f.start as int,
            f.end as int,
        ),
        WireValue::Fixed => f.wire == 1 || f.wire == 5,
    }
}

/// Reads the field that starts at `pos` in `b`, and returns it with the
/// position just after it.
pub fn read_field(b: &[u8], pos: usize) -> (r: Option<(FieldRef, usize)>)
    requires
        pos < b.len(),
    ensures
        match r {
            None => next_field(b@.skip(pos as int)) is None,
            Some((f, next)) => match next_field(b@.skip(pos as int)) {
                Some((w, n)) => next == pos + n && pos < next <= b.len() && field_matches(b@, f, w),
                None => false,
            },
        },
{
    let ghost s = b@.skip(pos as int);
    let (key, kn) = match read_varint(b, pos) {
        None => return None,
        Some(x) => x,
    };
    proof {
        lemma_varint_end_bound(s, 0);
    }
    if key > 0xffff_ffff || key / 8 == 0 {
        return None;
    }
    let tag = key / 8;
    let wt = key % 8;
    let p = pos + kn;
    let ghost rest = s.skip(kn as int);
    assert(rest =~= b@.skip(p as int));
    if wt == 0 {
        match read_varint(b, p) {
            None => None,
            Some((v, vn)) => {
                proof {
                    lemma_varint_end_bound(rest, 0);
                }
                Some((FieldRef { tag, wire: 0, varint: v, start: p, end: p }, p + vn))
            },
        }
    } else if wt == 1 || wt == 5 {
        let width: usize = if wt == 1 { 8 } else { 4 };
        if width <= b.len() - p {
            Some((FieldRef { tag, wire: wt, varint: 0, start: p, end: p }, p + width))
        } else {
            None
        }
    } else if wt == 2 {
        match read_varint(b, p) {
            None => None,
            Some((len, ln)) => {
                proof {
                    lemma_varint_end_bound(rest, 0);
                }
                let q = p + ln;
                if len <= (b.len() - q) as u64 {
                    let end = q + len as usize;
                    assert(rest.subrange(ln as int, (ln + len) as int) =~= b@.subrange(
                        q as int,
                        end as int,
                    ));
                    Some((FieldRef { tag, wire: 2, varint: 0, start: q, end }, end))
                } else {
                    None
                }
            },
        }
    } else {
        None
    }
}

} // verus!
