//! The two certificate messages: the signed envelope and the certificate body
//! inside it. Every field has explicit presence: an absent field is `None`,
//! and a field that occurs twice keeps its last value. Fields that are not
//! read here are skipped whatever their wire type.

use vstd::prelude::*;
use crate::wire::{decode_from, next_field, read_field, WireField, WireValue};

verus! {

/// The certificate type of a service certificate.
pub const SERVICE_CERTIFICATE_TYPE: i32 = 3;

/// The signed envelope: the encoded certificate body and its signature.
pub struct SignedDrmCertificate {
    pub drm_certificate: Option<Vec<u8>>,
    pub signature: Option<Vec<u8>>,
}

pub struct SignedDrmCertificateView {
    pub drm_certificate: Option<Seq<u8>>,
    pub signature: Option<Seq<u8>>,
}

pub open spec fn opt_bytes(v: Option<Vec<u8>>) -> Option<Seq<u8>> {
    match v {
        Some(x) => Some(x@),
        None => None,
    }
}

impl View for SignedDrmCertificate {
    type V = SignedDrmCertificateView;

    open spec fn view(&self) -> SignedDrmCertificateView {
        SignedDrmCertificateView {
            drm_certificate: opt_bytes(self.drm_certificate),
            signature: opt_bytes(self.signature),
        }
    }
}

/// How one field changes the envelope: field 1 is the certificate body and
/// field 2 the signature, both length-delimited.
pub open spec fn apply_signed(m: SignedDrmCertificateView, f: WireField) -> Option<SignedDrmCertificateView> {
    if f.tag == 1 {
        match f.value {
            WireValue::Bytes(d) => Some(SignedDrmCertificateView { drm_certificate: Some(d), ..m }),
            _ => None,
        }
    } else if f.tag == 2 {
        match f.value {
            WireValue::Bytes(d) => Some(SignedDrmCertificateView { signature: Some(d), ..m }),
            _ => None,
        }
    } else {
        Some(m)
    }
}

pub open spec fn signed_step() -> spec_fn(SignedDrmCertificateView, WireField) -> Option<SignedDrmCertificateView> {
    |m: SignedDrmCertificateView, f: WireField| apply_signed(m, f)
}

/// The envelope encoded by `b`, or `None` where `b` is malformed.
pub open spec fn signed_certificate_of(b: Seq<u8>) -> Option<SignedDrmCertificateView> {
    decode_from(
        signed_step(),
        SignedDrmCertificateView { drm_certificate: None, signature: None },
        b,
    )
}

/// The certificate body, with the fields that validation reads.
pub struct DrmCertificate {
    pub cert_type: Option<i32>,
    pub serial_number: Option<Vec<u8>>,
    pub public_key: Option<Vec<u8>>,
    pub provider_id: Option<String>,
}

pub struct DrmCertificateView {
    pub cert_type: Option<i32>,
    pub serial_number: Option<Seq<u8>>,
    pub public_key: Option<Seq<u8>>,
    pub provider_id: Option<Seq<char>>,
}

impl View for DrmCertificate {
    type V = DrmCertificateView;

    open spec fn view(&self) -> DrmCertificateView {
        DrmCertificateView {
            cert_type: self.cert_type,
            serial_number: opt_bytes(self.serial_number),
            public_key: opt_bytes(self.public_key),
            provider_id: match self.provider_id {
                Some(s) => Some(s@),
                None => None,
            },
        }
    }
}

/// The text that the bytes `b` encode in UTF-8, or `None` where they are not
/// valid UTF-8.
pub uninterp spec fn utf8_text(b: Seq<u8>) -> Option<Seq<char>>;

/// Relies on `String::from_utf8`: it accepts exactly the valid UTF-8 byte
/// strings, and its result depends on the bytes alone.
#[verifier::external_body]
fn string_from_utf8(b: Vec<u8>) -> (r: Option<String>)
    ensures
        match r {
            Some(s) => utf8_text(b@) == Some(s@),
            None => utf8_text(b@) is None,
        },
{
    String::from_utf8(b).ok()
}

/// The low 32 bits of `v`, read as a two's-complement `int32`, as an enum
/// field's varint is read.
pub open spec fn int32_of(v: nat) -> i32 {
    let w = v % 0x1_0000_0000;
    if w < 0x8000_0000 {
        w as i32
    } else {
        (w - 0x1_0000_0000) as i32
    }
}

/// How one field changes the body: field 1 is the type (a varint), 2 the
/// serial number, 4 the public key (both bytes), 7 the provider id (UTF-8).
pub open spec fn apply_body(m: DrmCertificateView, f: WireField) -> Option<DrmCertificateView> {
    if f.tag == 1 {
        match f.value {
            WireValue::Varint(v) => Some(DrmCertificateView { cert_type: Some(int32_of(v)), ..m }),
            _ => None,
        }
    } else if f.tag == 2 {
        match f.value {
            WireValue::Bytes(d) => Some(DrmCertificateView { serial_number: Some(d), ..m }),
            _ => None,
        }
    } else if f.tag == 4 {
        match f.value {
            WireValue::Bytes(d) => Some(DrmCertificateView { public_key: Some(d), ..m }),
            _ => None,
        }
    } else if f.tag == 7 {
        match f.value {
            WireValue::Bytes(d) => match utf8_text(d) {
                Some(t) => Some(DrmCertificateView { provider_id: Some(t), ..m }),
                None => None,
            },
            _ => None,
        }
    } else {
        Some(m)
    }
}

pub open spec fn body_step() -> spec_fn(DrmCertificateView, WireField) -> Option<DrmCertificateView> {
    |m: DrmCertificateView, f: WireField| apply_body(m, f)
}

/// The certificate body encoded by `b`, or `None` where `b` is malformed.
pub open spec fn drm_certificate_of(b: Seq<u8>) -> Option<DrmCertificateView> {
    decode_from(
        body_step(),
        DrmCertificateView { cert_type: None, serial_number: None, public_key: None, provider_id: None },
        b,
    )
}

/// The bytes of `b` from `start` up to `end`.
pub fn copy_range(b: &[u8], start: usize, end: usize) -> (r: Vec<u8>)
    requires
        start <= end <= b.len(),
    ensures
        r@ == b@.subrange(start as int, end as int),
{
    let mut r: Vec<u8> = Vec::with_capacity(end - start);
    let mut i: usize = start;
    while i < end
        invariant
            start <= i <= end <= b.len(),
            r@ == b@.subrange(start as int, i as int),
        decreases end - i,
    {
        r.push(b[i]);
        assert(r@ =~= b@.subrange(start as int, i + 1));
        i = i + 1;
    }
    r
}

/// One step of decoding: the field at `pos` is `w`, `n` bytes long.
proof fn lemma_decode_step<M>(
    apply: spec_fn(M, WireField) -> Option<M>,
    m: M,
    b: Seq<u8>,
    pos: nat,
    w: WireField,
    n: nat,
)
    requires
        pos < b.len(),
        0 < n,
        pos + n <= b.len(),
        next_field(b.skip(pos as int)) == Some((w, n)),
    ensures
        decode_from(apply, m, b.skip(pos as int)) == match apply(m, w) {
            Some(m2) => decode_from(apply, m2, b.skip((pos + n) as int)),
            None => None,
        },
{
    assert(b.skip(pos as int).skip(n as int) =~= b.skip((pos + n) as int));
}

proof fn lemma_decode_end<M>(apply: spec_fn(M, WireField) -> Option<M>, m: M, b: Seq<u8>)
    ensures
        decode_from(apply, m, b.skip(b.len() as int)) == Some(m),
{
    assert(b.skip(b.len() as int).len() == 0);
}

/// Decodes the signed envelope. `None` exactly where the bytes are malformed.
pub fn decode_signed_certificate(b: &[u8]) -> (r: Option<SignedDrmCertificate>)
    ensures
        match r {
            Some(m) => signed_certificate_of(b@) == Some(m@),
            None => signed_certificate_of(b@) is None,
        },
{
    let ghost apply = signed_step();
    let mut m = SignedDrmCertificate { drm_certificate: None, signature: None };
    let mut pos: usize = 0;
    assert(b@.skip(0) =~= b@);
    while pos < b.len()
        invariant
            pos <= b.len(),
            apply == signed_step(),
            signed_certificate_of(b@) == decode_from(apply, m@, b@.skip(pos as int)),
        decreases b.len() - pos,
    {
        let (f, next) = match read_field(b, pos) {
            None => return None,
            Some(x) => x,
        };
        let ghost w = next_field(b@.skip(pos as int))->Some_0.0;
        let ghost before = m@;
        proof {
            lemma_decode_step(apply, m@, b@, pos as nat, w, (next - pos) as nat);
            assert(apply(before, w) == apply_signed(before, w));
        }
        if f.tag == 1 || f.tag == 2 {
            if f.wire != 2 {
                assert(apply_signed(before, w) is None);
                return None;
            }
            let d = copy_range(b, f.start, f.end);
            if f.tag == 1 {
                m.drm_certificate = Some(d);
            } else {
                m.signature = Some(d);
            }
        }
        assert(apply_signed(before, w) == Some(m@));
        pos = next;
    }
    proof {
        lemma_decode_end(apply, m@, b@);
    }
    Some(m)
}

/// `v` read as an `int32` field.
fn to_int32(v: u64) -> (r: i32)
    ensures
        r == int32_of(v as nat),
{
    let w: u64 = v % 0x1_0000_0000;
    if w < 0x8000_0000 {
        w as i32
    } else {
        (w as i64 - 0x1_0000_0000) as i32
    }
}

/// Decodes the certificate body. `None` exactly where the bytes are
/// malformed or the provider id is not UTF-8.
pub fn decode_drm_certificate(b: &[u8]) -> (r: Option<DrmCertificate>)
    ensures
        match r {
            Some(m) => drm_certificate_of(b@) == Some(m@),
            None => drm_certificate_of(b@) is None,
        },
{
    let ghost apply = body_step();
    let mut m = DrmCertificate { cert_type: None, serial_number: None, public_key: None, provider_id: None };
    let mut pos: usize = 0;
    assert(b@.skip(0) =~= b@);
    while pos < b.len()
        invariant
            pos <= b.len(),
            apply == body_step(),
            drm_certificate_of(b@) == decode_from(apply, m@, b@.skip(pos as int)),
        decreases b.len() - pos,
    {
        let (f, next) = match read_field(b, pos) {
            None => return None,
            Some(x) => x,
        };
        let ghost w = next_field(b@.skip(pos as int))->Some_0.0;
        let ghost before = m@;
        proof {
            lemma_decode_step(apply, m@, b@, pos as nat, w, (next - pos) as nat);
            assert(apply(before, w) == apply_body(before, w));
        }
        if f.tag == 1 {
            if f.wire != 0 {
                return None;
            }
            m.cert_type = Some(to_int32(f.varint));
        } else if f.tag == 2 || f.tag == 4 || f.tag == 7 {
            if f.wire != 2 {
                return None;
            }
            let d = copy_range(b, f.start, f.end);
            if f.tag == 2 {
                m.serial_number = Some(d);
            } else if f.tag == 4 {
                m.public_key = Some(d);
            } else {
                match string_from_utf8(d) {
                    Some(t) => m.provider_id = Some(t),
                    None => return None,
                }
            }
        }
        assert(apply_body(before, w) == Some(m@));
        pos = next;
    }
    proof {
        lemma_decode_end(apply, m@, b@);
    }
    Some(m)
}

} // verus!
