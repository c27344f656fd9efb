//! The cryptographic primitives, taken from the `rsa`, `sha1`, `aes`, `cbc`
//! and `rand` crates. Each call stands in one small function whose contract
//! says what the crate's documentation and source promise.

use aes::cipher::{BlockEncryptMut, KeyIvInit};
use rsa::pkcs1::DecodeRsaPublicKey;
use rsa::signature::Verifier;
use vstd::prelude::*;

verus! {

#[verifier::external_type_specification]
#[verifier::external_body]
pub struct ExRsaPublicKey(rsa::RsaPublicKey);

/// Whether `der` is a PKCS#1 DER-encoded RSA public key that `rsa` accepts.
pub uninterp spec fn pkcs1_der_accepted(der: Seq<u8>) -> bool;

/// Whether `sig` is an RSASSA-PSS signature with SHA-1 (and a 20-byte salt)
/// of `msg` under the public key encoded by `key_der`.
pub uninterp spec fn pss_sha1_verifies(key_der: Seq<u8>, msg: Seq<u8>, sig: Seq<u8>) -> bool;

/// The length in bytes of the modulus of the public key encoded by `key_der`.
pub uninterp spec fn modulus_len(key_der: Seq<u8>) -> nat;

/// AES-128 in CBC mode with PKCS#7 padding: the encryption of `pt` under
/// `key` with initialization vector `iv`.
pub uninterp spec fn aes128_cbc_pkcs7(key: Seq<u8>, iv: Seq<u8>, pt: Seq<u8>) -> Seq<u8>;

/// The space OAEP with SHA-1 takes in a block besides the message: two
/// digests and two bytes.
pub const OAEP_SHA1_OVERHEAD: usize = 42;

/// The length of a symmetric key and of an initialization vector.
pub const BLOCK_LEN: usize = 16;

/// An RSA public key together with the DER bytes it was parsed from. The
/// only way to make one is `from_pkcs1_der`, so `key` is always the key
/// that those bytes encode.
pub struct PublicKey {
    key: rsa::RsaPublicKey,
    der: Ghost<Seq<u8>>,
}

impl View for PublicKey {
    type V = Seq<u8>;

    closed spec fn view(&self) -> Seq<u8> {
        self.der@
    }
}

/// Relies on `rsa::RsaPublicKey::from_pkcs1_der`: it parses a PKCS#1 DER
/// public key, and whether it succeeds depends on the bytes alone.
#[verifier::external_body]
fn parse_pkcs1_der(der: &[u8]) -> (r: Option<rsa::RsaPublicKey>)
    ensures
        r is Some == pkcs1_der_accepted(der@),
{
    rsa::RsaPublicKey::from_pkcs1_der(der).ok()
}

impl PublicKey {
    /// Parses a PKCS#1 DER-encoded RSA public key; `None` where `rsa`
    /// refuses the bytes.
    pub fn from_pkcs1_der(der: &[u8]) -> (r: Option<PublicKey>)
        ensures
            r is Some == pkcs1_der_accepted(der@),
            r matches Some(k) ==> k@ == der@,
    {
        match parse_pkcs1_der(der) {
            Some(key) => Some(PublicKey { key, der: Ghost(der@) }),
            None => None,
        }
    }

    /// The key as the `rsa` crate holds it.
    pub fn rsa_key(&self) -> (r: &rsa::RsaPublicKey) {
        &self.key
    }
}

/// Relies on `rsa::pss::Signature::try_from`, which takes any byte string,
/// and on `rsa::pss::VerifyingKey::<sha1::Sha1>::verify`, which checks a
/// PSS signature with SHA-1 and a salt as long as the digest. The verdict
/// depends on the key, the message and the signature alone.
#[verifier::external_body]
pub(crate) fn verify_pss_sha1(key: &PublicKey, msg: &[u8], sig: &[u8]) -> (r: bool)
    ensures
        r == pss_sha1_verifies(key@, msg@, sig@),
{
    match rsa::pss::Signature::try_from(sig) {
        Ok(s) => rsa::pss::VerifyingKey::<sha1::Sha1>::new(key.key.clone()).verify(msg, &s).is_ok(),
        Err(_) => false,
    }
}

/// Relies on `rsa::RsaPublicKey::encrypt` with `rsa::Oaep::new::<sha1::Sha1>()`
/// and the operating system's random source: on a parsed key it fails only
/// where the message is longer than the modulus minus 42 bytes, and its
/// ciphertext is as long as the modulus. The ciphertext is random.
#[verifier::external_body]
pub(crate) fn oaep_sha1_encrypt(key: &PublicKey, msg: &[u8]) -> (r: Option<Vec<u8>>)
    ensures
        r is Some == (msg@.len() + OAEP_SHA1_OVERHEAD <= modulus_len(key@)),
        r matches Some(c) ==> c@.len() == modulus_len(key@),
{
    key.key.encrypt(&mut rand::rngs::OsRng, rsa::Oaep::new::<sha1::Sha1>(), msg).ok()
}

/// Relies on `cbc::Encryptor::<aes::Aes128>::new_from_slices`, which takes a
/// 16-byte key and a 16-byte vector, and on `encrypt_padded_vec_mut` with
/// PKCS#7 padding, which always adds from 1 to 16 bytes of padding.
#[verifier::external_body]
pub(crate) fn aes128_cbc_encrypt(key: &[u8], iv: &[u8], pt: &[u8]) -> (r: Vec<u8>)
    requires
        key@.len() == BLOCK_LEN,
        iv@.len() == BLOCK_LEN,
    ensures
        r@ == aes128_cbc_pkcs7(key@, iv@, pt@),
        r@.len() == BLOCK_LEN * (pt@.len() / (BLOCK_LEN as nat) + 1),
{
    cbc::Encryptor::<aes::Aes128>::new_from_slices(key, iv)
        .unwrap()
        .encrypt_padded_vec_mut::<aes::cipher::block_padding::Pkcs7>(pt)
}

/// Relies on `rand::Rng::gen` over `rand::rngs::OsRng`: sixteen bytes from
/// the operating system's random source. Nothing is known of their values.
#[verifier::external_body]
pub(crate) fn random_block() -> (r: Vec<u8>)
    ensures
        r@.len() == BLOCK_LEN,
{
    rand::Rng::gen::<[u8; 16]>(&mut rand::rngs::OsRng).to_vec()
}

} // verus!
