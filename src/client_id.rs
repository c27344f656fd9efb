//! Hybrid encryption of a client identity under a validated certificate: a
//! fresh AES-128 key encrypts the identity, and the certificate's RSA key
//! wraps that AES key.

use vstd::prelude::*;
use crate::certificate::ServerCertificate;
use crate::crypto::{
    aes128_cbc_encrypt, aes128_cbc_pkcs7, modulus_len, oaep_sha1_encrypt, random_block, BLOCK_LEN,
    OAEP_SHA1_OVERHEAD,
};

verus! {

/// An encrypted client identity, safe to send over an untrusted channel.
#[derive(Debug)]
pub struct EncryptedClientIdentification {
    pub provider_id: String,
    pub service_certificate_serial_number: Vec<u8>,
    pub encrypted_client_id: Vec<u8>,
    pub encrypted_client_id_iv: Vec<u8>,
    pub encrypted_privacy_key: Vec<u8>,
}

/// Encrypts the serialized client identity `client_id` for the holder of the
/// private key of `cert`. A fresh key and initialization vector are drawn
/// for each call. `None` only where the certificate's key is too short to
/// wrap a 16-byte key with OAEP and SHA-1.
pub fn encrypt_client_id(cert: &ServerCertificate, client_id: &[u8]) -> (r: Option<
    EncryptedClientIdentification,
>)
    ensures
        r is Some == (BLOCK_LEN + OAEP_SHA1_OVERHEAD <= modulus_len(cert@.key)),
        r matches Some(e) ==> {
            &&& e.provider_id@ == cert@.provider_id
            &&& e.service_certificate_serial_number@ == cert@.serial_number
            &&& e.encrypted_client_id_iv@.len() == BLOCK_LEN
            &&& e.encrypted_privacy_key@.len() == modulus_len(cert@.key)
            &&& exists|k: Seq<u8>|
                k.len() == BLOCK_LEN && e.encrypted_client_id@ == #[trigger] aes128_cbc_pkcs7(
                    k,
                    e.encrypted_client_id_iv@,
                    client_id@,
                )
            &&& e.encrypted_client_id@.len() == BLOCK_LEN * (client_id@.len() / (BLOCK_LEN as nat)
                + 1)
        },
{
    let privacy_key = random_block();
    let privacy_iv = random_block();
    let encrypted_client_id = aes128_cbc_encrypt(privacy_key.as_slice(), privacy_iv.as_slice(), client_id);
    let encrypted_privacy_key = match oaep_sha1_encrypt(cert.key(), privacy_key.as_slice()) {
        Some(c) => c,
        None => return None,
    };
    Some(
        EncryptedClientIdentification {
            provider_id: cert.provider_id().clone(),
            service_certificate_serial_number: cert.serial_number().clone(),
            encrypted_client_id,
            encrypted_client_id_iv: privacy_iv,
            encrypted_privacy_key,
        },
    )
}

} // verus!
