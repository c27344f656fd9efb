use aes::cipher::{BlockDecryptMut, KeyIvInit};
use rsa::pkcs1::EncodeRsaPublicKey;
use rsa::signature::{RandomizedSigner, SignatureEncoding};
use rsa::{RsaPrivateKey, RsaPublicKey};
use service_certificate::certificate::{parse_service_certificate, ServerCertificate};
use service_certificate::client_id::encrypt_client_id;
use service_certificate::crypto::PublicKey;

fn put_varint(mut v: u64, out: &mut Vec<u8>) {
    while v >= 0x80 {
        out.push((v as u8) | 0x80);
        v >>= 7;
    }
    out.push(v as u8);
}

fn put_bytes(tag: u64, data: &[u8], out: &mut Vec<u8>) {
    put_varint(tag << 3 | 2, out);
    put_varint(data.len() as u64, out);
    out.extend_from_slice(data);
}

fn certificate_for(service_bits: usize) -> (RsaPrivateKey, ServerCertificate) {
    let root_private = RsaPrivateKey::new(&mut rand::rngs::OsRng, 768).unwrap();
    let root_der = RsaPublicKey::from(&root_private).to_pkcs1_der().unwrap().as_bytes().to_vec();
    let root = PublicKey::from_pkcs1_der(&root_der).unwrap();
    let service_private = RsaPrivateKey::new(&mut rand::rngs::OsRng, service_bits).unwrap();
    let service_der = RsaPublicKey::from(&service_private).to_pkcs1_der().unwrap().as_bytes().to_vec();
    let mut body = vec![0x08, 0x03];
    put_bytes(2, b"serial-42", &mut body);
    put_bytes(4, &service_der, &mut body);
    put_bytes(7, b"provider.example", &mut body);
    let signer = rsa::pss::BlindedSigningKey::<sha1::Sha1>::new(root_private);
    let sig = signer.sign_with_rng(&mut rand::rngs::OsRng, &body).to_vec();
    let mut env = Vec::new();
    put_bytes(1, &body, &mut env);
    put_bytes(2, &sig, &mut env);
    let cert = parse_service_certificate(&root, Some(&env)).unwrap();
    (service_private, cert)
}

const CLIENT_ID: &[u8] = b"\x08\x01\x12\x0bclient-token-bytes";

#[test]
fn encrypted_identity_decrypts_with_private_key() {
    let (private, cert) = certificate_for(768);
    let e = encrypt_client_id(&cert, CLIENT_ID).unwrap();
    let key = private.decrypt(rsa::Oaep::new::<sha1::Sha1>(), &e.encrypted_privacy_key).unwrap();
    assert_eq!(key.len(), 16);
    let plain = cbc::Decryptor::<aes::Aes128>::new_from_slices(&key, &e.encrypted_client_id_iv)
        .unwrap()
        .decrypt_padded_vec_mut::<aes::cipher::block_padding::Pkcs7>(&e.encrypted_client_id)
        .unwrap();
    assert_eq!(plain.as_slice(), CLIENT_ID);
}

#[test]
fn encrypted_identity_copies_certificate_fields() {
    let (_, cert) = certificate_for(768);
    let e = encrypt_client_id(&cert, CLIENT_ID).unwrap();
    assert_eq!(e.provider_id, "provider.example");
    assert_eq!(e.service_certificate_serial_number, b"serial-42".to_vec());
    assert_eq!(e.encrypted_client_id_iv.len(), 16);
    assert_eq!(e.encrypted_privacy_key.len(), 96);
    assert_eq!(e.encrypted_client_id.len(), 32);
    assert_ne!(e.encrypted_client_id.as_slice(), CLIENT_ID);
}

#[test]
fn empty_identity_is_one_padding_block() {
    let (_, cert) = certificate_for(768);
    let e = encrypt_client_id(&cert, &[]).unwrap();
    assert_eq!(e.encrypted_client_id.len(), 16);
    let aligned = [7u8; 32];
    let e = encrypt_client_id(&cert, &aligned).unwrap();
    assert_eq!(e.encrypted_client_id.len(), 48);
}

#[test]
fn each_encryption_uses_fresh_key_and_iv() {
    let (_, cert) = certificate_for(768);
    let a = encrypt_client_id(&cert, CLIENT_ID).unwrap();
    let b = encrypt_client_id(&cert, CLIENT_ID).unwrap();
    assert_ne!(a.encrypted_client_id_iv, b.encrypted_client_id_iv);
    assert_ne!(a.encrypted_privacy_key, b.encrypted_privacy_key);
    assert_ne!(a.encrypted_client_id, b.encrypted_client_id);
}

#[test]
fn key_too_short_to_wrap_gives_none() {
    let (_, cert) = certificate_for(448);
    assert!(encrypt_client_id(&cert, CLIENT_ID).is_none());
}
