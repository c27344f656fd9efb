//! Validation of a signed service certificate against a root public key.

use vstd::prelude::*;
use crate::crypto::{pkcs1_der_accepted, pss_sha1_verifies, verify_pss_sha1, PublicKey};
use crate::messages::{
    decode_drm_certificate, decode_signed_certificate, drm_certificate_of, signed_certificate_of,
    DrmCertificateView, SignedDrmCertificateView, SERVICE_CERTIFICATE_TYPE,
};

verus! {

/// The error that the signed-message envelope reported, as its decoder
/// described it.
#[derive(Debug)]
pub struct SignedMessageError {
    pub reason: String,
}

/// Why a service certificate was not accepted.
#[derive(Debug)]
#[non_exhaustive]
pub enum ServerCertificateError {
    /// No certificate bytes were supplied.
    CertificateEmpty,
    /// The outer signed message was malformed or not authentic.
    BadSignedMessage(SignedMessageError),
    /// The envelope or the certificate body is not a valid encoding.
    BadProto,
    /// A required field is absent.
    MissingFields,
    /// The signature does not verify under the root key.
    BadSignature,
    /// The certificate's public key does not parse.
    MalformedKey,
    /// The certificate is correctly signed but is not a service certificate;
    /// the observed type code, recognised or not.
    WrongCertificateType(i32),
}

/// The two severities under which a host reports these errors.
#[derive(Debug, Clone, Copy, PartialEq, Eq, Structural)]
pub enum Exception {
    /// Nothing was supplied.
    TypeError,
    /// Something was supplied and was wrong.
    InvalidStateError,
}

impl ServerCertificateError {
    /// The severity under which this error is reported: only an absent
    /// certificate is a type error.
    pub fn cdm_exception(&self) -> (r: Exception)
        ensures
            (r == Exception::TypeError) == (*self is CertificateEmpty),
            (r == Exception::InvalidStateError) == !(*self is CertificateEmpty),
    {
        match self {
            ServerCertificateError::CertificateEmpty => Exception::TypeError,
            _ => Exception::InvalidStateError,
        }
    }
}

/// A validated service certificate: every field present, the key parsed.
/// It can only be made by validation.
pub struct ServerCertificate {
    key: PublicKey,
    serial_number: Vec<u8>,
    provider_id: String,
}

/// What a validated certificate holds: the DER bytes of its key, its serial
/// number and its provider id.
pub struct ServerCertificateView {
    pub key: Seq<u8>,
    pub serial_number: Seq<u8>,
    pub provider_id: Seq<char>,
}

impl View for ServerCertificate {
    type V = ServerCertificateView;

    closed spec fn view(&self) -> ServerCertificateView {
        ServerCertificateView {
            key: self.key@,
            serial_number: self.serial_number@,
            provider_id: self.provider_id@,
        }
    }
}

impl ServerCertificate {
    /// The certificate's public key.
    pub fn key(&self) -> (r: &PublicKey)
        ensures
            r@ == self@.key,
    {
        &self.key
    }

    /// The certificate's serial number.
    pub fn serial_number(&self) -> (r: &Vec<u8>)
        ensures
            r@ == self@.serial_number,
    {
        &self.serial_number
    }

    /// The certificate's provider id.
    pub fn provider_id(&self) -> (r: &String)
        ensures
            r@ == self@.provider_id,
    {
        &self.provider_id
    }
}

/// The outcome of validating `input` against the root key `root`, step by
/// step: emptiness, envelope, presence of body and signature, signature,
/// body, type, presence of the other fields, key.
pub open spec fn validation(root: Seq<u8>, input: Option<Seq<u8>>) -> Result<
    ServerCertificateView,
    ServerCertificateError,
> {
    match input {
        None => Err(ServerCertificateError::CertificateEmpty),
        Some(b) => if b.len() == 0 {
            Err(ServerCertificateError::CertificateEmpty)
        } else {
            match signed_certificate_of(b) {
                None => Err(ServerCertificateError::BadProto),
                Some(env) => match (env.drm_certificate, env.signature) {
                    (Some(body), Some(sig)) => validation_of_body(root, body, sig),
                    _ => Err(ServerCertificateError::MissingFields),
                },
            }
        },
    }
}

/// The outcome of validating a certificate body `body` with signature `sig`.
pub open spec fn validation_of_body(root: Seq<u8>, body: Seq<u8>, sig: Seq<u8>) -> Result<
    ServerCertificateView,
    ServerCertificateError,
> {
    if !pss_sha1_verifies(root, body, sig) {
        Err(ServerCertificateError::BadSignature)
    } else {
        match drm_certificate_of(body) {
            None => Err(ServerCertificateError::BadProto),
            Some(c) => match c.cert_type {
                None => Err(ServerCertificateError::MissingFields),
                Some(t) => if t != SERVICE_CERTIFICATE_TYPE {
                    Err(ServerCertificateError::WrongCertificateType(t))
                } else {
                    match (c.public_key, c.serial_number, c.provider_id) {
                        (Some(k), Some(s), Some(p)) => if pkcs1_der_accepted(k) {
                            Ok(ServerCertificateView { key: k, serial_number: s, provider_id: p })
                        } else {
                            Err(ServerCertificateError::MalformedKey)
                        },
                        _ => Err(ServerCertificateError::MissingFields),
                    }
                },
            },
        }
    }
}

/// What a call returned, with the certificate seen through its view.
pub open spec fn outcome(r: Result<ServerCertificate, ServerCertificateError>) -> Result<
    ServerCertificateView,
    ServerCertificateError,
> {
    match r {
        Ok(c) => Ok(c@),
        Err(e) => Err(e),
    }
}

/// Validates a signed service certificate against the root public key
/// `root`.
pub fn parse_service_certificate(root: &PublicKey, server_certificate: Option<&[u8]>) -> (r: Result<
    ServerCertificate,
    ServerCertificateError,
>)
    ensures
        outcome(r) == validation(
            root@,
            match server_certificate {
                Some(b) => Some(b@),
                None => None,
            },
        ),
{
    let signed_cert_bytes = match server_certificate {
        None => return Err(ServerCertificateError::CertificateEmpty),
        Some(v) => v,
    };
    if signed_cert_bytes.len() == 0 {
        return Err(ServerCertificateError::CertificateEmpty);
    }
    let signed_cert = match decode_signed_certificate(signed_cert_bytes) {
        None => return Err(ServerCertificateError::BadProto),
        Some(m) => m,
    };
    let cert_bytes = match signed_cert.drm_certificate {
        None => return Err(ServerCertificateError::MissingFields),
        Some(b) => b,
    };
    let signature = match signed_cert.signature {
        None => return Err(ServerCertificateError::MissingFields),
        Some(s) => s,
    };
    if !verify_pss_sha1(root, cert_bytes.as_slice(), signature.as_slice()) {
        return Err(ServerCertificateError::BadSignature);
    }
    let cert = match decode_drm_certificate(cert_bytes.as_slice()) {
        None => return Err(ServerCertificateError::BadProto),
        Some(c) => c,
    };
    let cert_type = match cert.cert_type {
        None => return Err(ServerCertificateError::MissingFields),
        Some(t) => t,
    };
    if cert_type != SERVICE_CERTIFICATE_TYPE {
        return Err(ServerCertificateError::WrongCertificateType(cert_type));
    }
    let (public_key, serial_number, provider_id) = match (cert.public_key, cert.serial_number, cert.provider_id) {
        (Some(k), Some(s), Some(p)) => (k, s, p),
        _ => return Err(ServerCertificateError::MissingFields),
    };
    let key = match PublicKey::from_pkcs1_der(public_key.as_slice()) {
        None => return Err(ServerCertificateError::MalformedKey),
        Some(k) => k,
    };
    Ok(ServerCertificate { key, serial_number, provider_id })
}

/// Validates the service certificate carried by a signed message. `message`
/// is what the signed-message decoder returned for a message of the service
/// certificate type: the authenticated inner bytes, or its error.
pub fn parse_service_cert_message(root: &PublicKey, message: Result<Vec<u8>, SignedMessageError>) -> (r: Result<
    ServerCertificate,
    ServerCertificateError,
>)
    ensures
        match message {
            Ok(m) => outcome(r) == validation(root@, Some(m@)),
            Err(e) => r matches Err(ServerCertificateError::BadSignedMessage(f)) && f == e,
        },
{
    match message {
        Ok(m) => parse_service_certificate(root, Some(m.as_slice())),
        Err(e) => Err(ServerCertificateError::BadSignedMessage(e)),
    }
}

/// An absent or empty certificate is reported as `CertificateEmpty`, and as
/// nothing else.
pub proof fn lemma_empty_is_certificate_empty(root: Seq<u8>, input: Option<Seq<u8>>)
    requires
        input matches Some(b) ==> b.len() == 0,
    ensures
        validation(root, input) == Err::<ServerCertificateView, _>(
            ServerCertificateError::CertificateEmpty,
        ),
{
}

/// A correctly signed service certificate whose fields are all present and
/// whose key parses is accepted, and the validated certificate holds the
/// body's key bytes, serial number and provider id exactly.
pub proof fn lemma_service_certificate_accepted(
    root: Seq<u8>,
    b: Seq<u8>,
    body: Seq<u8>,
    sig: Seq<u8>,
    key: Seq<u8>,
    serial_number: Seq<u8>,
    provider_id: Seq<char>,
)
    requires
        signed_certificate_of(b) == Some(
            SignedDrmCertificateView { drm_certificate: Some(body), signature: Some(sig) },
        ),
        pss_sha1_verifies(root, body, sig),
        drm_certificate_of(body) == Some(
            DrmCertificateView {
                cert_type: Some(SERVICE_CERTIFICATE_TYPE),
                serial_number: Some(serial_number),
                public_key: Some(key),
                provider_id: Some(provider_id),
            },
        ),
        pkcs1_der_accepted(key),
    ensures
        validation(root, Some(b)) == Ok::<_, ServerCertificateError>(
            ServerCertificateView { key, serial_number, provider_id },
        ),
{
}

/// Whatever the body and signature hold, a signature that does not verify
/// over the body under the root key makes validation fail with
/// `BadSignature`: a changed body or a changed signature is caught by the
/// signature check, before the body is read.
pub proof fn lemma_unverified_signature_rejected(root: Seq<u8>, b: Seq<u8>, body: Seq<u8>, sig: Seq<u8>)
    requires
        signed_certificate_of(b) == Some(
            SignedDrmCertificateView { drm_certificate: Some(body), signature: Some(sig) },
        ),
        !pss_sha1_verifies(root, body, sig),
    ensures
        validation(root, Some(b)) == Err::<ServerCertificateView, _>(
            ServerCertificateError::BadSignature,
        ),
{
}

/// A correctly signed certificate of any type other than a service
/// certificate fails with `WrongCertificateType`, carrying that type.
pub proof fn lemma_other_type_rejected(
    root: Seq<u8>,
    b: Seq<u8>,
    body: Seq<u8>,
    sig: Seq<u8>,
    cert: DrmCertificateView,
    t: i32,
)
    requires
        signed_certificate_of(b) == Some(
            SignedDrmCertificateView { drm_certificate: Some(body), signature: Some(sig) },
        ),
        pss_sha1_verifies(root, body, sig),
        drm_certificate_of(body) == Some(cert),
        cert.cert_type == Some(t),
        t != SERVICE_CERTIFICATE_TYPE,
    ensures
        validation(root, Some(b)) == Err::<ServerCertificateView, _>(
            ServerCertificateError::WrongCertificateType(t),
        ),
{
}

} // verus!
