//! Validation of signed service certificates and encryption of client
//! identities under a validated certificate's public key.

pub mod certificate;
pub mod client_id;
pub mod crypto;
pub mod messages;
pub mod wire;
