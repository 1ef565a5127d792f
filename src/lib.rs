//! Algebraic-MAC credentials over the Ristretto group: the shared system
//! parameters, the issuer's key pair, and direct and blind issuance.
#![allow(non_snake_case)]

pub mod credentials;
pub mod encoding;
pub mod error;
pub mod group;
pub mod keys;
pub mod params;

pub use credentials::{
    AuthCredential, BlindedProfileKeyCredential, BlindedProfileKeyCredentialWithSecretNonce,
    ProfileKeyCredential, RequestCiphertext, RequestPublicKey, UidStruct,
};
pub use error::CredentialError;
pub use group::{Point, Scalar};
pub use keys::{KeyPair, PublicKey};
pub use params::SystemParams;
