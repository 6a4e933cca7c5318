//! PBKDF2 adapter for the PHC password-hash string ecosystem.
//!
//! The crate maps algorithm identifiers to concrete derivation functions,
//! validates and serializes tunable parameters, assembles canonical
//! password-hash records, and upgrades legacy crypt-style hash strings to
//! the canonical form.

pub mod algorithm;
pub mod b64;
pub mod error;
pub mod hasher;
pub mod ident;
pub mod kdf;
pub mod legacy;
pub mod params;
pub mod record;
pub mod strutil;

pub use algorithm::AlgorithmId;
pub use b64::b64_strip;
pub use error::Error;
pub use error::ParamsError;
pub use hasher::Pbkdf2;
pub use ident::Ident;
pub use kdf::pbkdf2_derive;
pub use params::Params;
pub use params::ParamsString;
pub use record::PasswordHash;
