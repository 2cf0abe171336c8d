//! A tamper-evident, signer-authenticated hash chain.
//!
//! Every block binds its position, its predecessor's hash and its signer's
//! fingerprint to its payload through a SHA-256 digest, and carries an RSA
//! signature over its canonical metadata.  A chain can be checked against a
//! set of trusted keys and, independently, against its recorded hashes.

pub mod block;
pub mod block_metadata;
pub mod chain;
pub mod clock;
pub mod crypto;
pub mod digest;
pub mod json;
pub mod key_manager;
pub mod utf8;
