//! Reading and validation pipeline for an encrypted, versioned backup
//! container: key derivation from a master secret and account identifier,
//! authenticate-then-decrypt handling of the ciphertext, incremental binary
//! frame parsing, and semantic validation of the resulting structure.

pub mod auth;
pub mod compress;
pub mod crypto;
pub mod errors;
pub mod frames;
pub mod kdf;
pub mod read;
pub mod textfmt;
pub mod validate;
