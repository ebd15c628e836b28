//! An encrypted, single-user credential vault.
//!
//! The vault is one container: an ordered list of credential records with
//! pairwise distinct identifiers. It is kept as one blob, a random nonce
//! followed by the AES-256-GCM sealing of the container's JSON text under a
//! key derived from the user's password. Every function here works on values
//! in memory; reading and writing the blob is left to the caller.
//!
//! - `vault`: the key of a password, and the sealing and opening of a text.
//! - `json`: JSON values, read and written by `serde_json`.
//! - `record`, `container`: credential records and the list of them.
//! - `driver`: from a blob to a JSON value and back.
//! - `repository`: the operations, from the stored blob to the blob to store.
//! - `totp`: one-time passwords of a two-factor secret.
//! - `sensitive`: a holder for secrets that is wiped after use.
//! - `laws`: what holds of the operations taken together.
//! - `error`: the kinds of failure.

pub mod container;
pub mod driver;
pub mod error;
pub mod json;
pub mod laws;
pub mod record;
pub mod repository;
pub mod sensitive;
pub mod totp;
pub mod vault;
