//! The cipher under its earlier names. `decrypt` is `crate::vault::decrypt`.
//! `encrypt` hands back the blob itself and no error, so it is for callers
//! that hold a password of eight bytes at least and a text that one sealing
//! takes.

use crate::error::VaultError;
use crate::vault::{decrypted_text, encrypt_outcome, holds_text};
use vstd::prelude::*;

verus! {

/// Decrypts a blob under a password.
///
/// A password of fewer than eight bytes gives `InvalidPassword`. A blob that
/// is shorter than a nonce, does not authenticate under the password's key,
/// or holds a plaintext that is not UTF-8 gives `AuthenticationFailed`.
pub fn decrypt(password: String, encrypted_data: Vec<u8>) -> (text: Result<String, VaultError>)
    ensures
        text matches Ok(t) ==> decrypted_text(password@, encrypted_data@) == Ok::<
            Seq<char>,
            VaultError,
        >(t@),
        text matches Err(e) ==> decrypted_text(password@, encrypted_data@) == Err::<
            Seq<char>,
            VaultError,
        >(e),
{
    crate::vault::decrypt(password, encrypted_data)
}

/// Encrypts a text under a password: a fresh random nonce followed by the
/// sealing of the text's bytes under the password's key.
pub fn encrypt(password: String, plaintext: String) -> (blob: Vec<u8>)
    requires
        encrypt_outcome(password@, plaintext@) is Ok,
    ensures
        holds_text(blob@, password@, plaintext@),
{
    match crate::vault::encrypt(password, plaintext) {
        Ok(blob) => blob,
        Err(_) => Vec::new(),
    }
}

} // verus!
