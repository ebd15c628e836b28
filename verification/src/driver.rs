//! From a stored blob to a JSON value, and back.

pub mod vault;

use crate::error::VaultError;
use crate::json::{decode_json, encode_json, json_from_text, json_to_text, Json, JsonValue};
use crate::sensitive::SensitiveData;
use crate::vault::{decrypted_text, encrypt_outcome, holds_text, open, seal};
use vstd::prelude::*;

verus! {

/// What `read` returns for a password and the bytes of a blob.
pub open spec fn read_outcome(password: Seq<char>, contents: Seq<u8>) -> Result<
    JsonValue,
    VaultError,
> {
    match decrypted_text(password, contents) {
        Err(e) => Err(e),
        Ok(text) => match json_from_text(text) {
            Some(value) => Ok(value),
            None => Err(VaultError::Corrupted),
        },
    }
}

/// Opens a blob under a password and reads its text as JSON.
///
/// The copy of the password and the decrypted text are erased before the
/// function returns, whatever the outcome.
pub fn read(password: &str, contents: &[u8]) -> (json: Result<Json, VaultError>)
    ensures
        json matches Ok(j) ==> read_outcome(password@, contents@) == Ok::<JsonValue, VaultError>(
            j@,
        ),
        json matches Err(e) ==> read_outcome(password@, contents@) == Err::<JsonValue, VaultError>(
            e,
        ),
{
    let mut secret = SensitiveData::new(password.to_owned());
    let opened = open(&mut secret, contents);
    secret.discard();
    match opened {
        Err(e) => Err(e),
        Ok(mut text) => {
            let parsed = decode_json(text.expose());
            text.wipe();
            text.discard();
            match parsed {
                Some(json) => Ok(json),
                None => Err(VaultError::Corrupted),
            }
        },
    }
}

/// Writes a JSON value as text and seals the text under a password: the blob
/// to store.
///
/// The copy of the password and the text are erased before the function
/// returns, whatever the outcome.
pub fn write(password: &str, credentials: &Json) -> (blob: Result<Vec<u8>, VaultError>)
    ensures
        blob is Ok <==> encrypt_outcome(password@, json_to_text(credentials@)) is Ok,
        blob matches Ok(b) ==> holds_text(b@, password@, json_to_text(credentials@)),
        blob matches Err(e) ==> encrypt_outcome(password@, json_to_text(credentials@)) == Err::<
            (),
            VaultError,
        >(e),
{
    let mut secret = SensitiveData::new(password.to_owned());
    let mut text = SensitiveData::new(encode_json(credentials));
    let blob = seal(&mut secret, &mut text);
    secret.discard();
    text.discard();
    blob
}

} // verus!
