//! Time-based one-time passwords.
//!
//! A code belongs to a time step of thirty seconds, counted from the start of
//! the Unix epoch. The code of a step is the HOTP value, with HMAC-SHA-1 and
//! six decimal digits, of the secret and the number of the step.

use crate::error::VaultError;
use libreauth::oath::HOTPBuilder;
use vstd::prelude::*;

verus! {

/// The seconds in one time step.
pub const TIME_STEP: u64 = 30;

/// The number of digits in a code.
pub const CODE_LEN: usize = 6;

/// The HOTP value of a base32 secret and a counter, with HMAC-SHA-1 and six
/// decimal digits; `None` where the secret is not base32.
pub uninterp spec fn hotp_code(secret: Seq<char>, counter: u64) -> Option<Seq<char>>;

/// The number of the time step that a time falls into.
pub open spec fn time_counter(timestamp: u64) -> u64 {
    timestamp / TIME_STEP
}

/// The text has a length that base32 without padding can have: a number of
/// whole groups of eight characters, and behind them none, two, four, five or
/// seven more.
pub open spec fn has_base32_length(secret: Seq<char>) -> bool {
    let rest = secret.len() % 8;
    rest != 1 && rest != 3 && rest != 6
}

/// What `generate` returns for a secret and a time.
pub open spec fn totp_code(secret: Seq<char>, timestamp: u64) -> Result<Seq<char>, VaultError> {
    if secret.len() == 0 || !has_base32_length(secret) {
        Err(VaultError::ValidationFailed)
    } else {
        match hotp_code(secret, time_counter(timestamp)) {
            Some(code) => Ok(code),
            None => Err(VaultError::ValidationFailed),
        }
    }
}

/// `HOTP::generate` of the `libreauth` crate, on what `HOTPBuilder` makes of a
/// base32 key and a counter, with the builder's defaults otherwise (SHA-1,
/// six characters out of `0123456789`). The builder refuses a key that is not
/// base32, without padding, and nothing else; a code has six characters.
#[verifier::external_body]
fn hotp_generate(secret: &str, counter: u64) -> (code: Option<String>)
    ensures
        code matches Some(c) ==> hotp_code(secret@, counter) == Some(c@) && c@.len() == CODE_LEN,
        code is None ==> hotp_code(secret@, counter) is None,
{
    match HOTPBuilder::new().base32_key(secret).counter(counter).finalize() {
        Ok(hotp) => Some(hotp.generate()),
        Err(_) => None,
    }
}

/// The one-time password of a base32 secret at a time, given in seconds since
/// the start of the Unix epoch.
///
/// A secret that is empty, of a length that base32 cannot have, or not
/// base32 is refused.
pub fn generate(secret: &str, timestamp: u64) -> (code: Result<String, VaultError>)
    ensures
        code matches Ok(c) ==> totp_code(secret@, timestamp) == Ok::<Seq<char>, VaultError>(c@)
            && c@.len() == CODE_LEN,
        code matches Err(e) ==> totp_code(secret@, timestamp) == Err::<Seq<char>, VaultError>(e),
{
    if secret.is_empty() {
        return Err(VaultError::ValidationFailed);
    }
    let rest = secret.unicode_len() % 8;
    if rest == 1 || rest == 3 || rest == 6 {
        return Err(VaultError::ValidationFailed);
    }
    match hotp_generate(secret, timestamp / TIME_STEP) {
        Some(code) => Ok(code),
        None => Err(VaultError::ValidationFailed),
    }
}

} // verus!
