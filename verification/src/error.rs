//! The error kinds of the vault.

use vstd::prelude::*;

verus! {

/// Why a vault operation did not succeed.
#[derive(Clone, Copy, Debug, PartialEq, Eq, Structural)]
pub enum VaultError {
    /// The password is shorter than the minimum length.
    InvalidPassword,
    /// The blob did not authenticate under the password's key, or its
    /// plaintext is not UTF-8. A wrong password and damaged data are not told
    /// apart.
    AuthenticationFailed,
    /// No record has the given identifier.
    NotFound,
    /// The decrypted text is not a well-formed list of records.
    Corrupted,
    /// The record has no usable two-factor secret.
    ValidationFailed,
    /// The container could not be made ready for storage, or not be stored.
    IOFailure,
}

impl VaultError {
    /// The text of `message`.
    pub open spec fn message_text(self) -> Seq<char> {
        match self {
            VaultError::InvalidPassword => "Password must be at least 8 characters long."@,
            VaultError::AuthenticationFailed => "Authentication failed. Invalid password."@,
            VaultError::NotFound => "Credential not found."@,
            VaultError::Corrupted => "Corrupted data: expected an array container."@,
            VaultError::ValidationFailed => "Invalid two-factor secret."@,
            VaultError::IOFailure => "Failed to store the vault."@,
        }
    }

    /// A sentence for the user.
    pub fn message(&self) -> (text: String)
        ensures
            text@ == self.message_text(),
    {
        match self {
            VaultError::InvalidPassword => String::from_str(
                "Password must be at least 8 characters long.",
            ),
            VaultError::AuthenticationFailed => String::from_str(
                "Authentication failed. Invalid password.",
            ),
            VaultError::NotFound => String::from_str("Credential not found."),
            VaultError::Corrupted => String::from_str(
                "Corrupted data: expected an array container.",
            ),
            VaultError::ValidationFailed => String::from_str("Invalid two-factor secret."),
            VaultError::IOFailure => String::from_str("Failed to store the vault."),
        }
    }
}

} // verus!
