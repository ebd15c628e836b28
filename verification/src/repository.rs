//! The operations of the vault.
//!
//! Each one takes the password and the bytes of the stored blob, opens the
//! container, does its work, and hands back what is to be stored in the
//! blob's place, if anything is. Where an operation fails, nothing is to be
//! stored, and what was stored stays as it was.
//!
//! A caller that found no blob passes the empty one, which no password opens.
//!
//! Before a container is sealed, its text is read back: a blob is handed out
//! only where the text holds the container, record for record.

use crate::container::{
    has_uid, json_records, records_json, records_view, redacted_records, removed, secret_of,
    unused_uid, updated, Container,
};
use crate::driver::{read, read_outcome};
use crate::error::VaultError;
use crate::json::{
    decode_json, encode_json, json_from_text, json_to_text, members_view, settle_fields,
    settled_fields, Json, JsonValue,
};
use crate::record::{CredentialRecord, RecordView};
use crate::sensitive::SensitiveData;
use crate::totp::{generate, totp_code, CODE_LEN};
use crate::vault::{
    decrypted_text, encrypt_outcome, holds_text, open, seal, MAX_PLAINTEXT_LEN, MIN_PASSWORD_LEN,
};
use uuid::Uuid;
use vstd::prelude::*;
use vstd::utf8::*;

verus! {

/// The container that a blob holds under a password.
pub open spec fn stored_records(password: Seq<char>, stored: Seq<u8>) -> Result<
    Seq<RecordView>,
    VaultError,
> {
    match read_outcome(password, stored) {
        Err(e) => Err(e),
        Ok(value) => match json_records(value) {
            Some(records) => Ok(records),
            None => Err(VaultError::Corrupted),
        },
    }
}

/// What `get_credentials` returns: the records of the blob as a listing
/// shows them.
pub open spec fn listed_records(password: Seq<char>, stored: Seq<u8>) -> Result<
    Seq<RecordView>,
    VaultError,
> {
    match stored_records(password, stored) {
        Err(e) => Err(e),
        Ok(records) => Ok(redacted_records(records)),
    }
}

/// The text that is sealed for a container.
pub open spec fn container_text(records: Seq<RecordView>) -> Seq<char> {
    json_to_text(records_json(records))
}

/// The text of the container holds the container, record for record.
pub open spec fn reads_back(records: Seq<RecordView>) -> bool {
    match json_from_text(container_text(records)) {
        Some(value) => json_records(value) == Some(records),
        None => false,
    }
}

/// The blob holds the container under the password: it is a sealing of the
/// container's text, and opens to the container.
pub open spec fn stores(blob: Seq<u8>, password: Seq<char>, records: Seq<RecordView>) -> bool {
    &&& holds_text(blob, password, container_text(records))
    &&& stored_records(password, blob) == Ok::<Seq<RecordView>, VaultError>(records)
}

/// What storing a container under a password comes to: the error, or the
/// container that the blob then holds.
pub open spec fn store_outcome(password: Seq<char>, records: Seq<RecordView>) -> Result<
    Seq<RecordView>,
    VaultError,
> {
    if encode_utf8(password).len() < MIN_PASSWORD_LEN {
        Err(VaultError::InvalidPassword)
    } else if !reads_back(records) {
        Err(VaultError::Corrupted)
    } else if encode_utf8(container_text(records)).len() > MAX_PLAINTEXT_LEN {
        Err(VaultError::IOFailure)
    } else {
        Ok(records)
    }
}

/// What `add_credential_as` comes to: the error, or the container that the
/// new blob holds.
pub open spec fn add_outcome(
    password: Seq<char>,
    stored: Seq<u8>,
    candidate: Seq<char>,
    kind: Seq<char>,
    credential: Seq<(Seq<char>, JsonValue)>,
) -> Result<Seq<RecordView>, VaultError> {
    match stored_records(password, stored) {
        Err(e) => Err(e),
        Ok(records) => match settled_fields(credential) {
            None => Err(VaultError::ValidationFailed),
            Some(fields) => store_outcome(
                password,
                records.push(
                    RecordView { uid: unused_uid(records, candidate), kind, credential: fields },
                ),
            ),
        },
    }
}

/// What `update_credential` comes to: the error, or the container that the
/// new blob holds.
pub open spec fn update_outcome(
    password: Seq<char>,
    stored: Seq<u8>,
    uid: Seq<char>,
    kind: Seq<char>,
    credential: Seq<(Seq<char>, JsonValue)>,
) -> Result<Seq<RecordView>, VaultError> {
    match stored_records(password, stored) {
        Err(e) => Err(e),
        Ok(records) => if !has_uid(records, uid) {
            Err(VaultError::NotFound)
        } else {
            match settled_fields(credential) {
                None => Err(VaultError::ValidationFailed),
                Some(fields) => store_outcome(password, updated(records, uid, kind, fields)),
            }
        },
    }
}

/// What `remove_credentials` comes to: the error, or the container that the
/// new blob holds.
pub open spec fn remove_outcome(password: Seq<char>, stored: Seq<u8>, uid: Seq<char>) -> Result<
    Seq<RecordView>,
    VaultError,
> {
    match stored_records(password, stored) {
        Err(e) => Err(e),
        Ok(records) => if has_uid(records, uid) {
            store_outcome(password, removed(records, uid))
        } else {
            Err(VaultError::NotFound)
        },
    }
}

/// What `change_password` comes to: the error, or the text that is sealed
/// again.
pub open spec fn change_password_outcome(
    old_password: Seq<char>,
    new_password: Seq<char>,
    stored: Seq<u8>,
) -> Result<Seq<char>, VaultError> {
    match stored_records(old_password, stored) {
        Err(e) => Err(e),
        Ok(_) => {
            let text = decrypted_text(old_password, stored)->Ok_0;
            match encrypt_outcome(new_password, text) {
                Err(e) => Err(e),
                Ok(_) => Ok(text),
            }
        },
    }
}

/// What `resolve_twofactor` returns.
pub open spec fn resolve_outcome(
    password: Seq<char>,
    stored: Seq<u8>,
    uid: Seq<char>,
    timestamp: u64,
) -> Result<Seq<char>, VaultError> {
    match stored_records(password, stored) {
        Err(e) => Err(e),
        Ok(records) => match secret_of(records, uid) {
            Err(e) => Err(e),
            Ok(secret) => totp_code(secret, timestamp),
        },
    }
}

/// `Uuid::new_v4` of the `uuid` crate, written out by `to_string`: a random
/// identifier in the hyphenated form, 36 characters long.
#[verifier::external_body]
fn random_uid() -> (uid: String)
    ensures
        uid@.len() == 36,
{
    Uuid::new_v4().to_string()
}

/// Opens the container that a blob holds under a password.
pub fn load(password: &str, stored: &[u8]) -> (container: Result<Container, VaultError>)
    ensures
        container matches Ok(c) ==> c.wf() && stored_records(password@, stored@) == Ok::<
            Seq<RecordView>,
            VaultError,
        >(c@),
        container matches Err(e) ==> stored_records(password@, stored@) == Err::<
            Seq<RecordView>,
            VaultError,
        >(e),
{
    match read(password, stored) {
        Err(e) => Err(e),
        Ok(json) => Container::from_json(&json),
    }
}

/// Seals a container under a password: the blob to store.
///
/// The container's text is read back first. Where it does not hold the
/// container, record for record, nothing is sealed.
pub fn store(password: &str, container: &Container) -> (blob: Result<Vec<u8>, VaultError>)
    requires
        container.wf(),
    ensures
        blob matches Ok(b) ==> store_outcome(password@, container@) is Ok && stores(
            b@,
            password@,
            container@,
        ),
        blob matches Err(e) ==> store_outcome(password@, container@) == Err::<
            Seq<RecordView>,
            VaultError,
        >(e),
{
    if password.as_bytes().len() < MIN_PASSWORD_LEN {
        return Err(VaultError::InvalidPassword);
    }
    let json = container.to_json();
    let mut text = SensitiveData::new(encode_json(&json));
    let held = match decode_json(text.expose()) {
        Some(read) => match Container::from_json(&read) {
            Ok(copy) => copy.same(container),
            Err(_) => false,
        },
        None => false,
    };
    if !held {
        text.wipe();
        text.discard();
        return Err(VaultError::Corrupted);
    }
    let mut secret = SensitiveData::new(password.to_owned());
    let blob = seal(&mut secret, &mut text);
    secret.discard();
    text.discard();
    blob
}

/// Makes a new vault: the blob of the empty container under the password.
pub fn register(password: &str) -> (blob: Result<Vec<u8>, VaultError>)
    ensures
        blob matches Ok(b) ==> store_outcome(password@, Seq::empty()) is Ok && stores(
            b@,
            password@,
            Seq::empty(),
        ),
        blob matches Err(e) ==> store_outcome(password@, Seq::empty()) == Err::<
            Seq<RecordView>,
            VaultError,
        >(e),
{
    let container = Container::new();
    store(password, &container)
}

/// Whether the password opens the blob and the blob holds a container.
/// Nothing tells a caller why it does not.
pub fn login(password: &str, stored: &[u8]) -> (opened: bool)
    ensures
        opened == stored_records(password@, stored@) is Ok,
{
    load(password, stored).is_ok()
}

/// The records as a listing shows them: each says whether it has a
/// two-factor secret, none shows the secret.
pub fn get_credentials(password: &str, stored: &[u8]) -> (listing: Result<
    Vec<CredentialRecord>,
    VaultError,
>)
    ensures
        listing matches Ok(l) ==> listed_records(password@, stored@) == Ok::<
            Seq<RecordView>,
            VaultError,
        >(records_view(l@)),
        listing matches Err(e) ==> listed_records(password@, stored@) == Err::<
            Seq<RecordView>,
            VaultError,
        >(e),
{
    match load(password, stored) {
        Err(e) => Err(e),
        Ok(container) => Ok(container.redacted()),
    }
}

/// The records as they are stored, secrets and all.
pub fn export_credentials(password: &str, stored: &[u8]) -> (records: Result<
    Vec<CredentialRecord>,
    VaultError,
>)
    ensures
        records matches Ok(r) ==> stored_records(password@, stored@) == Ok::<
            Seq<RecordView>,
            VaultError,
        >(records_view(r@)),
        records matches Err(e) ==> stored_records(password@, stored@) == Err::<
            Seq<RecordView>,
            VaultError,
        >(e),
{
    match load(password, stored) {
        Err(e) => Err(e),
        Ok(container) => Ok(container.export()),
    }
}

/// Adds a record with the proposed identifier, or with one made from it
/// where a record has that already. Hands back the record and the blob to
/// store.
///
/// The record holds the fields as they are read back from JSON text; fields
/// that cannot be read back as an object are refused.
pub fn add_credential_as(
    password: &str,
    stored: &[u8],
    candidate: String,
    credential_type: &str,
    credential: Vec<(String, Json)>,
) -> (added: Result<(CredentialRecord, Vec<u8>), VaultError>)
    ensures
        added matches Ok(pair) ==> {
            &&& stored_records(password@, stored@) matches Ok(records)
            &&& !has_uid(records, pair.0@.uid)
            &&& pair.0@.uid == unused_uid(records, candidate@)
            &&& pair.0@.kind == credential_type@
            &&& settled_fields(members_view(credential@)) == Some(pair.0@.credential)
            &&& add_outcome(
                password@,
                stored@,
                candidate@,
                credential_type@,
                members_view(credential@),
            ) == Ok::<Seq<RecordView>, VaultError>(records.push(pair.0@))
            &&& stores(pair.1@, password@, records.push(pair.0@))
        },
        added matches Err(e) ==> add_outcome(
            password@,
            stored@,
            candidate@,
            credential_type@,
            members_view(credential@),
        ) == Err::<Seq<RecordView>, VaultError>(e),
{
    match load(password, stored) {
        Err(e) => Err(e),
        Ok(mut container) => match settle_fields(credential) {
            None => Err(VaultError::ValidationFailed),
            Some(fields) => {
                let record = container.add(candidate, credential_type.to_owned(), fields);
                match store(password, &container) {
                    Ok(blob) => Ok((record, blob)),
                    Err(e) => Err(e),
                }
            },
        },
    }
}

/// Adds a record under a fresh random identifier, which no record of the
/// container has. Hands back the record and the blob to store.
///
/// Whatever identifier is drawn, the outcome is that of `add_credential_as`
/// for it: the addition fails only where that one does.
pub fn add_credential(
    password: &str,
    stored: &[u8],
    credential_type: &str,
    credential: Vec<(String, Json)>,
) -> (added: Result<(CredentialRecord, Vec<u8>), VaultError>)
    ensures
        added matches Ok(pair) ==> {
            &&& stored_records(password@, stored@) matches Ok(records)
            &&& !has_uid(records, pair.0@.uid)
            &&& exists|drawn: Seq<char>|
                drawn.len() == 36 && pair.0@.uid == #[trigger] unused_uid(records, drawn)
            &&& pair.0@.kind == credential_type@
            &&& settled_fields(members_view(credential@)) == Some(pair.0@.credential)
            &&& stores(pair.1@, password@, records.push(pair.0@))
        },
        added matches Err(e) ==> match stored_records(password@, stored@) {
            Err(reason) => e == reason,
            Ok(_) => if settled_fields(members_view(credential@)) is None {
                e == VaultError::ValidationFailed
            } else {
                e == VaultError::Corrupted || e == VaultError::IOFailure
            },
        },
        exists|drawn: Seq<char>|
            drawn.len() == 36 && match added {
                Ok(pair) => #[trigger] add_outcome(
                    password@,
                    stored@,
                    drawn,
                    credential_type@,
                    members_view(credential@),
                ) == Ok::<Seq<RecordView>, VaultError>(
                    stored_records(password@, stored@)->Ok_0.push(pair.0@),
                ),
                Err(e) => add_outcome(
                    password@,
                    stored@,
                    drawn,
                    credential_type@,
                    members_view(credential@),
                ) == Err::<Seq<RecordView>, VaultError>(e),
            },
{
    let candidate = random_uid();
    add_credential_as(password, stored, candidate, credential_type, credential)
}

/// Gives the record that has the identifier a new kind and new fields. Hands
/// back the blob to store.
pub fn update_credential(
    password: &str,
    stored: &[u8],
    uid: &str,
    credential_type: &str,
    credential: Vec<(String, Json)>,
) -> (blob: Result<Vec<u8>, VaultError>)
    ensures
        blob matches Ok(b) ==> update_outcome(
            password@,
            stored@,
            uid@,
            credential_type@,
            members_view(credential@),
        ) matches Ok(records) && stores(b@, password@, records),
        blob matches Err(e) ==> update_outcome(
            password@,
            stored@,
            uid@,
            credential_type@,
            members_view(credential@),
        ) == Err::<Seq<RecordView>, VaultError>(e),
{
    match load(password, stored) {
        Err(e) => Err(e),
        Ok(mut container) => {
            if container.position(uid).is_none() {
                return Err(VaultError::NotFound);
            }
            match settle_fields(credential) {
                None => Err(VaultError::ValidationFailed),
                Some(fields) => match container.update(uid, credential_type.to_owned(), fields) {
                    Err(e) => Err(e),
                    Ok(_) => store(password, &container),
                },
            }
        },
    }
}

/// Takes out the record that has the identifier. Hands back the blob to
/// store.
pub fn remove_credentials(password: &str, stored: &[u8], uid: &str) -> (blob: Result<
    Vec<u8>,
    VaultError,
>)
    ensures
        blob matches Ok(b) ==> remove_outcome(password@, stored@, uid@) matches Ok(records)
            && stores(b@, password@, records),
        blob matches Err(e) ==> remove_outcome(password@, stored@, uid@) == Err::<
            Seq<RecordView>,
            VaultError,
        >(e),
{
    match load(password, stored) {
        Err(e) => Err(e),
        Ok(mut container) => {
            match container.remove(uid) {
                Err(e) => Err(e),
                Ok(_) => store(password, &container),
            }
        },
    }
}

/// Seals what the blob holds under a new password. The blob has to open
/// under the old password and hold a container; the new blob then holds the
/// same text, and so the same container, under the new one.
pub fn change_password(old_password: &str, new_password: &str, stored: &[u8]) -> (blob: Result<
    Vec<u8>,
    VaultError,
>)
    ensures
        blob matches Ok(b) ==> {
            &&& change_password_outcome(old_password@, new_password@, stored@) matches Ok(text)
            &&& holds_text(b@, new_password@, text)
            &&& stored_records(new_password@, b@) == stored_records(old_password@, stored@)
            &&& stored_records(new_password@, b@) is Ok
        },
        blob matches Err(e) ==> change_password_outcome(old_password@, new_password@, stored@)
            == Err::<Seq<char>, VaultError>(e),
{
    let mut old_secret = SensitiveData::new(old_password.to_owned());
    let opened = open(&mut old_secret, stored);
    old_secret.discard();
    match opened {
        Err(e) => Err(e),
        Ok(mut text) => {
            let held = match decode_json(text.expose()) {
                Some(json) => Container::from_json(&json),
                None => Err(VaultError::Corrupted),
            };
            let blob = match held {
                Err(e) => {
                    text.wipe();
                    Err(e)
                },
                Ok(_) => {
                    let mut new_secret = SensitiveData::new(new_password.to_owned());
                    let sealed = seal(&mut new_secret, &mut text);
                    new_secret.discard();
                    sealed
                },
            };
            text.discard();
            blob
        },
    }
}

/// The one-time password of the record that has the identifier, at a time
/// given in seconds since the start of the Unix epoch.
pub fn resolve_twofactor(password: &str, stored: &[u8], uid: &str, timestamp: u64) -> (code:
    Result<String, VaultError>)
    ensures
        code matches Ok(c) ==> resolve_outcome(password@, stored@, uid@, timestamp) == Ok::<
            Seq<char>,
            VaultError,
        >(c@) && c@.len() == CODE_LEN,
        code matches Err(e) ==> resolve_outcome(password@, stored@, uid@, timestamp) == Err::<
            Seq<char>,
            VaultError,
        >(e),
{
    match load(password, stored) {
        Err(e) => Err(e),
        Ok(container) => match container.two_factor_secret(uid) {
            Err(e) => Err(e),
            Ok(secret) => {
                let mut secret = SensitiveData::new(secret);
                let code = generate(secret.expose(), timestamp);
                secret.wipe();
                secret.discard();
                code
            },
        },
    }
}

} // verus!
