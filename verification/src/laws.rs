//! What holds of the vault's operations taken together.
//!
//! Each law is stated over the functions that the operations' contracts are
//! written in: `stored_records` for what a blob holds, and the `_outcome`
//! functions for what an operation comes to.

use crate::container::{
    distinct_uids, has_uid, lemma_removed_at, lemma_unused_uid, redacted_records, removed,
    unused_uid,
};
use crate::error::VaultError;
use crate::json::{lookup, settled_fields, JsonValue};
use crate::record::{
    lemma_redacted_fields, redacted_record, shows_no_secret, two_factor_secret, RecordView,
};
use crate::repository::{
    add_outcome, change_password_outcome, listed_records, remove_outcome, stored_records,
    stores, update_outcome,
};
use crate::vault::{
    decrypted_text, derived_key, holds_text, sealed_blob, unsealed_blob, KEY_LEN,
    MIN_PASSWORD_LEN, NONCE_LEN, PAD_BYTE,
};
use vstd::prelude::*;
use vstd::utf8::*;

verus! {

/// The records of a stored container have distinct identifiers.
pub proof fn law_stored_uids_are_distinct(password: Seq<char>, stored: Seq<u8>)
    ensures
        stored_records(password, stored) matches Ok(records) ==> distinct_uids(records),
{
}

/// A blob that stores a container opens to that container under the same
/// password, and a listing of it shows that container's records.
pub proof fn law_what_is_stored_is_held(
    blob: Seq<u8>,
    password: Seq<char>,
    records: Seq<RecordView>,
)
    requires
        stores(blob, password, records),
    ensures
        stored_records(password, blob) == Ok::<Seq<RecordView>, VaultError>(records),
        listed_records(password, blob) == Ok::<Seq<RecordView>, VaultError>(
            redacted_records(records),
        ),
        distinct_uids(records),
{
}

/// Whatever keeps a blob from opening under a password of valid length, the
/// error is the same: a wrong password, damaged data and a plaintext that is
/// no text are not told apart.
pub proof fn law_one_error_for_every_failure(password: Seq<char>, blob: Seq<u8>)
    requires
        encode_utf8(password).len() >= MIN_PASSWORD_LEN,
    ensures
        decrypted_text(password, blob) matches Err(e) ==> e == VaultError::AuthenticationFailed,
        blob.len() < NONCE_LEN ==> decrypted_text(password, blob) == Err::<Seq<char>, VaultError>(
            VaultError::AuthenticationFailed,
        ),
{
}

/// A blob that the cipher refuses under the password's key gives no text,
/// and so no container. That the cipher does refuse a blob that was sealed
/// under another key, or changed since, is the cipher's to keep.
pub proof fn law_refused_blob_gives_no_text(password: Seq<char>, blob: Seq<u8>)
    requires
        encode_utf8(password).len() >= MIN_PASSWORD_LEN,
        unsealed_blob(derived_key(encode_utf8(password)), blob) is None,
    ensures
        decrypted_text(password, blob) == Err::<Seq<char>, VaultError>(
            VaultError::AuthenticationFailed,
        ),
        stored_records(password, blob) == Err::<Seq<RecordView>, VaultError>(
            VaultError::AuthenticationFailed,
        ),
{
}

/// Two sealings of one text under one key are the same blob where the nonces
/// are the same, and different blobs where the nonces differ: it is the fresh
/// nonce that keeps two blobs of one container apart.
pub proof fn law_nonce_tells_blobs_apart(
    key: Seq<u8>,
    plaintext: Seq<u8>,
    nonce: Seq<u8>,
    other_nonce: Seq<u8>,
)
    requires
        nonce.len() == NONCE_LEN,
        other_nonce.len() == NONCE_LEN,
    ensures
        nonce == other_nonce <==> sealed_blob(key, nonce, plaintext) == sealed_blob(
            key,
            other_nonce,
            plaintext,
        ),
{
    let blob = sealed_blob(key, nonce, plaintext);
    let other = sealed_blob(key, other_nonce, plaintext);
    if blob == other {
        assert(blob.subrange(0, NONCE_LEN as int) =~= nonce);
        assert(other.subrange(0, NONCE_LEN as int) =~= other_nonce);
    }
}

/// A password of fewer than 32 bytes and the same password with the filler
/// byte behind it give the same key.
pub proof fn law_padded_password_gives_the_same_key(password: Seq<u8>)
    requires
        password.len() < KEY_LEN,
    ensures
        derived_key(password.push(PAD_BYTE)) == derived_key(password),
{
    assert(derived_key(password.push(PAD_BYTE)) =~= derived_key(password));
}

/// Two passwords that give the same key open the same blobs to the same
/// containers: after a change from one to the other, the old password still
/// opens the vault.
pub proof fn law_same_key_opens_the_same(password: Seq<char>, other: Seq<char>, stored: Seq<u8>)
    requires
        encode_utf8(password).len() >= MIN_PASSWORD_LEN,
        encode_utf8(other).len() >= MIN_PASSWORD_LEN,
        derived_key(encode_utf8(password)) == derived_key(encode_utf8(other)),
    ensures
        decrypted_text(password, stored) == decrypted_text(other, stored),
        stored_records(password, stored) == stored_records(other, stored),
{
}

/// After a password change, the new password opens the new blob to the
/// container that the old password opened the old blob to.
pub proof fn law_new_password_opens(
    old_password: Seq<char>,
    new_password: Seq<char>,
    stored: Seq<u8>,
    blob: Seq<u8>,
)
    requires
        change_password_outcome(old_password, new_password, stored) matches Ok(text)
            && holds_text(blob, new_password, text),
    ensures
        stored_records(new_password, blob) is Ok,
        stored_records(new_password, blob) == stored_records(old_password, stored),
{
}

/// After a record is added, its identifier is none that the container had,
/// and a listing of the new blob shows the record last: under that
/// identifier, with a `twoFactor` field that says whether the record has a
/// secret, and with nothing but a boolean in any field of that name.
pub proof fn law_added_record_is_listed(
    password: Seq<char>,
    stored: Seq<u8>,
    candidate: Seq<char>,
    kind: Seq<char>,
    credential: Seq<(Seq<char>, JsonValue)>,
    blob: Seq<u8>,
)
    requires
        add_outcome(password, stored, candidate, kind, credential) matches Ok(after)
            && stored_records(password, blob) == Ok::<Seq<RecordView>, VaultError>(after),
    ensures
        ({
            let before = stored_records(password, stored)->Ok_0;
            let after = add_outcome(password, stored, candidate, kind, credential)->Ok_0;
            let listing = listed_records(password, blob)->Ok_0;
            &&& stored_records(password, stored) is Ok
            &&& after.len() == before.len() + 1
            &&& after.last().uid == unused_uid(before, candidate)
            &&& !has_uid(before, after.last().uid)
            &&& after.last().kind == kind
            &&& Some(after.last().credential) == settled_fields(credential)
            &&& listed_records(password, blob) is Ok
            &&& listing.len() == after.len()
            &&& listing.last() == redacted_record(after.last())
            &&& listing.last().uid == after.last().uid
            &&& shows_no_secret(listing.last().credential)
            &&& lookup(listing.last().credential, "twoFactor"@) == Some(
                JsonValue::Bool(two_factor_secret(after.last().credential) is Some),
            )
        }),
{
    let before = stored_records(password, stored)->Ok_0;
    let after = add_outcome(password, stored, candidate, kind, credential)->Ok_0;
    lemma_unused_uid(before, candidate);
    lemma_redacted_fields(after.last().credential);
    assert(redacted_records(after).last() == redacted_record(after.last()));
}

/// An update changes the kind and the fields of the record that has the
/// identifier, and nothing else: there are as many records as before, in the
/// same places and under the same identifiers.
pub proof fn law_update_changes_one(
    password: Seq<char>,
    stored: Seq<u8>,
    uid: Seq<char>,
    kind: Seq<char>,
    credential: Seq<(Seq<char>, JsonValue)>,
)
    requires
        update_outcome(password, stored, uid, kind, credential) is Ok,
    ensures
        ({
            let before = stored_records(password, stored)->Ok_0;
            let after = update_outcome(password, stored, uid, kind, credential)->Ok_0;
            &&& stored_records(password, stored) is Ok
            &&& has_uid(before, uid)
            &&& after.len() == before.len()
            &&& forall|i: int|
                0 <= i < before.len() ==> if before[i].uid == uid {
                    &&& (#[trigger] after[i]).uid == uid
                    &&& after[i].kind == kind
                    &&& Some(after[i].credential) == settled_fields(credential)
                } else {
                    after[i] == before[i]
                }
        }),
{
}

/// Taking out a record that is there leaves one record fewer, and none with
/// its identifier; the others stay as they were, in their order. Where no
/// record has the identifier, the outcome is `NotFound`, and nothing is
/// handed out to be stored.
pub proof fn law_remove_takes_one(password: Seq<char>, stored: Seq<u8>, uid: Seq<char>)
    ensures
        match stored_records(password, stored) {
            Err(e) => remove_outcome(password, stored, uid) == Err::<Seq<RecordView>, VaultError>(
                e,
            ),
            Ok(before) => if has_uid(before, uid) {
                remove_outcome(password, stored, uid) matches Ok(after) ==> {
                    &&& after.len() == before.len() - 1
                    &&& !has_uid(after, uid)
                    &&& after == removed(before, uid)
                    &&& exists|at: int|
                        0 <= at < before.len() && before[at].uid == uid && after
                            == #[trigger] before.remove(at)
                }
            } else {
                remove_outcome(password, stored, uid) == Err::<Seq<RecordView>, VaultError>(
                    VaultError::NotFound,
                )
            },
        },
{
    if let Ok(before) = stored_records(password, stored) {
        if has_uid(before, uid) {
            let at = choose|i: int| 0 <= i < before.len() && (#[trigger] before[i]).uid == uid;
            lemma_removed_at(before, at);
            let after = before.remove(at);
            assert forall|i: int| 0 <= i < after.len() implies (#[trigger] after[i]).uid
                != uid by {
                if i < at {
                    assert(before[i].uid != before[at].uid);
                } else {
                    assert(before[at].uid != before[i + 1].uid);
                }
            }
        }
    }
}

/// Two additions, one after the other, are both kept: the container of the
/// second blob is the first container with the two new records behind it,
/// under two identifiers that differ.
pub proof fn law_additions_in_turn_are_kept(
    password: Seq<char>,
    stored: Seq<u8>,
    first_blob: Seq<u8>,
    second_blob: Seq<u8>,
    first: (Seq<char>, Seq<char>, Seq<(Seq<char>, JsonValue)>),
    second: (Seq<char>, Seq<char>, Seq<(Seq<char>, JsonValue)>),
)
    requires
        add_outcome(password, stored, first.0, first.1, first.2) matches Ok(held)
            && stored_records(password, first_blob) == Ok::<Seq<RecordView>, VaultError>(held),
        add_outcome(password, first_blob, second.0, second.1, second.2) matches Ok(held)
            && stored_records(password, second_blob) == Ok::<Seq<RecordView>, VaultError>(held),
    ensures
        ({
            let before = stored_records(password, stored)->Ok_0;
            let between = stored_records(password, first_blob)->Ok_0;
            let after = stored_records(password, second_blob)->Ok_0;
            &&& after.len() == before.len() + 2
            &&& after.subrange(0, before.len() as int) == before
            &&& after[before.len() as int] == between.last()
            &&& has_uid(after, between.last().uid)
            &&& has_uid(after, after.last().uid)
            &&& between.last().uid != after.last().uid
            &&& distinct_uids(after)
        }),
{
    let before = stored_records(password, stored)->Ok_0;
    let between = stored_records(password, first_blob)->Ok_0;
    let after = stored_records(password, second_blob)->Ok_0;
    lemma_unused_uid(between, second.0);
    assert(after.subrange(0, before.len() as int) =~= before);
    assert(after[before.len() as int] == between.last());
    assert(between[before.len() as int].uid != after.last().uid);
}

} // verus!
