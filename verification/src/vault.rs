//! Key derivation and the sealing of a container's text.
//!
//! A stored blob is a 12-byte nonce followed by what AES-256-GCM makes of the
//! plaintext under the derived key and that nonce: the ciphertext and its
//! 16-byte tag.

use crate::error::VaultError;
use crate::sensitive::{wipe_bytes, SensitiveData};
use aes_gcm::aead::{Aead, AeadCore, KeyInit, OsRng};
use aes_gcm::{Aes256Gcm, Key, Nonce};
use vstd::prelude::*;
use vstd::utf8::*;

verus! {

/// The least number of bytes in a password.
pub const MIN_PASSWORD_LEN: usize = 8;

/// The number of bytes in a key.
pub const KEY_LEN: usize = 32;

/// The number of bytes in a nonce.
pub const NONCE_LEN: usize = 12;

/// The number of bytes in an authentication tag.
pub const TAG_LEN: usize = 16;

/// The byte that fills a key behind a short password.
pub const PAD_BYTE: u8 = 0x21;

/// The most bytes that one sealing takes.
pub const MAX_PLAINTEXT_LEN: u64 = 0x10_0000_0000;

/// What AES-256-GCM makes of a plaintext under a key and a nonce, with no
/// associated data: the ciphertext followed by its tag.
pub uninterp spec fn aes256_gcm_seal(key: Seq<u8>, nonce: Seq<u8>, plaintext: Seq<u8>) -> Seq<u8>;

/// The plaintext that AES-256-GCM gives back for a sealed message under a key
/// and a nonce, with no associated data; `None` where the tag does not match.
pub uninterp spec fn aes256_gcm_open(key: Seq<u8>, nonce: Seq<u8>, sealed: Seq<u8>) -> Option<
    Seq<u8>,
>;

/// The key that stands for a password: its first 32 bytes, and behind a
/// shorter password the filler byte.
pub open spec fn derived_key(password: Seq<u8>) -> Seq<u8> {
    Seq::new(
        KEY_LEN as nat,
        |i: int|
            if i < password.len() {
                password[i]
            } else {
                PAD_BYTE
            },
    )
}

/// The blob for a plaintext under a key and a nonce.
pub open spec fn sealed_blob(key: Seq<u8>, nonce: Seq<u8>, plaintext: Seq<u8>) -> Seq<u8> {
    nonce + aes256_gcm_seal(key, nonce, plaintext)
}

/// The blob is a sealing of the plaintext under the key, with some nonce: the
/// nonce, as many bytes of ciphertext as the plaintext has, and the tag.
pub open spec fn is_sealing_of(blob: Seq<u8>, key: Seq<u8>, plaintext: Seq<u8>) -> bool {
    &&& blob.len() == NONCE_LEN + plaintext.len() + TAG_LEN
    &&& blob == sealed_blob(key, blob.subrange(0, NONCE_LEN as int), plaintext)
}

/// The plaintext of a blob under a key; `None` where the blob is shorter than
/// a nonce or does not authenticate.
pub open spec fn unsealed_blob(key: Seq<u8>, blob: Seq<u8>) -> Option<Seq<u8>> {
    if blob.len() < NONCE_LEN {
        None
    } else {
        aes256_gcm_open(
            key,
            blob.subrange(0, NONCE_LEN as int),
            blob.subrange(NONCE_LEN as int, blob.len() as int),
        )
    }
}

/// What `decrypt` returns for a password and a blob.
pub open spec fn decrypted_text(password: Seq<char>, blob: Seq<u8>) -> Result<
    Seq<char>,
    VaultError,
> {
    if encode_utf8(password).len() < MIN_PASSWORD_LEN {
        Err(VaultError::InvalidPassword)
    } else {
        match unsealed_blob(derived_key(encode_utf8(password)), blob) {
            Some(bytes) => if valid_utf8(bytes) {
                Ok(decode_utf8(bytes))
            } else {
                Err(VaultError::AuthenticationFailed)
            },
            None => Err(VaultError::AuthenticationFailed),
        }
    }
}

/// What `encrypt` owes for a password and a plaintext: the error, or that a
/// blob comes back.
pub open spec fn encrypt_outcome(password: Seq<char>, plaintext: Seq<char>) -> Result<
    (),
    VaultError,
> {
    if encode_utf8(password).len() < MIN_PASSWORD_LEN {
        Err(VaultError::InvalidPassword)
    } else if encode_utf8(plaintext).len() > MAX_PLAINTEXT_LEN {
        Err(VaultError::IOFailure)
    } else {
        Ok(())
    }
}

/// The blob holds the text under the password's key, and `decrypt` gives the
/// text back for it.
pub open spec fn holds_text(blob: Seq<u8>, password: Seq<char>, text: Seq<char>) -> bool {
    &&& is_sealing_of(blob, derived_key(encode_utf8(password)), encode_utf8(text))
    &&& decrypted_text(password, blob) == Ok::<Seq<char>, VaultError>(text)
}

/// The name of the vault's directory, as it follows the base directory.
pub open spec fn data_dir_suffix() -> Seq<char> {
    "\\com.tauth.app"@
}

/// The name of the file that holds the blob.
pub open spec fn container_file_name() -> Seq<char> {
    "container.encrypted"@
}

/// `Aes256Gcm::encrypt` of the `aes-gcm` crate, with the cipher made by
/// `Aes256Gcm::new` from the key. It refuses a plaintext of more than 2^36
/// bytes and nothing else. Its result is the ciphertext, as long as the
/// plaintext, followed by the 16-byte tag, and `Aes256Gcm::decrypt` under the
/// same key and nonce gives the plaintext back for it.
#[verifier::external_body]
fn aead_seal(key: &[u8], nonce: &[u8], plaintext: &[u8]) -> (sealed: Option<Vec<u8>>)
    requires
        key@.len() == KEY_LEN,
        nonce@.len() == NONCE_LEN,
    ensures
        sealed is Some <==> plaintext@.len() <= MAX_PLAINTEXT_LEN,
        sealed matches Some(bytes) ==> {
            &&& bytes@ == aes256_gcm_seal(key@, nonce@, plaintext@)
            &&& bytes@.len() == plaintext@.len() + TAG_LEN
            &&& aes256_gcm_open(key@, nonce@, bytes@) == Some(plaintext@)
        },
{
    let cipher = Aes256Gcm::new(Key::<Aes256Gcm>::from_slice(key));
    cipher.encrypt(Nonce::from_slice(nonce), plaintext).ok()
}

/// `Aes256Gcm::decrypt` of the `aes-gcm` crate, with the cipher made by
/// `Aes256Gcm::new` from the key: the plaintext, or nothing where the tag
/// does not match the message.
#[verifier::external_body]
fn aead_open(key: &[u8], nonce: &[u8], sealed: &[u8]) -> (plaintext: Option<Vec<u8>>)
    requires
        key@.len() == KEY_LEN,
        nonce@.len() == NONCE_LEN,
    ensures
        plaintext matches Some(bytes) ==> aes256_gcm_open(key@, nonce@, sealed@) == Some(bytes@),
        plaintext is None ==> aes256_gcm_open(key@, nonce@, sealed@) is None,
{
    let cipher = Aes256Gcm::new(Key::<Aes256Gcm>::from_slice(key));
    cipher.decrypt(Nonce::from_slice(nonce), sealed).ok()
}

/// `Aes256Gcm::generate_nonce` of the `aes-gcm` crate, fed by the operating
/// system's random number generator: twelve bytes, of which nothing else is
/// known.
#[verifier::external_body]
fn fresh_nonce() -> (nonce: Vec<u8>)
    ensures
        nonce@.len() == NONCE_LEN,
{
    Aes256Gcm::generate_nonce(&mut OsRng).to_vec()
}

/// `String::from_utf8` of the standard library: the string whose bytes are
/// the given ones, where these are UTF-8, and nothing where they are not.
#[verifier::external_body]
fn text_of_utf8(bytes: Vec<u8>) -> (text: Option<String>)
    ensures
        text is Some <==> valid_utf8(bytes@),
        text matches Some(s) ==> encode_utf8(s@) == bytes@,
{
    String::from_utf8(bytes).ok()
}

/// Derives the key for a password, given as its bytes.
///
/// A password of fewer than eight bytes is refused. A longer one gives its
/// first 32 bytes; where it has fewer, the filler byte follows them.
pub fn derive_key(password: &[u8]) -> (key: Result<Vec<u8>, VaultError>)
    ensures
        password@.len() < MIN_PASSWORD_LEN ==> (key matches Err(e) && e
            == VaultError::InvalidPassword),
        password@.len() >= MIN_PASSWORD_LEN ==> (key matches Ok(k) && k@ == derived_key(
            password@,
        ) && k@.len() == KEY_LEN),
{
    if password.len() < MIN_PASSWORD_LEN {
        return Err(VaultError::InvalidPassword);
    }
    let mut key: Vec<u8> = Vec::new();
    let mut i: usize = 0;
    while i < KEY_LEN
        invariant
            i <= KEY_LEN,
            key@.len() == i,
            forall|k: int| 0 <= k < i ==> key@[k] == derived_key(password@)[k],
        decreases KEY_LEN - i,
    {
        if i < password.len() {
            key.push(password[i]);
        } else {
            key.push(PAD_BYTE);
        }
        i += 1;
    }
    assert(key@ =~= derived_key(password@));
    Ok(key)
}

/// Seals a plaintext under a key with the nonce given, and puts the nonce in
/// front.
pub fn encrypt_with_nonce(key: &[u8], nonce: &[u8], plaintext: &[u8]) -> (blob: Option<Vec<u8>>)
    requires
        key@.len() == KEY_LEN,
        nonce@.len() == NONCE_LEN,
    ensures
        blob is Some <==> plaintext@.len() <= MAX_PLAINTEXT_LEN,
        blob matches Some(b) ==> {
            &&& b@ == sealed_blob(key@, nonce@, plaintext@)
            &&& is_sealing_of(b@, key@, plaintext@)
            &&& unsealed_blob(key@, b@) == Some(plaintext@)
        },
{
    match aead_seal(key, nonce, plaintext) {
        Some(sealed) => {
            let mut blob: Vec<u8> = Vec::new();
            blob.extend_from_slice(nonce);
            blob.extend_from_slice(sealed.as_slice());
            proof {
                assert(blob@ =~= nonce@ + sealed@);
                assert(blob@.subrange(0, NONCE_LEN as int) =~= nonce@);
                assert(blob@.subrange(NONCE_LEN as int, blob@.len() as int) =~= sealed@);
            }
            Some(blob)
        },
        None => None,
    }
}

/// Opens a blob under a key: splits off the nonce and authenticates the rest.
pub fn decrypt_with_key(key: &[u8], blob: &[u8]) -> (plaintext: Option<Vec<u8>>)
    requires
        key@.len() == KEY_LEN,
    ensures
        plaintext matches Some(bytes) ==> unsealed_blob(key@, blob@) == Some(bytes@),
        plaintext is None ==> unsealed_blob(key@, blob@) is None,
{
    if blob.len() < NONCE_LEN {
        return None;
    }
    let nonce = vstd::slice::slice_subrange(blob, 0, NONCE_LEN);
    let sealed = vstd::slice::slice_subrange(blob, NONCE_LEN, blob.len());
    aead_open(key, nonce, sealed)
}

/// Seals the text under the key with a fresh random nonce, and erases the key
/// and the text, whatever the outcome.
pub fn seal_with_key(key: &mut Vec<u8>, plaintext: &mut SensitiveData) -> (blob: Option<Vec<u8>>)
    requires
        old(key)@.len() == KEY_LEN,
    ensures
        final(key)@.len() == 0,
        final(plaintext).is_wiped(),
        blob is Some <==> encode_utf8(old(plaintext)@).len() <= MAX_PLAINTEXT_LEN,
        blob matches Some(b) ==> {
            &&& is_sealing_of(b@, old(key)@, encode_utf8(old(plaintext)@))
            &&& unsealed_blob(old(key)@, b@) == Some(encode_utf8(old(plaintext)@))
        },
{
    let nonce = fresh_nonce();
    let blob = encrypt_with_nonce(key.as_slice(), nonce.as_slice(), plaintext.expose().as_bytes());
    wipe_bytes(key);
    plaintext.wipe();
    blob
}

/// Opens the blob under the key, and erases the key, whatever the outcome.
/// The text that comes back is the caller's to erase.
pub fn open_with_key(key: &mut Vec<u8>, blob: &[u8]) -> (text: Option<SensitiveData>)
    requires
        old(key)@.len() == KEY_LEN,
    ensures
        final(key)@.len() == 0,
        text matches Some(t) ==> unsealed_blob(old(key)@, blob@) matches Some(bytes) && valid_utf8(
            bytes,
        ) && t@ == decode_utf8(bytes),
        text is None ==> (unsealed_blob(old(key)@, blob@) matches Some(bytes) ==> !valid_utf8(
            bytes,
        )),
{
    let opened = decrypt_with_key(key.as_slice(), blob);
    wipe_bytes(key);
    match opened {
        None => None,
        Some(bytes) => match text_of_utf8(bytes) {
            None => None,
            Some(s) => {
                proof {
                    encode_utf8_decode_utf8(s@);
                }
                Some(SensitiveData::new(s))
            },
        },
    }
}

/// Seals the text under the password's key with a fresh random nonce, and
/// erases the password, the text and the key, whatever the outcome.
pub fn seal(password: &mut SensitiveData, plaintext: &mut SensitiveData) -> (blob: Result<
    Vec<u8>,
    VaultError,
>)
    ensures
        final(password).is_wiped(),
        final(plaintext).is_wiped(),
        blob is Ok <==> encrypt_outcome(old(password)@, old(plaintext)@) is Ok,
        blob matches Ok(b) ==> holds_text(b@, old(password)@, old(plaintext)@),
        blob matches Err(e) ==> encrypt_outcome(old(password)@, old(plaintext)@) == Err::<
            (),
            VaultError,
        >(e),
{
    let derived = derive_key(password.expose().as_bytes());
    password.wipe();
    match derived {
        Err(e) => {
            plaintext.wipe();
            Err(e)
        },
        Ok(mut key) => {
            proof {
                encode_utf8_decode_utf8(old(plaintext)@);
                encode_utf8_valid_utf8(old(plaintext)@);
            }
            match seal_with_key(&mut key, plaintext) {
                Some(b) => Ok(b),
                None => Err(VaultError::IOFailure),
            }
        },
    }
}

/// Opens the blob under the password's key, and erases the password and the
/// key, whatever the outcome. The text that comes back is the caller's to
/// erase.
pub fn open(password: &mut SensitiveData, blob: &[u8]) -> (text: Result<SensitiveData, VaultError>)
    ensures
        final(password).is_wiped(),
        text matches Ok(t) ==> decrypted_text(old(password)@, blob@) == Ok::<
            Seq<char>,
            VaultError,
        >(t@),
        text matches Err(e) ==> decrypted_text(old(password)@, blob@) == Err::<
            Seq<char>,
            VaultError,
        >(e),
{
    let derived = derive_key(password.expose().as_bytes());
    password.wipe();
    match derived {
        Err(e) => Err(e),
        Ok(mut key) => match open_with_key(&mut key, blob) {
            Some(text) => Ok(text),
            None => Err(VaultError::AuthenticationFailed),
        },
    }
}

/// Encrypts a text under a password.
///
/// The blob that comes back is a fresh random nonce followed by the sealing
/// of the text's bytes under the password's key, and `decrypt` with the same
/// password gives the text back for it. A password of fewer than eight bytes
/// is refused, and so is a text of more bytes than one sealing takes.
pub fn encrypt(password: String, plaintext: String) -> (blob: Result<Vec<u8>, VaultError>)
    ensures
        blob is Ok <==> encrypt_outcome(password@, plaintext@) is Ok,
        blob matches Ok(b) ==> holds_text(b@, password@, plaintext@),
        blob matches Err(e) ==> encrypt_outcome(password@, plaintext@) == Err::<(), VaultError>(e),
{
    let mut secret = SensitiveData::new(password);
    let mut text = SensitiveData::new(plaintext);
    let blob = seal(&mut secret, &mut text);
    secret.discard();
    text.discard();
    blob
}

/// Decrypts a blob under a password.
///
/// A blob that is shorter than a nonce, does not authenticate under the
/// password's key, or holds a plaintext that is not UTF-8 gives
/// `AuthenticationFailed`, whichever of these it was.
pub fn decrypt(password: String, encrypted_data: Vec<u8>) -> (text: Result<String, VaultError>)
    ensures
        text matches Ok(t) ==> decrypted_text(password@, encrypted_data@) == Ok::<
            Seq<char>,
            VaultError,
        >(t@),
        text matches Err(e) ==> decrypted_text(password@, encrypted_data@) == Err::<
            Seq<char>,
            VaultError,
        >(e),
{
    let mut secret = SensitiveData::new(password);
    let opened = open(&mut secret, encrypted_data.as_slice());
    secret.discard();
    match opened {
        Ok(text) => Ok(text.into_text()),
        Err(e) => Err(e),
    }
}

/// The vault's directory: under the application data directory where the
/// caller found one, else under the current directory.
pub fn get_data_dir(appdata: Option<String>) -> (dir: String)
    ensures
        dir@ == match appdata {
            Some(base) => base@,
            None => "."@,
        } + data_dir_suffix(),
{
    let base = match appdata {
        Some(base) => base,
        None => String::from_str("."),
    };
    base.concat("\\com.tauth.app")
}

/// The path of the file that holds the blob: the file's name behind the
/// vault's directory and the separator of the platform's paths.
pub fn get_container_path(data_dir: &str, separator: &str) -> (path: String)
    ensures
        path@ == data_dir@ + separator@ + container_file_name(),
{
    String::from_str(data_dir).concat(separator).concat("container.encrypted")
}

} // verus!
