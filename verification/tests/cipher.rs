use tauth::driver;
use tauth::error::VaultError;
use tauth::sensitive::SensitiveData;
use tauth::vault::{
    decrypt, decrypt_with_key, derive_key, encrypt, encrypt_with_nonce, get_container_path,
    get_data_dir, open, open_with_key, seal, seal_with_key, KEY_LEN, MIN_PASSWORD_LEN, NONCE_LEN,
    PAD_BYTE, TAG_LEN,
};

fn hex(bytes: &[u8]) -> String {
    let mut out = String::new();
    for b in bytes {
        out.push_str(&format!("{:02x}", b));
    }
    out
}

fn counting_nonce() -> Vec<u8> {
    (0u8..12).collect()
}

#[test]
fn derive_key_pads_a_short_password() {
    let key = derive_key(b"password").unwrap();
    let mut expected = b"password".to_vec();
    expected.extend_from_slice(&[0x21; 24]);
    assert_eq!(key, expected);
    assert_eq!(key.len(), KEY_LEN);
    assert_eq!(PAD_BYTE, b'!');
}

#[test]
fn derive_key_keeps_a_password_of_key_length() {
    let password = b"0123456789abcdef0123456789abcdef";
    assert_eq!(derive_key(password).unwrap(), password.to_vec());
}

#[test]
fn derive_key_cuts_a_long_password() {
    let password = b"0123456789abcdef0123456789abcdefTHIS-IS-CUT-OFF";
    assert_eq!(derive_key(password).unwrap(), b"0123456789abcdef0123456789abcdef".to_vec());
}

#[test]
fn derive_key_refuses_a_password_below_the_minimum() {
    assert_eq!(MIN_PASSWORD_LEN, 8);
    assert_eq!(derive_key(b"1234567"), Err(VaultError::InvalidPassword));
    assert_eq!(derive_key(b""), Err(VaultError::InvalidPassword));
    assert!(derive_key(b"12345678").is_ok());
}

#[test]
fn derive_key_counts_bytes_not_characters() {
    // Four characters of two bytes each make eight bytes.
    let key = derive_key("éééé".as_bytes()).unwrap();
    assert_eq!(&key[..8], "éééé".as_bytes());
    assert_eq!(&key[8..], &[0x21; 24]);
}

#[test]
fn encrypt_with_nonce_gives_the_known_sealing() {
    let key = derive_key(b"password").unwrap();
    let blob = encrypt_with_nonce(&key, &counting_nonce(), b"hello vault").unwrap();
    assert_eq!(
        hex(&blob),
        "000102030405060708090a0b59eb7be95b8433683959e6e2dc24900dedc79a7f0a6343c0ddc766"
    );
    let blob = encrypt_with_nonce(&key, &counting_nonce(), b"[]").unwrap();
    assert_eq!(hex(&blob), "000102030405060708090a0b6ad356615276f00a8621f7da4a8a5ea19d3c");
    let blob = encrypt_with_nonce(&key, &counting_nonce(), b"").unwrap();
    assert_eq!(hex(&blob), "000102030405060708090a0be49f2903311efc8c2d9a1c89198835c5");
}

#[test]
fn decrypt_with_key_opens_the_known_sealing() {
    let key = derive_key(b"password").unwrap();
    let mut blob = counting_nonce();
    blob.extend_from_slice(&[
        0x59, 0xeb, 0x7b, 0xe9, 0x5b, 0x84, 0x33, 0x68, 0x39, 0x59, 0xe6, 0xe2, 0xdc, 0x24, 0x90,
        0x0d, 0xed, 0xc7, 0x9a, 0x7f, 0x0a, 0x63, 0x43, 0xc0, 0xdd, 0xc7, 0x66,
    ]);
    assert_eq!(decrypt_with_key(&key, &blob), Some(b"hello vault".to_vec()));
    assert_eq!(decrypt("password".to_string(), blob), Ok("hello vault".to_string()));
}

#[test]
fn decrypt_with_key_refuses_what_is_shorter_than_a_nonce() {
    let key = derive_key(b"password").unwrap();
    assert_eq!(decrypt_with_key(&key, &[]), None);
    assert_eq!(decrypt_with_key(&key, &[0u8; 11]), None);
    // A nonce alone, or a nonce and less than a tag, does not authenticate.
    assert_eq!(decrypt_with_key(&key, &[0u8; 12]), None);
    assert_eq!(decrypt_with_key(&key, &[0u8; 27]), None);
}

#[test]
fn decrypt_inverts_encrypt() {
    let texts = ["", "[]", "hello vault", "päßwörter und 秘密 🔐", "a\u{0}b\nc\t\"quoted\""];
    let passwords = [
        "password",
        "correct horse battery staple and more",
        "éééé",
        "0123456789abcdef0123456789abcdef",
    ];
    for password in passwords {
        for text in texts {
            let blob = encrypt(password.to_string(), text.to_string()).unwrap();
            assert_eq!(blob.len(), NONCE_LEN + text.len() + TAG_LEN);
            assert_eq!(decrypt(password.to_string(), blob), Ok(text.to_string()));
        }
    }
}

#[test]
fn encrypt_hides_the_text() {
    let text = "a secret that must not be seen in the blob";
    let blob = encrypt("password".to_string(), text.to_string()).unwrap();
    let sealed = &blob[NONCE_LEN..];
    assert_ne!(&sealed[..text.len()], text.as_bytes());
    assert!(!blob.windows(6).any(|w| w == b"secret"));
}

#[test]
fn encrypt_refuses_a_short_password() {
    assert_eq!(encrypt("short".to_string(), "text".to_string()), Err(VaultError::InvalidPassword));
    assert_eq!(decrypt("short".to_string(), vec![0u8; 40]), Err(VaultError::InvalidPassword));
}

#[test]
fn decrypt_with_a_wrong_password_fails_to_authenticate() {
    let blob = encrypt("password".to_string(), "hello vault".to_string()).unwrap();
    for wrong in ["passwore", "PASSWORD", "password-and-more", "wrong password"] {
        assert_eq!(
            decrypt(wrong.to_string(), blob.clone()),
            Err(VaultError::AuthenticationFailed),
            "{wrong}"
        );
    }
}

#[test]
fn decrypt_of_a_blob_with_one_bit_flipped_fails_to_authenticate() {
    let blob = encrypt("password".to_string(), "hello vault".to_string()).unwrap();
    for at in 0..blob.len() {
        for bit in 0..8 {
            let mut damaged = blob.clone();
            damaged[at] ^= 1 << bit;
            assert_eq!(
                decrypt("password".to_string(), damaged),
                Err(VaultError::AuthenticationFailed),
                "byte {at}, bit {bit}"
            );
        }
    }
}

#[test]
fn decrypt_of_a_cut_blob_fails_to_authenticate() {
    let blob = encrypt("password".to_string(), "hello vault".to_string()).unwrap();
    for len in 0..blob.len() {
        assert_eq!(
            decrypt("password".to_string(), blob[..len].to_vec()),
            Err(VaultError::AuthenticationFailed)
        );
    }
}

#[test]
fn decrypt_of_a_plaintext_that_is_not_utf8_fails_to_authenticate() {
    let key = derive_key(b"password").unwrap();
    let blob = encrypt_with_nonce(&key, &counting_nonce(), &[0xff, 0xfe, 0x80]).unwrap();
    assert_eq!(decrypt_with_key(&key, &blob), Some(vec![0xff, 0xfe, 0x80]));
    assert_eq!(decrypt("password".to_string(), blob), Err(VaultError::AuthenticationFailed));
}

#[test]
fn two_encryptions_differ_in_nonce_and_in_ciphertext() {
    let mut nonces = Vec::new();
    for _ in 0..64 {
        let blob = encrypt("password".to_string(), "hello vault".to_string()).unwrap();
        let nonce = blob[..NONCE_LEN].to_vec();
        let sealed = blob[NONCE_LEN..].to_vec();
        for (other_nonce, other_sealed) in &nonces {
            assert_ne!(&nonce, other_nonce);
            assert_ne!(&sealed, other_sealed);
        }
        nonces.push((nonce, sealed));
    }
}

#[test]
fn a_password_and_its_padded_form_give_the_same_key() {
    assert_eq!(derive_key(b"password"), derive_key(b"password!"));
    let blob = encrypt("password".to_string(), "hello vault".to_string()).unwrap();
    assert_eq!(decrypt("password!!".to_string(), blob), Ok("hello vault".to_string()));
}

#[test]
fn seal_and_open_wipe_what_they_are_given() {
    let mut password = SensitiveData::new("password".to_string());
    let mut text = SensitiveData::new("hello vault".to_string());
    let blob = seal(&mut password, &mut text).unwrap();
    assert_eq!(password.expose(), "");
    assert_eq!(text.expose(), "");

    let mut password = SensitiveData::new("password".to_string());
    let mut opened = open(&mut password, &blob).unwrap();
    assert_eq!(password.expose(), "");
    assert_eq!(opened.expose(), "hello vault");
    opened.wipe();
    assert_eq!(opened.expose(), "");

    let mut wrong = SensitiveData::new("wrong password".to_string());
    assert!(matches!(open(&mut wrong, &blob), Err(VaultError::AuthenticationFailed)));
    assert_eq!(wrong.expose(), "");

    let mut short = SensitiveData::new("short".to_string());
    let mut text = SensitiveData::new("hello vault".to_string());
    assert_eq!(seal(&mut short, &mut text), Err(VaultError::InvalidPassword));
    assert_eq!(short.expose(), "");
    assert_eq!(text.expose(), "");
}

#[test]
fn seal_and_open_with_key_wipe_the_key() {
    let mut key = derive_key(b"password").unwrap();
    let mut text = SensitiveData::new("hello vault".to_string());
    let blob = seal_with_key(&mut key, &mut text).unwrap();
    assert!(key.is_empty());
    assert_eq!(text.expose(), "");
    assert_eq!(blob.len(), NONCE_LEN + 11 + TAG_LEN);

    let mut key = derive_key(b"password").unwrap();
    let opened = open_with_key(&mut key, &blob).unwrap();
    assert!(key.is_empty());
    assert_eq!(opened.expose(), "hello vault");

    let mut wrong = derive_key(b"passwort").unwrap();
    assert!(open_with_key(&mut wrong, &blob).is_none());
    assert!(wrong.is_empty());
}

#[test]
fn sensitive_data_holds_and_gives_up_its_text() {
    let data = SensitiveData::new("s3cret".to_string());
    assert_eq!(data.expose(), "s3cret");
    assert_eq!(data.into_text(), "s3cret".to_string());
}

#[test]
fn strict_cipher_agrees_with_the_checked_one() {
    let blob = driver::vault::encrypt("password".to_string(), "hello vault".to_string());
    assert_eq!(blob.len(), NONCE_LEN + 11 + TAG_LEN);
    assert_eq!(decrypt("password".to_string(), blob.clone()), Ok("hello vault".to_string()));
    assert_eq!(
        driver::vault::decrypt("password".to_string(), blob.clone()),
        Ok("hello vault".to_string())
    );
    assert_eq!(
        driver::vault::decrypt("passwords".to_string(), blob.clone()),
        Err(VaultError::AuthenticationFailed)
    );
    assert_eq!(
        driver::vault::decrypt("short".to_string(), blob.clone()),
        Err(VaultError::InvalidPassword)
    );
    assert_eq!(
        driver::vault::decrypt("password".to_string(), blob[..11].to_vec()),
        Err(VaultError::AuthenticationFailed)
    );
    assert_eq!(
        driver::vault::decrypt("password".to_string(), Vec::new()),
        Err(VaultError::AuthenticationFailed)
    );
    let long = "0123456789abcdef0123456789abcdef and more";
    let blob = driver::vault::encrypt(long.to_string(), "hello vault".to_string());
    assert_eq!(driver::vault::decrypt(long.to_string(), blob), Ok("hello vault".to_string()));
}

#[test]
fn data_dir_follows_the_base_directory() {
    assert_eq!(
        get_data_dir(Some("C:\\Users\\me\\AppData\\Roaming".to_string())),
        "C:\\Users\\me\\AppData\\Roaming\\com.tauth.app"
    );
    assert_eq!(get_data_dir(None), ".\\com.tauth.app");
}

#[test]
fn container_path_names_the_blob_file() {
    assert_eq!(
        get_container_path(".\\com.tauth.app", "\\"),
        ".\\com.tauth.app\\container.encrypted"
    );
    assert_eq!(get_container_path("/var/lib/tauth", "/"), "/var/lib/tauth/container.encrypted");
}

#[test]
fn error_messages_name_each_kind() {
    let all = [
        VaultError::InvalidPassword,
        VaultError::AuthenticationFailed,
        VaultError::NotFound,
        VaultError::Corrupted,
        VaultError::ValidationFailed,
        VaultError::IOFailure,
    ];
    let messages: Vec<String> = all.iter().map(|e| e.message()).collect();
    assert_eq!(messages[0], "Password must be at least 8 characters long.");
    assert_eq!(messages[1], "Authentication failed. Invalid password.");
    assert_eq!(messages[2], "Credential not found.");
    assert_eq!(messages[3], "Corrupted data: expected an array container.");
    assert_eq!(messages[4], "Invalid two-factor secret.");
    assert_eq!(messages[5], "Failed to store the vault.");
}
