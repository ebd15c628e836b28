use tauth::error::VaultError;
use tauth::json::Json;
use tauth::record::CredentialRecord;
use tauth::repository::{
    add_credential, add_credential_as, change_password, export_credentials, get_credentials,
    load, login, register, remove_credentials, resolve_twofactor, store, update_credential,
};
use tauth::vault::{decrypt, encrypt};

fn text(s: &str) -> Json {
    Json::Text(s.to_string())
}

fn fields(pairs: Vec<(&str, Json)>) -> Vec<(String, Json)> {
    pairs.into_iter().map(|(k, v)| (k.to_string(), v)).collect()
}

fn login_fields() -> Vec<(String, Json)> {
    fields(vec![("password", text("hunter2")), ("username", text("alice"))])
}

fn record(uid: &str, kind: &str, credential: Vec<(String, Json)>) -> CredentialRecord {
    CredentialRecord { uid: uid.to_string(), kind: kind.to_string(), credential }
}

fn add_as(
    password: &str,
    blob: &[u8],
    uid: &str,
    kind: &str,
    credential: Vec<(String, Json)>,
) -> (CredentialRecord, Vec<u8>) {
    add_credential_as(password, blob, uid.to_string(), kind, credential).unwrap()
}

fn vault_with(password: &str, records: Vec<(&str, &str, Vec<(String, Json)>)>) -> Vec<u8> {
    let mut blob = register(password).unwrap();
    for (uid, kind, credential) in records {
        blob = add_as(password, &blob, uid, kind, credential).1;
    }
    blob
}

#[test]
fn register_seals_the_empty_list() {
    let blob = register("password").unwrap();
    assert_eq!(blob.len(), 12 + 2 + 16);
    assert_eq!(decrypt("password".to_string(), blob.clone()), Ok("[]".to_string()));
    assert_eq!(export_credentials("password", &blob), Ok(Vec::new()));
    assert_eq!(get_credentials("password", &blob), Ok(Vec::new()));
}

#[test]
fn register_refuses_a_short_password() {
    assert_eq!(register("1234567"), Err(VaultError::InvalidPassword));
    assert!(register("12345678").is_ok());
}

#[test]
fn login_opens_with_the_right_password_only() {
    let blob = register("password").unwrap();
    assert!(login("password", &blob));
    assert!(!login("passwort", &blob));
    assert!(!login("short", &blob));
    assert!(!login("", &blob));
}

#[test]
fn login_fails_without_a_blob() {
    assert!(!login("password", &[]));
    assert!(!login("password", &[0u8; 11]));
    assert!(!login("password", &[0u8; 64]));
}

#[test]
fn login_fails_on_a_text_that_is_no_container() {
    let no_containers =
        ["", "null", "{}", "42", "[1]", "[{}]", r#"[{"uid":"u","type":"t"}]"#, "[", "[]]"];
    for held in no_containers {
        let blob = encrypt("password".to_string(), held.to_string()).unwrap();
        assert!(!login("password", &blob), "{held}");
        assert_eq!(load("password", &blob).err(), Some(VaultError::Corrupted), "{held}");
    }
    let one = r#"{"uid":"u","type":"t","credential":{}}"#;
    let twice = format!("[{one},{one}]");
    let blob = encrypt("password".to_string(), twice).unwrap();
    assert!(!login("password", &blob));
}

#[test]
fn login_opens_a_container_written_by_hand() {
    let held = r#" [ { "uid" : "u-1", "credential" : { "username" : "alice" },
                      "type" : "login", "extra" : 1 } ] "#;
    let blob = encrypt("password".to_string(), held.to_string()).unwrap();
    assert!(login("password", &blob));
    assert_eq!(
        export_credentials("password", &blob),
        Ok(vec![record("u-1", "login", fields(vec![("username", text("alice"))]))])
    );
}

#[test]
fn add_credential_gives_a_fresh_identifier() {
    let mut blob = register("password").unwrap();
    let mut seen: Vec<String> = Vec::new();
    for _ in 0..20 {
        let before = export_credentials("password", &blob).unwrap();
        let (added, next) = add_credential("password", &blob, "login", login_fields()).unwrap();
        assert_eq!(added.uid.len(), 36);
        assert!(before.iter().all(|r| r.uid != added.uid));
        assert!(!seen.contains(&added.uid));
        assert_eq!(added.kind, "login");
        assert_eq!(added.credential, login_fields());
        seen.push(added.uid);
        blob = next;
    }
    let stored = export_credentials("password", &blob).unwrap();
    let uids: Vec<String> = stored.into_iter().map(|r| r.uid).collect();
    assert_eq!(uids, seen);
}

#[test]
fn add_credential_is_listed_with_a_flag_for_the_secret() {
    let blob = register("password").unwrap();
    let payload =
        fields(vec![("twoFactor", text("JBSWY3DPEHPK3PXP")), ("username", text("alice"))]);
    let (added, blob) = add_credential("password", &blob, "login", payload.clone()).unwrap();
    assert_eq!(added.credential, payload);
    let listing = get_credentials("password", &blob).unwrap();
    assert_eq!(
        listing,
        vec![record(
            &added.uid,
            "login",
            fields(vec![("username", text("alice")), ("twoFactor", Json::Bool(true))])
        )]
    );
    let note = fields(vec![("body", text("x"))]);
    let (plain, blob) = add_credential("password", &blob, "note", note).unwrap();
    let listing = get_credentials("password", &blob).unwrap();
    assert_eq!(listing.len(), 2);
    assert_eq!(
        listing[1],
        record(
            &plain.uid,
            "note",
            fields(vec![("body", text("x")), ("twoFactor", Json::Bool(false))])
        )
    );
    for shown in &listing {
        for (name, value) in &shown.credential {
            if name == "twoFactor" {
                assert!(matches!(value, Json::Bool(_)));
            }
            assert_ne!(value, &text("JBSWY3DPEHPK3PXP"));
        }
    }
}

#[test]
fn add_credential_settles_the_fields() {
    let blob = register("password").unwrap();
    let payload = fields(vec![("username", text("alice")), ("password", text("hunter2"))]);
    let (added, blob) = add_as("password", &blob, "u-1", "login", payload);
    assert_eq!(added, record("u-1", "login", login_fields()));
    assert_eq!(
        export_credentials("password", &blob),
        Ok(vec![record("u-1", "login", login_fields())])
    );
}

#[test]
fn add_credential_as_moves_off_a_taken_identifier() {
    let blob = vault_with("password", vec![("u-1", "a", Vec::new())]);
    let (added, blob) = add_as("password", &blob, "u-1", "b", Vec::new());
    assert_eq!(added.uid, "u-10");
    assert_eq!(
        export_credentials("password", &blob),
        Ok(vec![record("u-1", "a", Vec::new()), record("u-10", "b", Vec::new())])
    );
}

#[test]
fn add_credential_needs_the_right_password() {
    let blob = register("password").unwrap();
    assert_eq!(
        add_credential("passwort", &blob, "login", login_fields()).err(),
        Some(VaultError::AuthenticationFailed)
    );
    assert_eq!(
        add_credential("password", &[], "login", login_fields()).err(),
        Some(VaultError::AuthenticationFailed)
    );
    let broken = encrypt("password".to_string(), "{}".to_string()).unwrap();
    assert_eq!(
        add_credential("password", &broken, "login", login_fields()).err(),
        Some(VaultError::Corrupted)
    );
}

#[test]
fn additions_in_turn_are_both_kept() {
    let blob = register("password").unwrap();
    let (first, blob) = add_credential("password", &blob, "login", login_fields()).unwrap();
    let (second, blob) = add_credential("password", &blob, "note", Vec::new()).unwrap();
    assert_ne!(first.uid, second.uid);
    assert_eq!(export_credentials("password", &blob), Ok(vec![first, second]));
}

#[test]
fn additions_are_kept_in_either_order() {
    let base = register("password").unwrap();
    let a = fields(vec![("username", text("alice"))]);
    let b = fields(vec![("username", text("bob"))]);

    let (_, blob) = add_as("password", &base, "a", "login", a.clone());
    let (_, a_then_b) = add_as("password", &blob, "b", "login", b.clone());
    let (_, blob) = add_as("password", &base, "b", "login", b.clone());
    let (_, b_then_a) = add_as("password", &blob, "a", "login", a.clone());

    assert_eq!(
        export_credentials("password", &a_then_b),
        Ok(vec![record("a", "login", a.clone()), record("b", "login", b.clone())])
    );
    assert_eq!(
        export_credentials("password", &b_then_a),
        Ok(vec![record("b", "login", b), record("a", "login", a)])
    );
}

#[test]
fn an_addition_to_a_stale_blob_does_not_know_the_other() {
    // Why a caller lets one operation finish before the next reads the blob.
    let base = register("password").unwrap();
    let (_, with_a) = add_as("password", &base, "a", "login", Vec::new());
    let (_, with_b) = add_as("password", &base, "b", "login", Vec::new());
    assert_eq!(
        export_credentials("password", &with_a),
        Ok(vec![record("a", "login", Vec::new())])
    );
    assert_eq!(
        export_credentials("password", &with_b),
        Ok(vec![record("b", "login", Vec::new())])
    );
}

#[test]
fn update_credential_replaces_kind_and_fields() {
    let blob = vault_with(
        "password",
        vec![("u-1", "login", login_fields()), ("u-2", "login", login_fields())],
    );
    let note = fields(vec![("body", text("hi"))]);
    let blob = update_credential("password", &blob, "u-1", "note", note).unwrap();
    assert_eq!(
        export_credentials("password", &blob),
        Ok(vec![
            record("u-1", "note", fields(vec![("body", text("hi"))])),
            record("u-2", "login", login_fields()),
        ])
    );
}

#[test]
fn update_credential_of_an_unknown_identifier_is_not_found() {
    let blob = vault_with("password", vec![("u-1", "login", login_fields())]);
    assert_eq!(
        update_credential("password", &blob, "u-9", "note", Vec::new()),
        Err(VaultError::NotFound)
    );
    assert_eq!(
        update_credential("passwort", &blob, "u-1", "note", Vec::new()),
        Err(VaultError::AuthenticationFailed)
    );
}

#[test]
fn remove_credentials_takes_exactly_one() {
    let blob = vault_with(
        "password",
        vec![("u-1", "a", Vec::new()), ("u-2", "b", Vec::new()), ("u-3", "c", Vec::new())],
    );
    let after = remove_credentials("password", &blob, "u-2").unwrap();
    assert_eq!(export_credentials("password", &blob).unwrap().len(), 3);
    assert_eq!(
        export_credentials("password", &after),
        Ok(vec![record("u-1", "a", Vec::new()), record("u-3", "c", Vec::new())])
    );
}

#[test]
fn remove_credentials_of_an_unknown_identifier_is_not_found() {
    let blob = vault_with("password", vec![("u-1", "a", Vec::new())]);
    assert_eq!(remove_credentials("password", &blob, "u-9"), Err(VaultError::NotFound));
    assert_eq!(remove_credentials("password", &blob, ""), Err(VaultError::NotFound));
    assert_eq!(remove_credentials("passwort", &blob, "u-1"), Err(VaultError::AuthenticationFailed));
    let after = remove_credentials("password", &blob, "u-1").unwrap();
    assert_eq!(remove_credentials("password", &after, "u-1"), Err(VaultError::NotFound));
}

#[test]
fn export_credentials_shows_the_secret_and_listing_does_not() {
    let payload = fields(vec![("twoFactor", text("JBSWY3DPEHPK3PXP"))]);
    let blob = vault_with("password", vec![("u-1", "login", payload.clone())]);
    assert_eq!(export_credentials("password", &blob), Ok(vec![record("u-1", "login", payload)]));
    assert_eq!(
        get_credentials("password", &blob),
        Ok(vec![record("u-1", "login", fields(vec![("twoFactor", Json::Bool(true))]))])
    );
    assert_eq!(export_credentials("passwort", &blob), Err(VaultError::AuthenticationFailed));
    assert_eq!(get_credentials("passwort", &blob), Err(VaultError::AuthenticationFailed));
}

#[test]
fn change_password_moves_the_vault_to_the_new_password() {
    let blob = vault_with("old password", vec![("u-1", "login", login_fields())]);
    let changed = change_password("old password", "new password", &blob).unwrap();
    assert!(login("new password", &changed));
    assert!(!login("old password", &changed));
    assert!(login("old password", &blob));
    assert_eq!(
        export_credentials("new password", &changed),
        export_credentials("old password", &blob)
    );
    assert_eq!(
        decrypt("new password".to_string(), changed),
        decrypt("old password".to_string(), blob)
    );
}

#[test]
fn change_password_needs_the_old_password_and_a_valid_new_one() {
    let blob = register("old password").unwrap();
    assert_eq!(
        change_password("wrong password", "new password", &blob),
        Err(VaultError::AuthenticationFailed)
    );
    assert_eq!(change_password("old password", "short", &blob), Err(VaultError::InvalidPassword));
    let broken = encrypt("old password".to_string(), "{}".to_string()).unwrap();
    assert_eq!(
        change_password("old password", "new password", &broken),
        Err(VaultError::Corrupted)
    );
}

#[test]
fn change_password_to_the_padded_form_keeps_the_old_one_valid() {
    let blob = register("password").unwrap();
    let changed = change_password("password", "password!", &blob).unwrap();
    assert!(login("password!", &changed));
    assert!(login("password", &changed));
}

#[test]
fn resolve_twofactor_gives_the_code_of_the_time() {
    let blob = vault_with(
        "password",
        vec![
            ("u-1", "login", fields(vec![("twoFactor", text("JBSWY3DPEHPK3PXP"))])),
            ("u-2", "login", fields(vec![("twoFactor", text("GEZDGNBVGY3TQOJQGEZDGNBVGY3TQOJQ"))])),
        ],
    );
    assert_eq!(resolve_twofactor("password", &blob, "u-1", 0), Ok("282760".to_string()));
    assert_eq!(resolve_twofactor("password", &blob, "u-1", 59), Ok("996554".to_string()));
    assert_eq!(resolve_twofactor("password", &blob, "u-1", 1234567890), Ok("742275".to_string()));
    assert_eq!(resolve_twofactor("password", &blob, "u-2", 59), Ok("287082".to_string()));
    assert_eq!(resolve_twofactor("password", &blob, "u-2", 1111111109), Ok("081804".to_string()));
}

#[test]
fn resolve_twofactor_refuses_a_missing_or_bad_secret() {
    let blob = vault_with(
        "password",
        vec![
            ("none", "login", login_fields()),
            ("empty", "login", fields(vec![("twoFactor", text(""))])),
            ("flag", "login", fields(vec![("twoFactor", Json::Bool(true))])),
            ("bad", "login", fields(vec![("twoFactor", text("not base32!"))])),
            ("odd", "login", fields(vec![("twoFactor", text("JBSWY3DPEHPK3PXPA"))])),
        ],
    );
    for uid in ["none", "empty", "flag", "bad", "odd"] {
        assert_eq!(
            resolve_twofactor("password", &blob, uid, 59),
            Err(VaultError::ValidationFailed),
            "{uid}"
        );
    }
    assert_eq!(resolve_twofactor("password", &blob, "absent", 59), Err(VaultError::NotFound));
    assert_eq!(
        resolve_twofactor("passwort", &blob, "none", 59),
        Err(VaultError::AuthenticationFailed)
    );
}

#[test]
fn load_and_store_keep_the_container() {
    let blob = vault_with("password", vec![("u-1", "login", login_fields())]);
    let container = load("password", &blob).ok().unwrap();
    assert_eq!(container.len(), 1);
    let again = store("password", &container).unwrap();
    assert_ne!(again, blob);
    assert!(load("password", &again).ok().unwrap().same(&container));
    assert_eq!(store("short", &container), Err(VaultError::InvalidPassword));
}

#[test]
fn store_refuses_fields_that_do_not_read_back() {
    let mut container = load("password", &register("password").unwrap()).ok().unwrap();
    container.add(
        "u-1".to_string(),
        "login".to_string(),
        fields(vec![("username", text("alice")), ("password", text("hunter2"))]),
    );
    assert_eq!(store("password", &container), Err(VaultError::Corrupted));
}
