use tauth::error::VaultError;
use tauth::totp::{generate, CODE_LEN, TIME_STEP};

#[test]
fn generate_gives_the_published_codes() {
    // The test vectors of RFC 6238 for SHA-1, cut to six digits.
    let secret = "GEZDGNBVGY3TQOJQGEZDGNBVGY3TQOJQ";
    assert_eq!(generate(secret, 59), Ok("287082".to_string()));
    assert_eq!(generate(secret, 1111111109), Ok("081804".to_string()));
    assert_eq!(generate(secret, 1111111111), Ok("050471".to_string()));
    assert_eq!(generate(secret, 1234567890), Ok("005924".to_string()));
    assert_eq!(generate(secret, 2000000000), Ok("279037".to_string()));
    assert_eq!(generate(secret, 20000000000), Ok("353130".to_string()));
}

#[test]
fn generate_gives_the_codes_of_the_hello_secret() {
    let secret = "JBSWY3DPEHPK3PXP";
    assert_eq!(generate(secret, 0), Ok("282760".to_string()));
    assert_eq!(generate(secret, 59), Ok("996554".to_string()));
    assert_eq!(generate(secret, 1111111109), Ok("071271".to_string()));
    assert_eq!(generate(secret, 1234567890), Ok("742275".to_string()));
    assert_eq!(generate(secret, 1700000000), Ok("324550".to_string()));
    assert_eq!(generate(secret, 2000000000), Ok("890699".to_string()));
}

#[test]
fn generate_keeps_a_code_for_one_time_step() {
    assert_eq!(TIME_STEP, 30);
    assert_eq!(CODE_LEN, 6);
    let secret = "JBSWY3DPEHPK3PXP";
    for t in 0..30 {
        assert_eq!(generate(secret, t), Ok("282760".to_string()));
    }
    for t in 30..60 {
        assert_eq!(generate(secret, t), Ok("996554".to_string()));
    }
    assert_eq!(generate(secret, u64::MAX).unwrap().len(), 6);
}

#[test]
fn generate_refuses_an_empty_secret() {
    assert_eq!(generate("", 59), Err(VaultError::ValidationFailed));
}

#[test]
fn generate_refuses_a_secret_of_a_length_that_base32_cannot_have() {
    for secret in ["A", "ABC", "ABCDEF", "JBSWY3DPE", "JBSWY3DPEHP", "JBSWY3DPEHPK3P"] {
        assert_eq!(generate(secret, 59), Err(VaultError::ValidationFailed), "{secret}");
    }
}

#[test]
fn generate_takes_a_secret_of_every_length_that_base32_can_have() {
    // One to five bytes of key: two, four, five, seven and eight characters.
    assert_eq!(generate("GE", 59), Ok("711154".to_string()));
    assert_eq!(generate("GEZA", 59), Ok("096091".to_string()));
    assert_eq!(generate("GEZDG", 59), Ok("175298".to_string()));
    assert_eq!(generate("GEZDGNA", 59), Ok("336582".to_string()));
    assert_eq!(generate("GEZDGNBV", 59), Ok("662488".to_string()));
}

#[test]
fn generate_refuses_a_secret_that_is_not_base32() {
    assert_eq!(generate("not base32!", 59), Err(VaultError::ValidationFailed));
    assert_eq!(generate("jbswy3dpehpk3pxp1", 59), Err(VaultError::ValidationFailed));
    assert_eq!(generate("JBSWY3DPEHPK3PX8", 59), Err(VaultError::ValidationFailed));
}
