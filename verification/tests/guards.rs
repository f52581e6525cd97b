use password_manager::guards::{check_email, AuthKey, Email, NewAuthKey, Vault};
use password_manager::ApiError;

const KEY_HEX: &str = "000102030405060708090a0b0c0d0e0f101112131415161718191a1b1c1d1e1f";

fn key_bytes() -> [u8; 32] {
    let mut b = [0u8; 32];
    for (i, x) in b.iter_mut().enumerate() {
        *x = i as u8;
    }
    b
}

#[test]
fn auth_key_missing_header() {
    assert!(matches!(AuthKey::from_header(None), Err(ApiError::AuthKeyMissing)));
}

#[test]
fn auth_key_lowercase_hex() {
    let k = AuthKey::from_header(Some(KEY_HEX)).ok().unwrap();
    assert_eq!(k.0, key_bytes());
}

#[test]
fn auth_key_uppercase_and_mixed_hex() {
    let upper = KEY_HEX.to_uppercase();
    let k = AuthKey::from_header(Some(&upper)).ok().unwrap();
    assert_eq!(k.0, key_bytes());
    let k = AuthKey::from_header(Some("FFfF00000000000000000000000000000000000000000000000000000000aBcD")).ok().unwrap();
    assert_eq!(k.0[0], 0xff);
    assert_eq!(k.0[1], 0xff);
    assert_eq!(k.0[30], 0xab);
    assert_eq!(k.0[31], 0xcd);
}

#[test]
fn auth_key_wrong_length() {
    assert!(matches!(AuthKey::from_header(Some("")), Err(ApiError::AuthKeyInvalid)));
    assert!(matches!(AuthKey::from_header(Some(&KEY_HEX[..62])), Err(ApiError::AuthKeyInvalid)));
    assert!(matches!(AuthKey::from_header(Some(&KEY_HEX[..63])), Err(ApiError::AuthKeyInvalid)));
    let long = format!("{}00", KEY_HEX);
    assert!(matches!(AuthKey::from_header(Some(&long)), Err(ApiError::AuthKeyInvalid)));
}

#[test]
fn auth_key_not_hex() {
    let bad = format!("{}zz", &KEY_HEX[..62]);
    assert!(matches!(AuthKey::from_header(Some(&bad)), Err(ApiError::AuthKeyInvalid)));
    let accented = format!("{}é", &KEY_HEX[..62]);
    assert!(matches!(AuthKey::from_header(Some(&accented)), Err(ApiError::AuthKeyInvalid)));
}

#[test]
fn auth_key_to_hex_is_lowercase_encoding() {
    assert_eq!(AuthKey(key_bytes()).to_hex(), KEY_HEX);
    let upper = KEY_HEX.to_uppercase();
    let k = AuthKey::from_header(Some(&upper)).ok().unwrap();
    assert_eq!(k.to_hex(), KEY_HEX);
    assert_eq!(AuthKey([0xab; 32]).to_hex(), "ab".repeat(32));
}

#[test]
fn new_auth_key_header() {
    assert!(matches!(NewAuthKey::from_header(None), Err(ApiError::AuthKeyMissing)));
    assert!(matches!(NewAuthKey::from_header(Some("12")), Err(ApiError::AuthKeyInvalid)));
    let k = NewAuthKey::from_header(Some(KEY_HEX)).ok().unwrap();
    assert_eq!(k.0, key_bytes());
    assert_eq!(k.to_hex(), KEY_HEX);
}

#[test]
fn key_text_roundtrip_concrete() {
    let k = AuthKey([0x5a; 32]);
    let back = AuthKey::from_header(Some(&k.to_hex())).ok().unwrap();
    assert_eq!(back.0, k.0);
}

#[test]
fn email_missing_header() {
    assert!(matches!(Email::from_header(None), Err(ApiError::EmailMissing)));
}

#[test]
fn email_accepted() {
    let e = Email::from_header(Some("alice@example.com")).ok().unwrap();
    assert_eq!(e.0, "alice@example.com");
    assert!(check_email("first.last@example.org"));
    assert!(check_email("a@."));
    assert!(check_email("@b.c"));
    assert!(check_email("jürgen@bücher.de"));
}

#[test]
fn email_refused() {
    assert!(matches!(Email::from_header(Some("alice.example.com")), Err(ApiError::EmailInvalid)));
    assert!(matches!(Email::from_header(Some("a@b@c.com")), Err(ApiError::EmailInvalid)));
    assert!(matches!(Email::from_header(Some("alice@examplecom")), Err(ApiError::EmailInvalid)));
    assert!(matches!(Email::from_header(Some("alice@mail.example.com")), Err(ApiError::EmailInvalid)));
    assert!(matches!(Email::from_header(Some("")), Err(ApiError::EmailInvalid)));
    assert!(!check_email("@"));
    assert!(!check_email("a.b@c"));
}

#[test]
fn vault_missing_header() {
    assert!(matches!(Vault::from_header(None), Err(ApiError::VaultMissing)));
}

#[test]
fn vault_accepted() {
    let v = Vault::from_header(Some("deadBEEF00")).ok().unwrap();
    assert_eq!(v.0, "deadBEEF00");
    let v = Vault::from_header(Some("")).ok().unwrap();
    assert_eq!(v.0, "");
}

#[test]
fn vault_refused() {
    assert!(matches!(Vault::from_header(Some("abc")), Err(ApiError::VaultInvalid)));
    assert!(matches!(Vault::from_header(Some("zz")), Err(ApiError::VaultInvalid)));
    assert!(matches!(Vault::from_header(Some("0g")), Err(ApiError::VaultInvalid)));
}

#[test]
fn error_messages() {
    assert_eq!(ApiError::AuthKeyMissing.message(), "Authentication key missing");
    assert_eq!(ApiError::AuthKeyInvalid.message(), "Authentication key invalid");
    assert_eq!(ApiError::EmailMissing.message(), "Email missing");
    assert_eq!(ApiError::EmailInvalid.message(), "Email invalid");
    assert_eq!(ApiError::VaultMissing.message(), "Vault missing");
    assert_eq!(ApiError::VaultInvalid.message(), "Vauld invalid");
    assert_eq!(ApiError::DatabaseWrite.message(), "failed to write to Database");
    assert_eq!(ApiError::DatabaseRead.message(), "failed to read to Database");
    assert_eq!(ApiError::InternalError.message(), "Internal Server Error");
    assert_eq!(ApiError::UserExists.message(), "Users already exists in the database");
    assert_eq!(ApiError::UserNoExists.message(), "User does not exist in database");
}
