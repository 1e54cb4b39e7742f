//! The stored password.

use pc_bridge::commands::custom::Platform;
use pc_bridge::credential;
use pc_bridge::credential::{
    credential_path, protected_bytes, save_to_file, stored_text, CredentialDecryptFailed,
    DecryptError, SaveStep,
};

/// Stands in for the protection of the system: the bytes turned around behind a
/// mark.
fn protect(plaintext: &str) -> Vec<u8> {
    let mut bytes = vec![0xD0, 0x9A];
    bytes.extend(plaintext.bytes().rev());
    bytes
}

fn unprotect(bytes: &[u8]) -> Option<Vec<u8>> {
    let rest = bytes.strip_prefix(&[0xD0, 0x9A])?;
    Some(rest.iter().rev().copied().collect())
}

fn encrypt_on(platform: Platform, plaintext: &str) -> Result<String, String> {
    credential::encrypt(platform, plaintext, &Ok(protect(plaintext)))
}

fn decrypt_on(platform: Platform, stored: &str) -> Result<String, DecryptError> {
    let unprotected = protected_bytes(platform, stored)?.and_then(|b| unprotect(&b));
    credential::decrypt(platform, stored, unprotected)
}

const PLATFORMS: [Platform; 2] = [Platform::Windows, Platform::Unix];

#[test]
fn test_empty_roundtrip() {
    for p in PLATFORMS {
        assert_eq!(encrypt_on(p, "").unwrap(), "");
        assert_eq!(decrypt_on(p, "").unwrap(), "");
    }
}

#[test]
fn test_plaintext_passthrough() {
    for p in PLATFORMS {
        assert_eq!(decrypt_on(p, "hello").unwrap(), "hello");
    }
}

#[test]
fn test_dpapi_roundtrip() {
    let secret = "test-value-for-dpapi";
    let encrypted = encrypt_on(Platform::Windows, secret).unwrap();
    assert!(encrypted.starts_with("DPAPI:"));
    assert_ne!(encrypted, secret);

    let decrypted = decrypt_on(Platform::Windows, &encrypted).unwrap();
    assert_eq!(decrypted, secret);
}

#[test]
fn test_dpapi_tampered_fails() {
    let encrypted = encrypt_on(Platform::Windows, "test_password").unwrap();
    let tampered = format!("DPAPI:{}x", encrypted.strip_prefix("DPAPI:").unwrap());
    assert!(decrypt_on(Platform::Windows, &tampered).is_err());
}

#[test]
fn the_stored_form_is_base64() {
    let stored = credential::encrypt(Platform::Windows, "x", &Ok(vec![0xFB, 0xFF, 0x00, 0x41]));
    assert_eq!(stored.unwrap(), "DPAPI:+/8AQQ==");
}

#[test]
fn a_password_that_cannot_be_protected_is_not_stored() {
    let failed = Err("no key".to_string());
    assert_eq!(
        credential::encrypt(Platform::Windows, "x", &failed).unwrap_err(),
        "DPAPI encrypt failed (refusing to store plaintext): no key"
    );
    assert_eq!(credential::encrypt(Platform::Unix, "x", &failed).unwrap(), "x");
}

#[test]
fn each_unreadable_credential_has_its_message() {
    let e = decrypt_on(Platform::Windows, "DPAPI:*").unwrap_err();
    assert!(e.message.starts_with("Invalid base64 in DPAPI credential: "));
    let e = credential::decrypt(Platform::Windows, "DPAPI:QQ==", None).unwrap_err();
    assert!(e.message.starts_with("DPAPI decryption failed"));
    let e = credential::decrypt(Platform::Windows, "DPAPI:QQ==", Some(vec![0xFF])).unwrap_err();
    assert!(e
        .message
        .starts_with("Decrypted credential is not valid UTF-8: "));
    assert_eq!(
        CredentialDecryptFailed.message(),
        "MQTT credential decryption failed"
    );
}

#[test]
fn the_prefix_means_nothing_elsewhere() {
    assert_eq!(decrypt_on(Platform::Unix, "DPAPI:*").unwrap(), "DPAPI:*");
}

#[test]
fn an_empty_password_removes_the_file() {
    let none = Ok(Vec::new());
    assert!(matches!(
        save_to_file(Platform::Unix, "", &none),
        Ok(SaveStep::Remove)
    ));
    assert!(matches!(
        save_to_file(Platform::Unix, "pw", &none),
        Ok(SaveStep::Write(s)) if s == "pw"
    ));
    assert!(save_to_file(Platform::Windows, "pw", &Err("e".to_string())).is_err());
}

#[test]
fn white_space_counts_outside_windows() {
    assert_eq!(stored_text(Platform::Windows, Some(" DPAPI:QQ== \r\n")), "DPAPI:QQ==");
    assert_eq!(stored_text(Platform::Unix, Some(" pass word \r\n\n")), " pass word ");
    assert_eq!(stored_text(Platform::Unix, None), "");
}

#[test]
fn the_credential_lies_beside_the_configuration() {
    assert_eq!(
        credential_path("/home/me/.config/pc-bridge/userConfig.json"),
        "/home/me/.config/pc-bridge/mqtt_credential"
    );
    assert_eq!(
        credential_path("C:\\Apps\\userConfig.json"),
        "C:\\Apps\\mqtt_credential"
    );
    assert_eq!(credential_path("userConfig.json"), "mqtt_credential");
}
