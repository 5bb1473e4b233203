//! Tests for credential encryption and the canonical JSON form, checked
//! against the real cipher, key derivation and base64 crates.

use base64::Engine;
use nexashell::encryption::{EncryptionManager, SensitiveData};

#[test]
fn test_sensitive_data_serialization() {
    let data = nexashell::keychain::SensitiveData {
        password: Some("test123".to_string()),
        key_passphrase: Some("passphrase".to_string()),
    };

    let json = data.to_json();
    assert!(json.contains("password"));
    assert!(json.contains("keyPassphrase")); // camelCase member name
}

#[test]
fn canonical_json_is_exact() {
    let d = SensitiveData {
        password: Some("hunter2".to_string()),
        key_passphrase: None,
    };
    assert_eq!(d.to_json(), "{\"password\":\"hunter2\",\"keyPassphrase\":null}");
    let e = SensitiveData { password: None, key_passphrase: None };
    assert_eq!(e.to_json(), "{\"password\":null,\"keyPassphrase\":null}");
}

#[test]
fn json_escaping_agrees_with_a_json_parser() {
    let d = SensitiveData {
        password: Some("a\"b\\c\nd\te\u{1}f".to_string()),
        key_passphrase: Some("päss\r".to_string()),
    };
    let json = d.to_json();
    let v: serde_json::Value = serde_json::from_str(&json).expect("well-formed JSON");
    assert_eq!(v["password"].as_str(), Some("a\"b\\c\nd\te\u{1}f"));
    assert_eq!(v["keyPassphrase"].as_str(), Some("päss\r"));
}

#[test]
fn json_round_trip_recovers_the_record() {
    let cases = vec![
        (Some("plain".to_string()), Some("words".to_string())),
        (Some("quotes \" and \\ slashes".to_string()), None),
        (None, Some("line\nbreak and \u{8} control \u{1f}".to_string())),
        (None, None),
        (Some(String::new()), Some("null".to_string())),
    ];
    for (password, key_passphrase) in cases {
        let d = SensitiveData {
            password: password.clone(),
            key_passphrase: key_passphrase.clone(),
        };
        let parsed = SensitiveData::from_json(&d.to_json()).expect("canonical text parses");
        assert_eq!(parsed.password, password);
        assert_eq!(parsed.key_passphrase, key_passphrase);
    }
}

#[test]
fn from_json_rejects_non_canonical_text() {
    assert!(SensitiveData::from_json("{}").is_none());
    assert!(SensitiveData::from_json("").is_none());
    assert!(SensitiveData::from_json("{\"password\":null}").is_none());
    assert!(
        SensitiveData::from_json("{\"keyPassphrase\":null,\"password\":null}").is_none()
    );
}

#[test]
fn encrypt_then_decrypt_recovers_the_record() {
    let d = SensitiveData {
        password: Some("correct horse".to_string()),
        key_passphrase: Some("battery staple".to_string()),
    };
    let sealed = EncryptionManager::encrypt_with_key(&d, "export-key").unwrap();
    let opened = EncryptionManager::decrypt_with_key(&sealed, "export-key").unwrap();
    assert_eq!(opened, d);
}

#[test]
fn machine_key_encrypt_round_trips() {
    let d = SensitiveData {
        password: None,
        key_passphrase: Some("only a passphrase".to_string()),
    };
    let sealed = EncryptionManager::encrypt(&d).unwrap();
    let opened = EncryptionManager::decrypt(&sealed).unwrap();
    assert_eq!(opened, d);
}

#[test]
fn two_encryptions_differ_but_both_open() {
    // a fresh salt and nonce are drawn per call
    let d = SensitiveData { password: Some("x".to_string()), key_passphrase: None };
    let a = EncryptionManager::encrypt_with_key(&d, "k").unwrap();
    let b = EncryptionManager::encrypt_with_key(&d, "k").unwrap();
    assert_ne!(a, b);
    assert_eq!(EncryptionManager::decrypt_with_key(&a, "k").unwrap(), d);
    assert_eq!(EncryptionManager::decrypt_with_key(&b, "k").unwrap(), d);
}

#[test]
fn package_shape_is_salt_nonce_ciphertext_in_base64() {
    let d = SensitiveData { password: None, key_passphrase: None };
    let sealed = EncryptionManager::encrypt_with_key(&d, "k").unwrap();
    let raw = base64::engine::general_purpose::STANDARD
        .decode(&sealed)
        .expect("output is valid standard base64");
    // 16 salt + 12 nonce + json + 16-byte GCM tag
    assert_eq!(raw.len(), 16 + 12 + d.to_json().len() + 16);
}

#[test]
fn wrong_key_is_rejected() {
    let d = SensitiveData { password: Some("secret".to_string()), key_passphrase: None };
    let sealed = EncryptionManager::encrypt_with_key(&d, "right").unwrap();
    let e = EncryptionManager::decrypt_with_key(&sealed, "wrong").unwrap_err();
    assert!(e.starts_with("Decryption failed (possibly wrong key): "));
}

#[test]
fn malformed_inputs_name_the_failing_stage() {
    let e = EncryptionManager::decrypt_with_key("@@not base64@@", "k").unwrap_err();
    assert!(e.starts_with("Invalid base64: "));
    // "QUJD" decodes to three bytes, far below salt + nonce
    let e = EncryptionManager::decrypt_with_key("QUJD", "k").unwrap_err();
    assert_eq!(e, "Invalid encrypted data format");
}
