use aes_gcm::aead::{Aead, KeyInit};
use base64::Engine;
use switchboard::vault::{Vault, VaultError};

#[test]
fn seal_roundtrip() {
    let v = Vault::from_key([7u8; 32]);
    let sealed = v.seal("hunter2").unwrap();
    assert_ne!(sealed, "hunter2");
    assert_eq!(v.open(&sealed).unwrap(), "hunter2");
}

#[test]
fn wrong_key_fails() {
    let a = Vault::from_key([1u8; 32]);
    let b = Vault::from_key([2u8; 32]);
    let sealed = a.seal("secret").unwrap();
    assert!(b.open(&sealed).is_err());
}

#[test]
fn sealed_form_is_nonce_then_ciphertext() {
    let v = Vault::from_key([3u8; 32]);
    let a = v.seal_with_nonce([9u8; 12], "abc").unwrap();
    let b = v.seal_with_nonce([9u8; 12], "abc").unwrap();
    assert_eq!(a, b);
    // 12 nonce bytes + 3 plaintext bytes + 16 tag bytes = 31 bytes -> 44 base64 chars
    assert_eq!(a.len(), 44);
    assert!(a.starts_with("CQkJCQkJCQkJCQkJ"));
    let raw = base64::engine::general_purpose::STANDARD.decode(&a).unwrap();
    assert_eq!(raw.len(), 12 + 3 + 16);
    assert_eq!(&raw[..12], &[9u8; 12]);
    let long = "ünïcode secret";
    let s = v.seal(long).unwrap();
    let raw = base64::engine::general_purpose::STANDARD.decode(&s).unwrap();
    assert_eq!(raw.len(), 12 + long.len() + 16);
    assert_eq!(v.open(&a).unwrap(), "abc");
}

#[test]
fn fresh_nonce_per_seal() {
    let v = Vault::from_key([5u8; 32]);
    assert_ne!(v.seal("same").unwrap(), v.seal("same").unwrap());
}

#[test]
fn unicode_and_empty_roundtrip() {
    let v = Vault::from_key([4u8; 32]);
    for text in ["", "ключ-🔑", "a;b c"] {
        let sealed = v.seal(text).unwrap();
        assert_eq!(v.open(&sealed).unwrap(), text);
    }
}

#[test]
fn open_errors() {
    let v = Vault::from_key([1u8; 32]);
    let report = base64::engine::general_purpose::STANDARD.decode("!!!").unwrap_err().to_string();
    let e = v.open("!!!").unwrap_err();
    assert_eq!(e, VaultError::NotBase64(report.clone()));
    assert_eq!(e.message(), report);
    assert_eq!(v.open("AQIDBA==").unwrap_err(), VaultError::TooShort);
    assert_eq!(v.open("AAAAAAAAAAAAAAAAAAAAAAAAAAAAAAAA").unwrap_err(), VaultError::OpenFailed);
    assert_eq!(VaultError::TooShort.message(), "ciphertext too short");
    assert_eq!(VaultError::OpenFailed.message(), "open failed");
    assert_eq!(VaultError::SealFailed.message(), "seal failed");
}

#[test]
fn opened_bytes_must_be_text() {
    let key = [4u8; 32];
    let cipher = aes_gcm::Aes256Gcm::new(aes_gcm::Key::<aes_gcm::Aes256Gcm>::from_slice(&key));
    let nonce = [5u8; 12];
    let ct = cipher.encrypt(aes_gcm::Nonce::from_slice(&nonce), &[0xffu8, 0x41][..]).unwrap();
    let mut raw = nonce.to_vec();
    raw.extend_from_slice(&ct);
    let sealed = base64::engine::general_purpose::STANDARD.encode(raw);
    let report = String::from_utf8(vec![0xffu8, 0x41]).unwrap_err().to_string();
    let e = Vault::from_key(key).open(&sealed).unwrap_err();
    assert_eq!(e, VaultError::NotText(report.clone()));
    assert_eq!(e.message(), report);
}

#[test]
fn key_file_must_hold_32_bytes() {
    assert_eq!(Vault::key_from_file(&[8u8; 32]), Some([8u8; 32]));
    assert_eq!(Vault::key_from_file(&[8u8; 31]), None);
    assert_eq!(Vault::key_from_file(&[8u8; 33]), None);
    assert_eq!(Vault::key_from_file(&[]), None);
}

#[test]
fn generated_keys_differ() {
    assert_ne!(Vault::new_key(), Vault::new_key());
}
