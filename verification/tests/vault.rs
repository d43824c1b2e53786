use docker_registry_manager::models::{AuthConfig, ConnectionStatus, RegistryConfig};
use docker_registry_manager::storage::{
    decrypt_string, derive_key, encrypt_string, encrypt_string_with_nonce, init_key, StorageError,
    Vault,
};

fn unlocked() -> Vault {
    let mut vault = Vault::new();
    init_key(&mut vault, [7u8; 32]).unwrap();
    vault
}

#[test]
fn decrypt_inverts_encrypt() {
    let vault = unlocked();
    for s in ["secret", "", "p@ss:word with spaces", "ünïcödé €", "x"] {
        let stored = encrypt_string(&vault, s).unwrap();
        assert_eq!(decrypt_string(&vault, &stored), Ok(s.to_string()));
    }
}

#[test]
fn stored_text_is_not_the_secret() {
    let vault = unlocked();
    let stored = encrypt_string(&vault, "secret").unwrap();
    assert_ne!(stored, "secret");
    assert!(!stored.contains("secret"));
    // twelve bytes of nonce, six of secret and sixteen of tag, in base64
    assert_eq!(stored.len(), 48);
}

#[test]
fn empty_secret_encrypts_to_empty_text_without_a_key() {
    let locked = Vault::new();
    assert_eq!(encrypt_string(&locked, ""), Ok(String::new()));
    assert_eq!(decrypt_string(&locked, ""), Ok(String::new()));
    assert_eq!(encrypt_string(&unlocked(), ""), Ok(String::new()));
}

#[test]
fn two_encryptions_of_one_secret_differ() {
    let vault = unlocked();
    let a = encrypt_string(&vault, "secret").unwrap();
    let b = encrypt_string(&vault, "secret").unwrap();
    assert_ne!(a, b);
}

#[test]
fn nonce_decides_the_stored_text() {
    let vault = unlocked();
    let a = encrypt_string_with_nonce(&vault, "secret", &[1u8; 12]).unwrap();
    let b = encrypt_string_with_nonce(&vault, "secret", &[1u8; 12]).unwrap();
    let c = encrypt_string_with_nonce(&vault, "secret", &[2u8; 12]).unwrap();
    assert_eq!(a, b);
    assert_ne!(a, c);
    assert!(a.starts_with("AQEBAQEBAQEBAQEB"));
    assert_eq!(decrypt_string(&vault, &c), Ok("secret".to_string()));
}

#[test]
fn vault_with_a_key_encrypts_every_secret_of_usual_length() {
    let vault = unlocked();
    let long = "x".repeat(100_000);
    let stored = encrypt_string(&vault, &long).unwrap();
    assert_eq!(decrypt_string(&vault, &stored), Ok(long));
}

#[test]
fn vault_without_key_refuses_to_work() {
    let locked = Vault::new();
    assert!(!locked.is_unlocked());
    assert_eq!(
        encrypt_string(&locked, "secret"),
        Err(StorageError::EncryptionError("Encryption key not initialized".to_string()))
    );
    let stored = encrypt_string(&unlocked(), "secret").unwrap();
    assert_eq!(
        decrypt_string(&locked, &stored),
        Err(StorageError::EncryptionError("Encryption key not initialized".to_string()))
    );
}

#[test]
fn vault_takes_its_key_once() {
    let mut vault = Vault::new();
    assert_eq!(init_key(&mut vault, [1u8; 32]), Ok(()));
    assert!(vault.is_unlocked());
    let stored = encrypt_string(&vault, "secret").unwrap();
    assert_eq!(
        init_key(&mut vault, [2u8; 32]),
        Err(StorageError::EncryptionError("Encryption key already initialized".to_string()))
    );
    // the first key stays
    assert_eq!(decrypt_string(&vault, &stored), Ok("secret".to_string()));
}

#[test]
fn decryption_failures_are_errors() {
    let vault = unlocked();
    // no base64
    assert!(matches!(decrypt_string(&vault, "!!!"), Err(StorageError::EncryptionError(_))));
    // base64 of fewer than twelve bytes
    assert_eq!(
        decrypt_string(&vault, "AAAA"),
        Err(StorageError::EncryptionError("Invalid encrypted data".to_string()))
    );
    // a nonce and nothing sealed
    assert_eq!(
        decrypt_string(&vault, "AAAAAAAAAAAAAAAA"),
        Err(StorageError::EncryptionError("aead::Error".to_string()))
    );
    // another key
    let stored = encrypt_string(&vault, "secret").unwrap();
    let mut other = Vault::new();
    init_key(&mut other, [8u8; 32]).unwrap();
    assert_eq!(
        decrypt_string(&other, &stored),
        Err(StorageError::EncryptionError("aead::Error".to_string()))
    );
    // a changed byte
    let mut corrupt = stored.clone().into_bytes();
    corrupt[20] = if corrupt[20] == b'A' { b'B' } else { b'A' };
    let corrupt = String::from_utf8(corrupt).unwrap();
    assert!(matches!(decrypt_string(&vault, &corrupt), Err(StorageError::EncryptionError(_))));
}

#[test]
fn storage_errors_describe_themselves() {
    assert_eq!(StorageError::NotAvailable.message(), "Storage not available");
    assert_eq!(StorageError::NotFound("k".to_string()).message(), "Key not found: k");
    assert_eq!(StorageError::SerializationError("m".to_string()).message(), "Serialization error: m");
    assert_eq!(StorageError::EncryptionError("m".to_string()).message(), "Encryption error: m");
    assert_eq!(StorageError::IoError("m".to_string()).message(), "IO error: m");
}

#[test]
fn key_is_the_sha256_of_the_passphrase() {
    let key = derive_key("abc");
    let expected: [u8; 32] = [
        0xba, 0x78, 0x16, 0xbf, 0x8f, 0x01, 0xcf, 0xea, 0x41, 0x41, 0x40, 0xde, 0x5d, 0xae, 0x22,
        0x23, 0xb0, 0x03, 0x61, 0xa3, 0x96, 0x17, 0x7a, 0x9c, 0xb4, 0x10, 0xff, 0x61, 0xf2, 0x00,
        0x15, 0xad,
    ];
    assert_eq!(key, expected);
}

#[test]
fn basic_auth_is_stored_encrypted_and_restored() {
    let vault = unlocked();
    let auth = AuthConfig::BasicAuth {
        username: "user".to_string(),
        password: "pass".to_string(),
        encrypted_password: String::new(),
    };
    let stored = auth.encrypt_for_storage(&vault).unwrap();
    match &stored {
        AuthConfig::BasicAuth { username, password, encrypted_password } => {
            assert_eq!(username, "user");
            assert_eq!(password, "");
            assert!(!encrypted_password.is_empty());
            assert_ne!(encrypted_password, "pass");
        }
        _ => panic!("not basic"),
    }
    assert_eq!(stored.decrypt_from_storage(&vault), Ok(auth));
}

#[test]
fn bearer_token_is_stored_encrypted_and_restored() {
    let vault = unlocked();
    let auth = AuthConfig::BearerToken { token: "tok".to_string(), encrypted_token: String::new() };
    let stored = auth.encrypt_for_storage(&vault).unwrap();
    match &stored {
        AuthConfig::BearerToken { token, encrypted_token } => {
            assert_eq!(token, "");
            assert!(!encrypted_token.is_empty());
        }
        _ => panic!("not bearer"),
    }
    assert_eq!(stored.decrypt_from_storage(&vault), Ok(auth));
}

#[test]
fn configurations_without_secret_are_stored_as_they_are() {
    let locked = Vault::new();
    assert_eq!(AuthConfig::Anonymous.encrypt_for_storage(&locked), Ok(AuthConfig::Anonymous));
    let tls = AuthConfig::TlsCert { cert_path: "c".to_string(), key_path: "k".to_string() };
    assert_eq!(tls.encrypt_for_storage(&locked), Ok(tls.clone()));
    assert_eq!(tls.decrypt_from_storage(&locked), Ok(tls.clone()));
}

#[test]
fn legacy_record_keeps_its_plain_text() {
    let locked = Vault::new();
    let legacy = AuthConfig::BasicAuth {
        username: "u".to_string(),
        password: "plain".to_string(),
        encrypted_password: String::new(),
    };
    assert_eq!(legacy.decrypt_from_storage(&locked), Ok(legacy.clone()));
}

#[test]
fn encryption_error_carries_the_text_of_the_storage_error() {
    let locked = Vault::new();
    let auth = AuthConfig::BearerToken { token: "tok".to_string(), encrypted_token: String::new() };
    assert_eq!(
        auth.encrypt_for_storage(&locked),
        Err("Encryption error: Encryption key not initialized".to_string())
    );
    let stored = AuthConfig::BearerToken { token: String::new(), encrypted_token: "AAAA".to_string() };
    assert_eq!(
        stored.decrypt_from_storage(&unlocked()),
        Err("Encryption error: Invalid encrypted data".to_string())
    );
}

#[test]
fn registry_is_stored_without_its_status() {
    let vault = unlocked();
    let mut config = RegistryConfig::with_id(
        "id-1".to_string(),
        "local".to_string(),
        "http://localhost:5000/".to_string(),
        AuthConfig::BearerToken { token: "tok".to_string(), encrypted_token: String::new() },
    );
    assert_eq!(config.url, "http://localhost:5000");
    assert_eq!(config.status, ConnectionStatus::Unknown);
    config.status = ConnectionStatus::Error("down".to_string());
    let stored = config.encrypt_for_storage(&vault).unwrap();
    assert_eq!(stored.id, "id-1");
    assert_eq!(stored.name, "local");
    assert_eq!(stored.status, ConnectionStatus::Unknown);
    let restored = stored.decrypt_from_storage(&vault).unwrap();
    assert_eq!(restored.auth, config.auth);
    assert_eq!(restored.status, ConnectionStatus::Unknown);
    assert_eq!(restored.url, "http://localhost:5000");
}

#[test]
fn new_registries_get_identifiers_of_their_own() {
    let a = RegistryConfig::new("a".to_string(), "http://a/".to_string(), AuthConfig::Anonymous);
    let b = RegistryConfig::new("a".to_string(), "http://a/".to_string(), AuthConfig::Anonymous);
    assert_ne!(a.id, b.id);
    assert_eq!(a.id.len(), 36);
    assert_eq!(a.name, "a");
    assert_eq!(a.url, "http://a");
    assert_eq!(a.auth, AuthConfig::Anonymous);
    assert_eq!(a.status, ConnectionStatus::Unknown);
}
