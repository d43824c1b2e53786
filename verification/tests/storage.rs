use docker_registry_manager::models::{AuthConfig, CacheConfig, RegistryConfig, Theme};
use docker_registry_manager::storage::{
    init_key, key_to_file_name, load_registries_from, load_theme_from, prefixed_key,
    unlock, unprefixed_key, unwrap_from_browser, wrap_for_browser, MemoryStorage, StorageAdapter,
    StorageError, StorageService, Vault,
};

fn unlocked() -> Vault {
    let mut vault = Vault::new();
    init_key(&mut vault, [7u8; 32]).unwrap();
    vault
}

fn registries() -> Vec<RegistryConfig> {
    vec![
        RegistryConfig::with_id(
            "1".to_string(),
            "hub".to_string(),
            "https://registry.example.com".to_string(),
            AuthConfig::BasicAuth {
                username: "user".to_string(),
                password: "pass".to_string(),
                encrypted_password: String::new(),
            },
        ),
        RegistryConfig::with_id(
            "2".to_string(),
            "local".to_string(),
            "http://localhost:5000".to_string(),
            AuthConfig::Anonymous,
        ),
        RegistryConfig::with_id(
            "3".to_string(),
            "token".to_string(),
            "http://t".to_string(),
            AuthConfig::BearerToken { token: "tok".to_string(), encrypted_token: String::new() },
        ),
        RegistryConfig::with_id(
            "4".to_string(),
            "tls".to_string(),
            "https://t".to_string(),
            AuthConfig::TlsCert { cert_path: "c.pem".to_string(), key_path: "k.pem".to_string() },
        ),
    ]
}

#[test]
fn memory_storage_keeps_what_is_stored() {
    let mut store = MemoryStorage::new();
    assert_eq!(store.retrieve("a"), Ok(None));
    assert_eq!(store.store("a", b"one"), Ok(()));
    assert_eq!(store.store("b", b"two"), Ok(()));
    assert_eq!(store.store("a", b"three"), Ok(()));
    assert_eq!(store.retrieve("a"), Ok(Some(b"three".to_vec())));
    assert_eq!(store.retrieve("b"), Ok(Some(b"two".to_vec())));
    let mut keys = store.keys().unwrap();
    keys.sort();
    assert_eq!(keys, vec!["a".to_string(), "b".to_string()]);
    assert_eq!(store.remove("a"), Ok(()));
    assert_eq!(store.remove("missing"), Ok(()));
    assert_eq!(store.retrieve("a"), Ok(None));
    assert_eq!(store.clear(), Ok(()));
    assert_eq!(store.retrieve("b"), Ok(None));
    assert!(store.keys().unwrap().is_empty());
}

#[test]
fn has_config_is_false_before_and_true_after_the_first_save() {
    let vault = unlocked();
    let mut service = StorageService::new(MemoryStorage::new());
    assert!(!service.has_config());
    assert_eq!(service.save_registries(&vault, &registries()), Ok(()));
    assert!(service.has_config());
}

#[test]
fn saving_the_settings_makes_no_config() {
    let mut service = StorageService::new(MemoryStorage::new());
    service.save_theme(&Theme::Dark).unwrap();
    service.save_cache_config(&CacheConfig { refresh_interval: 1, max_age: 2 }).unwrap();
    assert!(!service.has_config());
}

#[test]
fn saved_registries_load_again() {
    let vault = unlocked();
    let mut service = StorageService::new(MemoryStorage::new());
    let all = registries();
    service.save_registries(&vault, &all).unwrap();
    assert_eq!(service.load_registries(&vault), Ok(all));
}

#[test]
fn nothing_stored_loads_as_the_defaults() {
    let service = StorageService::new(MemoryStorage::new());
    assert_eq!(service.load_registries(&Vault::new()), Ok(vec![]));
    assert_eq!(service.load_theme(), Ok(Theme::System));
    assert_eq!(service.load_cache_config(), Ok(CacheConfig { refresh_interval: 0, max_age: 3600 }));
    assert_eq!(CacheConfig::default(), CacheConfig { refresh_interval: 0, max_age: 3600 });
    assert_eq!(Theme::default(), Theme::System);
}

#[test]
fn stored_registries_hold_no_plain_secret() {
    let vault = unlocked();
    let mut store = MemoryStorage::new();
    {
        let all = registries();
        let text = docker_registry_manager::storage::service::registries_text(&vault, &all).unwrap();
        assert!(!text.contains("pass\""));
        assert!(!text.contains("tok\""));
        assert!(text.starts_with("[{\"id\":\"1\",\"name\":\"hub\",\"url\":\"https://registry.example.com\",\"auth\":{\"type\":\"BasicAuth\",\"username\":\"user\",\"password\":\"\",\"encrypted_password\":\""));
        assert!(text.contains("{\"id\":\"2\",\"name\":\"local\",\"url\":\"http://localhost:5000\",\"auth\":{\"type\":\"Anonymous\"}}"));
        assert!(text.ends_with("{\"id\":\"4\",\"name\":\"tls\",\"url\":\"https://t\",\"auth\":{\"type\":\"TlsCert\",\"cert_path\":\"c.pem\",\"key_path\":\"k.pem\"}}]"));
        store.store("registries", text.as_bytes()).unwrap();
    }
    let service = StorageService::new(store);
    assert_eq!(service.load_registries(&vault), Ok(registries()));
}

#[test]
fn settings_are_stored_as_json() {
    let mut store = MemoryStorage::new();
    store.store("theme", b"\"Light\"").unwrap();
    store.store("cache_config", b"{\"refresh_interval\":30,\"max_age\":120}").unwrap();
    let mut service = StorageService::new(store);
    assert_eq!(service.load_theme(), Ok(Theme::Light));
    assert_eq!(service.load_cache_config(), Ok(CacheConfig { refresh_interval: 30, max_age: 120 }));
    service.save_theme(&Theme::Dark).unwrap();
    service.save_cache_config(&CacheConfig { refresh_interval: 5, max_age: 60 }).unwrap();
    assert_eq!(service.load_theme(), Ok(Theme::Dark));
    assert_eq!(service.load_cache_config(), Ok(CacheConfig { refresh_interval: 5, max_age: 60 }));
}

#[test]
fn theme_record_is_the_name_of_the_theme() {
    assert_eq!(load_theme_from(Ok(Some(b"\"System\"".to_vec()))), Ok(Theme::System));
    assert_eq!(load_theme_from(Ok(Some(b"\"Dark\"".to_vec()))), Ok(Theme::Dark));
    assert!(matches!(load_theme_from(Ok(Some(b"\"dark\"".to_vec()))), Err(StorageError::SerializationError(_))));
    assert!(matches!(load_theme_from(Ok(Some(b"7".to_vec()))), Err(StorageError::SerializationError(_))));
    assert!(matches!(load_theme_from(Ok(Some(vec![0xff, 0xfe]))), Err(StorageError::SerializationError(_))));
    assert_eq!(load_theme_from(Err(StorageError::NotAvailable)), Err(StorageError::NotAvailable));
    assert_eq!(
        load_theme_from(Err(StorageError::IoError("disk".to_string()))),
        Err(StorageError::IoError("disk".to_string()))
    );
}

#[test]
fn wrong_key_is_told_apart_from_no_registries() {
    let vault = unlocked();
    let mut service = StorageService::new(MemoryStorage::new());
    service.save_registries(&vault, &registries()).unwrap();
    let mut other = Vault::new();
    init_key(&mut other, [9u8; 32]).unwrap();
    assert_eq!(
        service.load_registries(&other),
        Err(StorageError::EncryptionError("Encryption error: aead::Error".to_string()))
    );
    assert_eq!(
        service.load_registries(&Vault::new()),
        Err(StorageError::EncryptionError("Encryption error: Encryption key not initialized".to_string()))
    );
}

#[test]
fn saving_with_a_locked_vault_fails_and_stores_nothing() {
    let mut service = StorageService::new(MemoryStorage::new());
    assert_eq!(
        service.save_registries(&Vault::new(), &registries()),
        Err(StorageError::EncryptionError("Encryption error: Encryption key not initialized".to_string()))
    );
    assert!(!service.has_config());
}

#[test]
fn corrupt_records_are_serialization_errors() {
    let vault = unlocked();
    assert!(matches!(
        load_registries_from(&vault, Ok(Some(b"not json".to_vec()))),
        Err(StorageError::SerializationError(_))
    ));
    assert!(matches!(
        load_registries_from(&vault, Ok(Some(b"{\"id\":1}".to_vec()))),
        Err(StorageError::SerializationError(_))
    ));
    assert!(matches!(
        load_registries_from(&vault, Ok(Some(b"[{\"id\":\"1\",\"name\":\"n\",\"url\":\"u\",\"auth\":{\"type\":\"Nope\"}}]".to_vec()))),
        Err(StorageError::SerializationError(_))
    ));
    assert_eq!(
        load_registries_from(&vault, Ok(Some(b"[{\"id\":\"1\",\"name\":\"n\",\"url\":\"u\",\"auth\":{\"type\":\"BasicAuth\",\"username\":\"u\"}}]".to_vec()))),
        Ok(vec![RegistryConfig::with_id(
            "1".to_string(),
            "n".to_string(),
            "u".to_string(),
            AuthConfig::BasicAuth { username: "u".to_string(), password: String::new(), encrypted_password: String::new() },
        )])
    );
}

#[test]
fn clear_all_removes_every_record() {
    let vault = unlocked();
    let mut service = StorageService::new(MemoryStorage::new());
    service.save_registries(&vault, &registries()).unwrap();
    service.save_theme(&Theme::Dark).unwrap();
    assert_eq!(service.clear_all(), Ok(()));
    assert!(!service.has_config());
    assert_eq!(service.load_theme(), Ok(Theme::System));
}

#[test]
fn unlocking_checks_the_passphrase_against_the_stored_list() {
    let mut service = StorageService::new(MemoryStorage::new());
    let mut vault = Vault::new();
    assert_eq!(unlock(&mut vault, &service, "", true), Err("Password cannot be empty.".to_string()));
    assert!(!vault.is_unlocked());
    assert_eq!(unlock(&mut vault, &service, "correct horse", true), Ok(()));
    assert!(vault.is_unlocked());
    service.save_registries(&vault, &registries()).unwrap();

    let mut again = Vault::new();
    assert_eq!(unlock(&mut again, &service, "correct horse", false), Ok(()));
    assert_eq!(service.load_registries(&again), Ok(registries()));

    let mut wrong = Vault::new();
    assert_eq!(
        unlock(&mut wrong, &service, "battery staple", false),
        Err("Incorrect password or corrupt configuration. Error: Encryption error: Encryption error: aead::Error".to_string())
    );
}

#[test]
fn second_key_is_refused_and_asks_for_a_restart() {
    let mut service = StorageService::new(MemoryStorage::new());
    let mut vault = Vault::new();
    assert_eq!(unlock(&mut vault, &service, "first", true), Ok(()));
    service.save_registries(&vault, &registries()).unwrap();
    let restart = Err(
        "Encryption error: Encryption key already initialized. Please restart the application to set a new key."
            .to_string(),
    );
    // neither on a first run nor later, neither with another passphrase nor the same
    assert_eq!(unlock(&mut vault, &service, "second", true), restart);
    assert_eq!(unlock(&mut vault, &service, "second", false), restart);
    assert_eq!(unlock(&mut vault, &service, "first", false), restart);
    // the first key stays in force
    assert_eq!(service.load_registries(&vault), Ok(registries()));
    // an empty passphrase is refused before anything else
    assert_eq!(unlock(&mut vault, &service, "", false), Err("Password cannot be empty.".to_string()));
}

#[test]
fn browser_records_are_wrapped_in_base64() {
    assert_eq!(wrap_for_browser(b"hello"), "aGVsbG8=");
    assert_eq!(wrap_for_browser(b""), "");
    assert_eq!(unwrap_from_browser("aGVsbG8="), Ok(b"hello".to_vec()));
    assert_eq!(unwrap_from_browser(&wrap_for_browser(&[0, 255, 7])), Ok(vec![0, 255, 7]));
    assert!(matches!(unwrap_from_browser("not base64!"), Err(StorageError::SerializationError(_))));
}

#[test]
fn file_names_hold_no_unsafe_character() {
    assert_eq!(key_to_file_name("registries"), "registries.dat");
    assert_eq!(key_to_file_name("a/b\\c:d*e?f\"g<h>i|j"), "a_b_c_d_e_f_g_h_i_j.dat");
    assert_eq!(key_to_file_name(""), ".dat");
}

#[test]
fn browser_keys_carry_a_prefix() {
    assert_eq!(prefixed_key("theme"), "drm_theme");
    assert_eq!(unprefixed_key("drm_theme"), Some("theme".to_string()));
    assert_eq!(unprefixed_key("drm_"), Some(String::new()));
    assert_eq!(unprefixed_key("other_theme"), None);
    assert_eq!(unprefixed_key("dr"), None);
}
