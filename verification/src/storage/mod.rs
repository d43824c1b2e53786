//! Persistence: the storage adapter, the credential vault and the service
//! that stores configurations through both.

pub mod adapter;
pub mod encryption;
pub mod keys;
pub mod memory;
pub mod records;
pub mod service;
pub mod unlock;

pub use adapter::{StorageAdapter, StorageError, StorageErrorView};
pub use encryption::{decrypt_string, encrypt_string, encrypt_string_with_nonce, init_key, Vault};
pub use keys::{
    key_to_file_name, prefixed_key, unprefixed_key, unwrap_from_browser, wrap_for_browser,
};
pub use memory::MemoryStorage;
pub use service::{
    load_cache_config_from, load_registries_from, load_theme_from, StorageService,
};
pub use unlock::{derive_key, unlock};
