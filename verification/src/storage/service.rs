//! The persistence service: three records kept through a storage adapter,
//! with the secrets of the registry list encrypted by the vault.

use crate::codec::{text_from_utf8, utf8_error_text};
use crate::json::{json_parsed, json_rendered, parse_json, render_json, JsonModel};
use crate::models::cache::CacheConfig;
use crate::models::error::Theme;
use crate::models::registry::{
    decrypt_registry, encrypt_registry, has_secret, in_use, registry_result, registry_views,
    secret_of, with_auth, RegistryConfig, RegistryConfigView,
};
use crate::storage::adapter::{retrieved, StorageAdapter, StorageError, StorageErrorView};
use crate::storage::encryption::Vault;
use crate::storage::records::{
    cache_config_json, cache_config_of, decode_cache_config, decode_registries, decode_theme,
    encode_cache_config, encode_registries, encode_theme, registries_json, registries_of,
    theme_json, theme_of,
};
use vstd::prelude::*;
use vstd::utf8::{decode_utf8, encode_utf8, valid_utf8};

verus! {

/// The key of the registry list.
pub const REGISTRIES_KEY: &'static str = "registries";

/// The key of the theme.
pub const THEME_KEY: &'static str = "theme";

/// The key of the cache policy.
pub const CACHE_CONFIG_KEY: &'static str = "cache_config";

/// The message of the error for a record that is JSON but no registry list.
pub const NOT_A_REGISTRY_LIST: &'static str = "data does not have the shape of a registry list";

/// The message of the error for a record that is JSON but no theme.
pub const NOT_A_THEME: &'static str = "data does not have the shape of a theme";

/// The message of the error for a record that is JSON but no cache policy.
pub const NOT_A_CACHE_CONFIG: &'static str = "data does not have the shape of a cache policy";

/// The stored forms of `configs`, each encrypted under its nonce, or the
/// text of the first error.
pub open spec fn encrypt_all(
    key: Option<Seq<u8>>,
    nonces: Seq<Seq<u8>>,
    configs: Seq<RegistryConfigView>,
) -> Result<Seq<RegistryConfigView>, Seq<char>>
    decreases configs.len(),
{
    if configs.len() == 0 {
        Ok(Seq::empty())
    } else {
        match encrypt_all(key, nonces.drop_last(), configs.drop_last()) {
            Ok(done) => match encrypt_registry(key, nonces.last(), configs.last()) {
                Ok(stored) => Ok(done.push(stored)),
                Err(message) => Err(message),
            },
            Err(message) => Err(message),
        }
    }
}

/// The forms in use of the stored `configs`, or the text of the first error.
pub open spec fn decrypt_all(key: Option<Seq<u8>>, configs: Seq<RegistryConfigView>) -> Result<
    Seq<RegistryConfigView>,
    Seq<char>,
>
    decreases configs.len(),
{
    if configs.len() == 0 {
        Ok(Seq::empty())
    } else {
        match decrypt_all(key, configs.drop_last()) {
            Ok(done) => match decrypt_registry(key, configs.last()) {
                Ok(config) => Ok(done.push(config)),
                Err(message) => Err(message),
            },
            Err(message) => Err(message),
        }
    }
}

/// What is stored holds no secret in plain text: every configuration of an
/// encrypted list has its password or token empty.
pub proof fn lemma_stored_list_holds_no_plain_secret(
    key: Option<Seq<u8>>,
    nonces: Seq<Seq<u8>>,
    configs: Seq<RegistryConfigView>,
)
    ensures
        encrypt_all(key, nonces, configs) matches Ok(stored) ==> stored.len() == configs.len()
            && forall|i: int|
            0 <= i < stored.len() ==> has_secret(configs[i].auth) ==> secret_of(
                (#[trigger] stored[i]).auth,
            ).len() == 0,
    decreases configs.len(),
{
    if configs.len() > 0 {
        lemma_stored_list_holds_no_plain_secret(key, nonces.drop_last(), configs.drop_last());
        if let Ok(stored) = encrypt_all(key, nonces, configs) {
            let done = encrypt_all(key, nonces.drop_last(), configs.drop_last())->Ok_0;
            let last = encrypt_registry(key, nonces.last(), configs.last())->Ok_0;
            assert(stored == done.push(last));
            crate::models::registry::lemma_one_form_of_secret(
                key,
                nonces.last(),
                configs.last().auth,
            );
            assert forall|i: int| 0 <= i < stored.len() && has_secret(
                configs[i].auth,
            ) implies secret_of((#[trigger] stored[i]).auth).len() == 0 by {
                if i < done.len() {
                    assert(stored[i] == done[i]);
                    assert(configs.drop_last()[i] == configs[i]);
                }
            }
        }
    }
}

/// An error while encrypting a prefix of the list is the error of the list.
pub proof fn lemma_encrypt_all_prefix(
    key: Option<Seq<u8>>,
    nonces: Seq<Seq<u8>>,
    configs: Seq<RegistryConfigView>,
    n: int,
)
    requires
        nonces.len() == configs.len(),
        0 <= n <= configs.len(),
        encrypt_all(key, nonces.take(n), configs.take(n)) is Err,
    ensures
        encrypt_all(key, nonces, configs) == encrypt_all(key, nonces.take(n), configs.take(n)),
    decreases configs.len() - n,
{
    if n < configs.len() {
        assert(nonces.take(n + 1).drop_last() =~= nonces.take(n));
        assert(configs.take(n + 1).drop_last() =~= configs.take(n));
        lemma_encrypt_all_prefix(key, nonces, configs, n + 1);
    } else {
        assert(nonces.take(n) =~= nonces);
        assert(configs.take(n) =~= configs);
    }
}

/// An error while decrypting a prefix of the list is the error of the list.
pub proof fn lemma_decrypt_all_prefix(
    key: Option<Seq<u8>>,
    configs: Seq<RegistryConfigView>,
    n: int,
)
    requires
        0 <= n <= configs.len(),
        decrypt_all(key, configs.take(n)) is Err,
    ensures
        decrypt_all(key, configs) == decrypt_all(key, configs.take(n)),
    decreases configs.len() - n,
{
    if n < configs.len() {
        assert(configs.take(n + 1).drop_last() =~= configs.take(n));
        lemma_decrypt_all_prefix(key, configs, n + 1);
    } else {
        assert(configs.take(n) =~= configs);
    }
}

/// The text of a record, or the error of writing it: a failure to render is
/// a serialization error.
pub open spec fn rendered_record(value: JsonModel) -> Result<Seq<char>, StorageErrorView> {
    match json_rendered(value) {
        Ok(text) => Ok(text),
        Err(message) => Err(StorageErrorView::SerializationError(message)),
    }
}

/// The text that the registry list is stored as, with its secrets encrypted
/// under `nonces`: a failure to encrypt is an encryption error.
pub open spec fn registries_record(
    key: Option<Seq<u8>>,
    nonces: Seq<Seq<u8>>,
    configs: Seq<RegistryConfigView>,
) -> Result<Seq<char>, StorageErrorView> {
    match encrypt_all(key, nonces, configs) {
        Ok(stored) => rendered_record(registries_json(stored)),
        Err(message) => Err(StorageErrorView::EncryptionError(message)),
    }
}

/// What saving a record under `key` does to the store. Where the record
/// could not be written, that is the error and the store is as before. Else
/// the adapter decides: on success the store holds the text's bytes under
/// the key, on failure it is as before.
pub open spec fn saved(
    before: Map<Seq<char>, Seq<u8>>,
    after: Map<Seq<char>, Seq<u8>>,
    key: Seq<char>,
    record: Result<Seq<char>, StorageErrorView>,
    r: Result<(), StorageError>,
) -> bool {
    match record {
        Ok(text) => if r is Ok {
            after == before.insert(key, encode_utf8(text))
        } else {
            after == before
        },
        Err(e) => after == before && (r matches Err(got) && got@ == e),
    }
}

/// The JSON value that stored bytes hold: bytes that are no UTF-8, or no
/// JSON, are a serialization error.
pub open spec fn json_from_bytes(bytes: Seq<u8>) -> Result<JsonModel, StorageErrorView> {
    if valid_utf8(bytes) {
        match json_parsed(decode_utf8(bytes)) {
            Ok(value) => Ok(value),
            Err(message) => Err(StorageErrorView::SerializationError(message)),
        }
    } else {
        Err(StorageErrorView::SerializationError(utf8_error_text(bytes)))
    }
}

/// The registry list that stored bytes hold, decrypted: a value that is no
/// registry list is a serialization error, a failure to decrypt an encryption
/// error.
pub open spec fn registries_from_bytes(key: Option<Seq<u8>>, bytes: Seq<u8>) -> Result<
    Seq<RegistryConfigView>,
    StorageErrorView,
> {
    match json_from_bytes(bytes) {
        Ok(value) => match registries_of(value) {
            Some(stored) => match decrypt_all(key, stored) {
                Ok(configs) => Ok(configs),
                Err(message) => Err(StorageErrorView::EncryptionError(message)),
            },
            None => Err(StorageErrorView::SerializationError(NOT_A_REGISTRY_LIST@)),
        },
        Err(e) => Err(e),
    }
}

/// What loading the registry list gives for an outcome of the adapter: its
/// error; the empty list where nothing is stored; else what the bytes hold.
pub open spec fn loaded_registries(
    key: Option<Seq<u8>>,
    outcome: Result<Option<Vec<u8>>, StorageError>,
) -> Result<Seq<RegistryConfigView>, StorageErrorView> {
    match outcome {
        Ok(Some(data)) => registries_from_bytes(key, data@),
        Ok(None) => Ok(Seq::empty()),
        Err(e) => Err(e@),
    }
}

/// What loading the theme gives for an outcome of the adapter: its error;
/// the system theme where nothing is stored; else what the bytes hold.
pub open spec fn loaded_theme(outcome: Result<Option<Vec<u8>>, StorageError>) -> Result<
    Theme,
    StorageErrorView,
> {
    match outcome {
        Ok(Some(data)) => match json_from_bytes(data@) {
            Ok(value) => match theme_of(value) {
                Some(theme) => Ok(theme),
                None => Err(StorageErrorView::SerializationError(NOT_A_THEME@)),
            },
            Err(e) => Err(e),
        },
        Ok(None) => Ok(Theme::System),
        Err(e) => Err(e@),
    }
}

/// What loading the cache policy gives for an outcome of the adapter: its
/// error; no refresh and an hour's age where nothing is stored; else what the
/// bytes hold.
pub open spec fn loaded_cache_config(outcome: Result<Option<Vec<u8>>, StorageError>) -> Result<
    CacheConfig,
    StorageErrorView,
> {
    match outcome {
        Ok(Some(data)) => match json_from_bytes(data@) {
            Ok(value) => match cache_config_of(value) {
                Some(config) => Ok(config),
                None => Err(StorageErrorView::SerializationError(NOT_A_CACHE_CONFIG@)),
            },
            Err(e) => Err(e),
        },
        Ok(None) => Ok(CacheConfig { refresh_interval: 0, max_age: 3600 }),
        Err(e) => Err(e@),
    }
}

/// Whether an outcome of the adapter shows a stored record.
pub open spec fn shows_record(outcome: Result<Option<Vec<u8>>, StorageError>) -> bool {
    outcome matches Ok(Some(_))
}

/// A result that holds a registry list, as mathematics.
pub open spec fn registries_result(r: Result<Vec<RegistryConfig>, StorageError>) -> Result<
    Seq<RegistryConfigView>,
    StorageErrorView,
> {
    match r {
        Ok(configs) => Ok(registry_views(configs@)),
        Err(e) => Err(e@),
    }
}

/// A result that holds a plain value, as mathematics.
pub open spec fn plain_result<T>(r: Result<T, StorageError>) -> Result<T, StorageErrorView> {
    match r {
        Ok(value) => Ok(value),
        Err(e) => Err(e@),
    }
}

/// There is a configuration from the first successful save of the registry
/// list on, and none before: a store that holds no registry list shows none;
/// a store after a successful save holds the list, and shows it whenever it
/// can be read.
pub proof fn lemma_config_is_there_once_saved(
    before: Map<Seq<char>, Seq<u8>>,
    after: Map<Seq<char>, Seq<u8>>,
    record: Result<Seq<char>, StorageErrorView>,
    r: Result<(), StorageError>,
    asked_before: Result<Option<Vec<u8>>, StorageError>,
    asked_after: Result<Option<Vec<u8>>, StorageError>,
)
    requires
        !before.contains_key(REGISTRIES_KEY@),
        retrieved(before, REGISTRIES_KEY@, asked_before),
        saved(before, after, REGISTRIES_KEY@, record, r),
        r is Ok,
        retrieved(after, REGISTRIES_KEY@, asked_after),
    ensures
        !shows_record(asked_before),
        after.contains_key(REGISTRIES_KEY@),
        asked_after is Ok ==> shows_record(asked_after),
{
}

/// Reads stored bytes as JSON.
fn json_of_bytes(data: Vec<u8>) -> (r: Result<crate::json::JsonValue, StorageError>)
    ensures
        match r {
            Ok(value) => json_from_bytes(data@) == Ok::<JsonModel, StorageErrorView>(value@),
            Err(e) => json_from_bytes(data@) == Err::<JsonModel, StorageErrorView>(e@),
        },
{
    let text = match text_from_utf8(data) {
        Ok(text) => text,
        Err(message) => {
            return Err(StorageError::SerializationError(message));
        },
    };
    match parse_json(text.as_str()) {
        Ok(value) => Ok(value),
        Err(message) => Err(StorageError::SerializationError(message)),
    }
}

/// A configuration as a load gives it: its secret in plain text, nothing
/// encrypted, and no known status.
pub open spec fn as_loaded(config: RegistryConfigView) -> RegistryConfigView {
    with_auth(config, in_use(config.auth, secret_of(config.auth)))
}

/// The configurations as a load gives them.
pub open spec fn all_as_loaded(configs: Seq<RegistryConfigView>) -> Seq<RegistryConfigView> {
    Seq::new(configs.len(), |i: int| as_loaded(configs[i]))
}

/// Whether the list encrypted under `nonces` decrypts to the list again: to
/// the configurations as a load gives them, in their order.
pub open spec fn decrypts_back(
    key: Option<Seq<u8>>,
    nonces: Seq<Seq<u8>>,
    configs: Seq<RegistryConfigView>,
) -> bool {
    encrypt_all(key, nonces, configs) matches Ok(stored) && (decrypt_all(key, stored) matches Ok(
        loaded,
    ) && loaded == all_as_loaded(configs))
}

/// Every configuration of an encrypted list is without a status.
pub proof fn lemma_stored_list_has_no_status(
    key: Option<Seq<u8>>,
    nonces: Seq<Seq<u8>>,
    configs: Seq<RegistryConfigView>,
)
    ensures
        encrypt_all(key, nonces, configs) matches Ok(stored) ==> stored.len() == configs.len()
            && forall|i: int|
            0 <= i < stored.len() ==> (#[trigger] stored[i]).status
                == crate::models::registry::ConnectionStatusView::Unknown,
    decreases configs.len(),
{
    if configs.len() > 0 {
        lemma_stored_list_has_no_status(key, nonces.drop_last(), configs.drop_last());
        if let Ok(stored) = encrypt_all(key, nonces, configs) {
            let done = encrypt_all(key, nonces.drop_last(), configs.drop_last())->Ok_0;
            assert forall|i: int| 0 <= i < stored.len() implies (#[trigger] stored[i]).status
                == crate::models::registry::ConnectionStatusView::Unknown by {
                if i < done.len() {
                    assert(stored[i] == done[i]);
                }
            }
        }
    }
}

/// What was saved loads again: where the text that was stored parses back to
/// the value it was rendered from, the bytes of the text load as the list that
/// was saved, each configuration as a load gives it.
pub proof fn lemma_saved_list_loads_again(
    key: Option<Seq<u8>>,
    nonces: Seq<Seq<u8>>,
    configs: Seq<RegistryConfigView>,
    text: Seq<char>,
)
    requires
        decrypts_back(key, nonces, configs),
        registries_record(key, nonces, configs) matches Ok(stored_text) && stored_text == text,
        json_parsed(text) matches Ok(value) && value == registries_json(
            encrypt_all(key, nonces, configs)->Ok_0,
        ),
    ensures
        registries_from_bytes(key, encode_utf8(text)) matches Ok(loaded) && loaded == all_as_loaded(
            configs,
        ),
{
    let stored = encrypt_all(key, nonces, configs)->Ok_0;
    vstd::utf8::encode_utf8_valid_utf8(text);
    vstd::utf8::encode_utf8_decode_utf8(text);
    crate::storage::records::lemma_registries_read_back(stored);
    lemma_stored_list_has_no_status(key, nonces, configs);
    let read = Seq::new(stored.len(), |i: int| crate::storage::records::without_status(stored[i]));
    assert(read =~= stored);
}

/// Whether `nonces` are as many as `n`, each of twelve bytes.
pub open spec fn nonces_for(nonces: Seq<Seq<u8>>, n: nat) -> bool {
    nonces.len() == n && forall|i: int| 0 <= i < nonces.len() ==> (#[trigger] nonces[i]).len() == 12
}

/// The text to store the registry list as: every secret encrypted by the
/// vault under a fresh nonce, and the list rendered as JSON.
pub fn registries_text(vault: &Vault, registries: &Vec<RegistryConfig>) -> (r: Result<
    String,
    StorageError,
>)
    ensures
        exists|nonces: Seq<Seq<u8>>|
            nonces_for(nonces, registries@.len()) && #[trigger] registries_record(
                vault.key(),
                nonces,
                registry_views(registries@),
            ) == crate::storage::encryption::text_result(r) && (r is Ok ==> decrypts_back(
                vault.key(),
                nonces,
                registry_views(registries@),
            )),
{
    let ghost views = registry_views(registries@);
    let ghost zero = Seq::new(12, |i: int| 0u8);
    let ghost mut nonces: Seq<Seq<u8>> = Seq::empty();
    let mut stored: Vec<RegistryConfig> = Vec::new();
    let mut i: usize = 0;
    assert(views.take(0) =~= Seq::<RegistryConfigView>::empty());
    assert(registry_views(stored@) =~= Seq::<RegistryConfigView>::empty());
    assert(all_as_loaded(views.take(0)) =~= Seq::<RegistryConfigView>::empty());
    while i < registries.len()
        invariant
            0 <= i <= registries@.len(),
            views == registry_views(registries@),
            zero.len() == 12,
            nonces_for(nonces, i as nat),
            decrypt_all(vault.key(), registry_views(stored@)) matches Ok(loaded) && loaded
                == all_as_loaded(views.take(i as int)),
            encrypt_all(vault.key(), nonces, views.take(i as int)) == Ok::<
                Seq<RegistryConfigView>,
                Seq<char>,
            >(registry_views(stored@)),
        decreases registries@.len() - i,
    {
        let sealed = registries[i].encrypt_for_storage(vault);
        let ghost nonce = choose|nonce: Seq<u8>|
            nonce.len() == 12 && #[trigger] encrypt_registry(vault.key(), nonce, registries@[i as int]@)
                == registry_result(sealed);
        let ghost next = nonces.push(nonce);
        proof {
            assert(next.drop_last() =~= nonces);
            assert(views.take(i + 1).drop_last() =~= views.take(i as int));
            assert(views.take(i + 1).last() == registries@[i as int]@);
        }
        match sealed {
            Ok(config) => {
                let ghost before = stored@;
                stored.push(config);
                proof {
                    assert(registry_views(stored@) =~= registry_views(before).push(config@));
                    assert(registry_views(stored@).drop_last() =~= registry_views(before));
                    assert(all_as_loaded(views.take(i + 1)) =~= all_as_loaded(
                        views.take(i as int),
                    ).push(as_loaded(views[i as int])));
                    nonces = next;
                }
            },
            Err(message) => {
                proof {
                    let rest = Seq::new((registries@.len() - i - 1) as nat, |j: int| zero);
                    let all = next + rest;
                    assert(all.take(i + 1) =~= next);
                    lemma_encrypt_all_prefix(vault.key(), all, views, i + 1);
                    assert(nonces_for(all, registries@.len()));
                    assert(registries_record(vault.key(), all, views)
                        == crate::storage::encryption::text_result(
                        Err(StorageError::EncryptionError(message)),
                    ));
                }
                return Err(StorageError::EncryptionError(message));
            },
        }
        i += 1;
    }
    assert(views.take(registries@.len() as int) =~= views);
    let r = match render_json(&encode_registries(&stored)) {
        Ok(text) => Ok(text),
        Err(message) => Err(StorageError::SerializationError(message)),
    };
    assert(registries_record(vault.key(), nonces, views) == crate::storage::encryption::text_result(
        r,
    ));
    assert(decrypts_back(vault.key(), nonces, views));
    r
}

/// Reads what the adapter answered for the registry list: decodes the
/// stored list and decrypts its secrets by the vault.
pub fn load_registries_from(vault: &Vault, outcome: Result<Option<Vec<u8>>, StorageError>) -> (r:
    Result<Vec<RegistryConfig>, StorageError>)
    ensures
        registries_result(r) == loaded_registries(vault.key(), outcome),
{
    let data = match outcome {
        Ok(Some(data)) => data,
        Ok(None) => {
            let none: Vec<RegistryConfig> = Vec::new();
            assert(registry_views(none@) =~= Seq::<RegistryConfigView>::empty());
            return Ok(none);
        },
        Err(e) => {
            return Err(e);
        },
    };
    let value = match json_of_bytes(data) {
        Ok(value) => value,
        Err(e) => {
            return Err(e);
        },
    };
    let stored = match decode_registries(&value) {
        Some(stored) => stored,
        None => {
            return Err(StorageError::SerializationError(NOT_A_REGISTRY_LIST.to_string()));
        },
    };
    let ghost views = registry_views(stored@);
    let mut out: Vec<RegistryConfig> = Vec::new();
    let mut i: usize = 0;
    assert(views.take(0) =~= Seq::<RegistryConfigView>::empty());
    assert(registry_views(out@) =~= Seq::<RegistryConfigView>::empty());
    while i < stored.len()
        invariant
            0 <= i <= stored@.len(),
            views == registry_views(stored@),
            loaded_registries(vault.key(), outcome) == match decrypt_all(vault.key(), views) {
                Ok(configs) => Ok(configs),
                Err(message) => Err(StorageErrorView::EncryptionError(message)),
            },
            decrypt_all(vault.key(), views.take(i as int)) == Ok::<
                Seq<RegistryConfigView>,
                Seq<char>,
            >(registry_views(out@)),
        decreases stored@.len() - i,
    {
        proof {
            assert(views.take(i + 1).drop_last() =~= views.take(i as int));
            assert(views.take(i + 1).last() == stored@[i as int]@);
        }
        match stored[i].decrypt_from_storage(vault) {
            Ok(config) => {
                let ghost before = out@;
                out.push(config);
                assert(registry_views(out@) =~= registry_views(before).push(config@));
            },
            Err(message) => {
                proof {
                    lemma_decrypt_all_prefix(vault.key(), views, i + 1);
                }
                return Err(StorageError::EncryptionError(message));
            },
        }
        i += 1;
    }
    assert(views.take(stored@.len() as int) =~= views);
    Ok(out)
}

/// Reads what the adapter answered for the theme.
pub fn load_theme_from(outcome: Result<Option<Vec<u8>>, StorageError>) -> (r: Result<
    Theme,
    StorageError,
>)
    ensures
        plain_result(r) == loaded_theme(outcome),
{
    let data = match outcome {
        Ok(Some(data)) => data,
        Ok(None) => {
            return Ok(Theme::System);
        },
        Err(e) => {
            return Err(e);
        },
    };
    let value = match json_of_bytes(data) {
        Ok(value) => value,
        Err(e) => {
            return Err(e);
        },
    };
    match decode_theme(&value) {
        Some(theme) => Ok(theme),
        None => Err(StorageError::SerializationError(NOT_A_THEME.to_string())),
    }
}

/// Reads what the adapter answered for the cache policy.
pub fn load_cache_config_from(outcome: Result<Option<Vec<u8>>, StorageError>) -> (r: Result<
    CacheConfig,
    StorageError,
>)
    ensures
        plain_result(r) == loaded_cache_config(outcome),
{
    let data = match outcome {
        Ok(Some(data)) => data,
        Ok(None) => {
            return Ok(CacheConfig { refresh_interval: 0, max_age: 3600 });
        },
        Err(e) => {
            return Err(e);
        },
    };
    let value = match json_of_bytes(data) {
        Ok(value) => value,
        Err(e) => {
            return Err(e);
        },
    };
    match decode_cache_config(&value) {
        Some(config) => Ok(config),
        None => Err(StorageError::SerializationError(NOT_A_CACHE_CONFIG.to_string())),
    }
}

/// Whether a record that could not be written is the error of saving it.
pub open spec fn refused(record: Result<Seq<char>, StorageErrorView>, r: Result<(), StorageError>) -> bool {
    record matches Err(e) ==> (r matches Err(got) && got@ == e)
}

/// The persistence service over a storage adapter.
pub struct StorageService<A: StorageAdapter> {
    adapter: A,
}

impl<A: StorageAdapter> StorageService<A> {
    /// Whether the adapter has a model of what it holds.
    pub closed spec fn has_model(&self) -> bool {
        self.adapter.has_model()
    }

    /// The records that the adapter holds, where it has a model.
    pub closed spec fn contents(&self) -> Map<Seq<char>, Seq<u8>> {
        self.adapter.contents()
    }

    /// The service over `adapter`.
    pub fn new(adapter: A) -> (out: Self)
        ensures
            out.has_model() == adapter.has_model(),
            out.contents() == adapter.contents(),
    {
        StorageService { adapter }
    }

    /// Stores `record` under `key`, where there is a record to store.
    fn save_record(&mut self, key: &str, record: Result<String, StorageError>) -> (r: Result<
        (),
        StorageError,
    >)
        ensures
            final(self).has_model() == old(self).has_model(),
            refused(crate::storage::encryption::text_result(record), r),
            old(self).has_model() ==> saved(
                old(self).contents(),
                final(self).contents(),
                key@,
                crate::storage::encryption::text_result(record),
                r,
            ),
    {
        match record {
            Ok(text) => self.adapter.store(key, text.as_str().as_bytes()),
            Err(e) => Err(e),
        }
    }

    /// Saves the registry list, with every secret encrypted by the vault.
    /// Where a secret cannot be encrypted or the list cannot be rendered, that
    /// is the error and nothing is stored. Else the adapter decides. What was
    /// stored decrypts under the vault to the list that was saved.
    pub fn save_registries(&mut self, vault: &Vault, registries: &Vec<RegistryConfig>) -> (r:
        Result<(), StorageError>)
        ensures
            final(self).has_model() == old(self).has_model(),
            exists|nonces: Seq<Seq<u8>>|
                nonces_for(nonces, registries@.len()) && refused(
                    #[trigger] registries_record(vault.key(), nonces, registry_views(registries@)),
                    r,
                ) && (old(self).has_model() ==> saved(
                    old(self).contents(),
                    final(self).contents(),
                    REGISTRIES_KEY@,
                    registries_record(vault.key(), nonces, registry_views(registries@)),
                    r,
                )) && (r is Ok ==> decrypts_back(
                    vault.key(),
                    nonces,
                    registry_views(registries@),
                )),
            old(self).has_model() && r is Ok ==> final(self).contents().contains_key(
                REGISTRIES_KEY@,
            ),
    {
        let record = registries_text(vault, registries);
        let ghost nonces = choose|nonces: Seq<Seq<u8>>|
            nonces_for(nonces, registries@.len()) && #[trigger] registries_record(
                vault.key(),
                nonces,
                registry_views(registries@),
            ) == crate::storage::encryption::text_result(record) && (record is Ok ==> decrypts_back(
                vault.key(),
                nonces,
                registry_views(registries@),
            ));
        let r = self.save_record(REGISTRIES_KEY, record);
        assert(refused(registries_record(vault.key(), nonces, registry_views(registries@)), r));
        r
    }

    /// Loads the registry list, with every secret decrypted by the vault.
    pub fn load_registries(&self, vault: &Vault) -> (r: Result<Vec<RegistryConfig>, StorageError>)
        ensures
            exists|outcome: Result<Option<Vec<u8>>, StorageError>|
                (self.has_model() ==> outcome is Ok && retrieved(
                    self.contents(),
                    REGISTRIES_KEY@,
                    outcome,
                )) && #[trigger] loaded_registries(vault.key(), outcome) == registries_result(r),
    {
        let outcome = self.adapter.retrieve(REGISTRIES_KEY);
        let r = load_registries_from(vault, outcome);
        assert(loaded_registries(vault.key(), outcome) == registries_result(r));
        r
    }

    /// Saves the theme.
    pub fn save_theme(&mut self, theme: &Theme) -> (r: Result<(), StorageError>)
        ensures
            final(self).has_model() == old(self).has_model(),
            refused(rendered_record(theme_json(*theme)), r),
            old(self).has_model() ==> saved(
                old(self).contents(),
                final(self).contents(),
                THEME_KEY@,
                rendered_record(theme_json(*theme)),
                r,
            ),
    {
        let record = match render_json(&encode_theme(*theme)) {
            Ok(text) => Ok(text),
            Err(message) => Err(StorageError::SerializationError(message)),
        };
        self.save_record(THEME_KEY, record)
    }

    /// Loads the theme; the system theme where none is stored.
    pub fn load_theme(&self) -> (r: Result<Theme, StorageError>)
        ensures
            exists|outcome: Result<Option<Vec<u8>>, StorageError>|
                (self.has_model() ==> outcome is Ok && retrieved(
                    self.contents(),
                    THEME_KEY@,
                    outcome,
                )) && #[trigger] loaded_theme(outcome) == plain_result(r),
            self.has_model() && !self.contents().contains_key(THEME_KEY@) ==> (r matches Ok(theme)
                && theme == Theme::System),
    {
        let outcome = self.adapter.retrieve(THEME_KEY);
        let r = load_theme_from(outcome);
        assert(loaded_theme(outcome) == plain_result(r));
        r
    }

    /// Saves the cache policy.
    pub fn save_cache_config(&mut self, config: &CacheConfig) -> (r: Result<(), StorageError>)
        ensures
            final(self).has_model() == old(self).has_model(),
            refused(rendered_record(cache_config_json(*config)), r),
            old(self).has_model() ==> saved(
                old(self).contents(),
                final(self).contents(),
                CACHE_CONFIG_KEY@,
                rendered_record(cache_config_json(*config)),
                r,
            ),
    {
        let record = match render_json(&encode_cache_config(config)) {
            Ok(text) => Ok(text),
            Err(message) => Err(StorageError::SerializationError(message)),
        };
        self.save_record(CACHE_CONFIG_KEY, record)
    }

    /// Loads the cache policy; the default where none is stored.
    pub fn load_cache_config(&self) -> (r: Result<CacheConfig, StorageError>)
        ensures
            exists|outcome: Result<Option<Vec<u8>>, StorageError>|
                (self.has_model() ==> outcome is Ok && retrieved(
                    self.contents(),
                    CACHE_CONFIG_KEY@,
                    outcome,
                )) && #[trigger] loaded_cache_config(outcome) == plain_result(r),
            self.has_model() && !self.contents().contains_key(CACHE_CONFIG_KEY@) ==> (r matches Ok(
                config,
            ) && config.refresh_interval == 0 && config.max_age == 3600),
    {
        let outcome = self.adapter.retrieve(CACHE_CONFIG_KEY);
        let r = load_cache_config_from(outcome);
        assert(loaded_cache_config(outcome) == plain_result(r));
        r
    }

    /// Removes every record.
    pub fn clear_all(&mut self) -> (r: Result<(), StorageError>)
        ensures
            final(self).has_model() == old(self).has_model(),
            old(self).has_model() && r is Ok ==> final(self).contents() == Map::<
                Seq<char>,
                Seq<u8>,
            >::empty(),
            old(self).has_model() && r is Err ==> final(self).contents().dom().subset_of(
                old(self).contents().dom(),
            ),
    {
        self.adapter.clear()
    }

    /// Whether a registry list is stored: whether the adapter, asked for the
    /// list, answers with one. It is false where the adapter cannot read. Over
    /// a store with a model it is false before anything is saved, and true
    /// from the first successful save of the registry list on.
    pub fn has_config(&self) -> (r: bool)
        ensures
            exists|outcome: Result<Option<Vec<u8>>, StorageError>|
                (self.has_model() ==> retrieved(self.contents(), REGISTRIES_KEY@, outcome)) && r
                    == #[trigger] shows_record(outcome),
            self.has_model() ==> r == self.contents().contains_key(REGISTRIES_KEY@),
    {
        let outcome = self.adapter.retrieve(REGISTRIES_KEY);
        let r = match outcome {
            Ok(Some(_)) => true,
            _ => false,
        };
        assert(r == shows_record(outcome));
        r
    }
}

} // verus!
