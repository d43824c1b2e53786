//! Unlocking the vault with the operator's passphrase.

use crate::storage::adapter::{retrieved, storage_error_text, StorageAdapter, StorageError};
use crate::storage::encryption::{init_key, second_key_error, Vault};
use crate::storage::service::{loaded_registries, registries_result, StorageService, REGISTRIES_KEY};
use sha2::Digest;
use vstd::prelude::*;
use vstd::utf8::encode_utf8;

verus! {

/// Names the result of SHA-256: the digest of `bytes`, 32 bytes long.
pub uninterp spec fn sha256(bytes: Seq<u8>) -> Seq<u8>;

/// `Sha256::new`, `update` and `finalize`: the SHA-256 digest of `bytes`,
/// which depends on the bytes alone.
#[verifier::external_body]
fn sha256_digest(bytes: &[u8]) -> (out: [u8; 32])
    ensures
        out@ == sha256(bytes@),
{
    let mut hasher = sha2::Sha256::new();
    hasher.update(bytes);
    let digest = hasher.finalize();
    let mut out = [0u8; 32];
    out.copy_from_slice(&digest);
    out
}

/// The key that a passphrase stands for.
pub open spec fn key_of_passphrase(passphrase: Seq<char>) -> Seq<u8> {
    sha256(encode_utf8(passphrase))
}

/// The key that a passphrase stands for: the SHA-256 digest of its UTF-8
/// bytes.
pub fn derive_key(passphrase: &str) -> (key: [u8; 32])
    ensures
        key@ == key_of_passphrase(passphrase@),
{
    sha256_digest(passphrase.as_bytes())
}

/// The message for a vault that has its key already: the key cannot be set
/// a second time, and the application must be started again to set another.
pub open spec fn restart_required() -> Seq<char> {
    storage_error_text(second_key_error())
        + ". Please restart the application to set a new key."@
}

/// What checking the key against the stored registry list gives: nothing to
/// report where the list loads, else a message that says that the passphrase
/// is wrong or the configuration corrupt.
pub open spec fn key_check(
    key: Option<Seq<u8>>,
    outcome: Result<Option<Vec<u8>>, StorageError>,
) -> Result<(), Seq<char>> {
    match loaded_registries(key, outcome) {
        Ok(_) => Ok(()),
        Err(e) => Err(
            "Incorrect password or corrupt configuration. Error: "@ + storage_error_text(e),
        ),
    }
}

/// A result without a value as mathematics.
pub open spec fn unlock_result(r: Result<(), String>) -> Result<(), Seq<char>> {
    match r {
        Ok(_) => Ok(()),
        Err(message) => Err(message@),
    }
}

/// Unlocks the vault with the operator's passphrase. An empty passphrase is
/// refused. A vault that has its key already refuses a second one: that is an
/// error that asks for a restart, the key stays, and nothing is loaded. Else
/// the key derived from the passphrase is supplied to the vault. On a first
/// run there is nothing to check the key against. Else the stored registry
/// list must load under the key: where it does not, the passphrase is wrong or
/// the configuration is corrupt.
pub fn unlock<A: StorageAdapter>(
    vault: &mut Vault,
    storage: &StorageService<A>,
    passphrase: &str,
    first_run: bool,
) -> (r: Result<(), String>)
    ensures
        passphrase@.len() == 0 ==> final(vault).key() == old(vault).key() && (r matches Err(
            message,
        ) && message@ == "Password cannot be empty."@),
        passphrase@.len() > 0 && old(vault).key() is Some ==> final(vault).key() == old(
            vault,
        ).key() && (r matches Err(message) && message@ == restart_required()),
        passphrase@.len() > 0 && old(vault).key() is None ==> final(vault).key() == Some(
            key_of_passphrase(passphrase@),
        ),
        passphrase@.len() > 0 && old(vault).key() is None && first_run ==> r is Ok,
        passphrase@.len() > 0 && old(vault).key() is None && !first_run ==> exists|
            outcome: Result<Option<Vec<u8>>, StorageError>,
        |
            (storage.has_model() ==> outcome is Ok && retrieved(
                storage.contents(),
                REGISTRIES_KEY@,
                outcome,
            )) && #[trigger] key_check(final(vault).key(), outcome) == unlock_result(r),
{
    if passphrase.is_empty() {
        return Err("Password cannot be empty.".to_string());
    }
    let key = derive_key(passphrase);
    match init_key(vault, key) {
        Ok(_) => {},
        Err(e) => {
            let mut message = e.message();
            message.append(". Please restart the application to set a new key.");
            return Err(message);
        },
    }
    if first_run {
        return Ok(());
    }
    let loaded = storage.load_registries(vault);
    let ghost outcome = choose|outcome: Result<Option<Vec<u8>>, StorageError>|
        (storage.has_model() ==> outcome is Ok && retrieved(
            storage.contents(),
            REGISTRIES_KEY@,
            outcome,
        )) && #[trigger] loaded_registries(vault.key(), outcome) == registries_result(loaded);
    let r = match loaded {
        Ok(_) => Ok(()),
        Err(e) => {
            let mut message = "Incorrect password or corrupt configuration. Error: ".to_string();
            message.append(e.message().as_str());
            Err(message)
        },
    };
    assert(key_check(vault.key(), outcome) == unlock_result(r));
    r
}

} // verus!
