//! The credential vault: authenticated encryption of secret strings.
//!
//! A secret is sealed with AES-256-GCM under a fresh 96-bit nonce. What is
//! stored is the base64 text of the nonce followed by the sealed bytes.

use crate::codec::{
    base64_bytes, base64_decode, base64_encode, base64_fits, base64_text, bytes_ok, fits_base64,
    text_from_utf8, utf8_error_text,
};
use crate::storage::adapter::{StorageError, StorageErrorView};
use aes_gcm::aead::{Aead, KeyInit};
use rand::Rng;
use vstd::prelude::*;
use vstd::slice::slice_subrange;
use vstd::utf8::{decode_utf8, encode_utf8, valid_utf8};

verus! {

/// The length of a nonce in bytes.
pub const NONCE_LEN: usize = 12;

/// The most plain bytes that the cipher seals at once: 2^36.
pub const CIPHER_LIMIT: u64 = 0x10_0000_0000;

/// The message of the error for sealed bytes whose base64 text would be
/// longer than a text can be.
pub const TOO_LONG_TO_ENCODE: &'static str = "Encrypted data too long to encode";

/// Names the result of `Aes256Gcm::encrypt`: the sealed bytes, or the
/// message of the error.
pub uninterp spec fn aes_gcm_sealed(key: Seq<u8>, nonce: Seq<u8>, plaintext: Seq<u8>) -> Result<
    Seq<u8>,
    Seq<char>,
>;

/// Names the result of `Aes256Gcm::decrypt`: the plain bytes, or the message
/// of the error.
pub uninterp spec fn aes_gcm_opened(key: Seq<u8>, nonce: Seq<u8>, sealed: Seq<u8>) -> Result<
    Seq<u8>,
    Seq<char>,
>;

/// `Aes256Gcm::new_from_slice` and `Aead::encrypt`, without associated data.
/// The outcome depends on key, nonce and plain bytes alone. The call fails
/// only for more plain bytes than the cipher takes, which are 2^36. What it
/// seals is the plain bytes followed by a tag of 16 bytes, and opens again,
/// under the same key and nonce, to the plain bytes.
#[verifier::external_body]
fn aes_seal(key: &[u8; 32], nonce: &[u8; 12], plaintext: &[u8]) -> (r: Result<Vec<u8>, String>)
    ensures
        crate::codec::bytes_result(r) == aes_gcm_sealed(key@, nonce@, plaintext@),
        r is Ok <==> plaintext@.len() <= CIPHER_LIMIT,
        r matches Ok(sealed) ==> sealed@.len() == plaintext@.len() + 16,
        r matches Ok(sealed) ==> aes_gcm_opened(key@, nonce@, sealed@) == bytes_ok(plaintext@),
{
    let cipher = aes_gcm::Aes256Gcm::new_from_slice(key).map_err(|e| e.to_string())?;
    cipher.encrypt(aes_gcm::Nonce::from_slice(nonce), plaintext).map_err(|e| e.to_string())
}

/// `Aes256Gcm::new_from_slice` and `Aead::decrypt`, without associated data.
/// The outcome depends on key, nonce and sealed bytes alone. A nonce of
/// another length than 12 makes the call panic, which `requires` leaves out.
#[verifier::external_body]
fn aes_open(key: &[u8; 32], nonce: &[u8], sealed: &[u8]) -> (r: Result<Vec<u8>, String>)
    requires
        nonce@.len() == 12,
    ensures
        crate::codec::bytes_result(r) == aes_gcm_opened(key@, nonce@, sealed@),
{
    let cipher = aes_gcm::Aes256Gcm::new_from_slice(key).map_err(|e| e.to_string())?;
    cipher.decrypt(aes_gcm::Nonce::from_slice(nonce), sealed).map_err(|e| e.to_string())
}

/// `rand::rng().fill`: twelve random bytes, of which nothing is promised.
/// The call panics where the system gives no randomness.
#[verifier::external_body]
fn fresh_nonce() -> [u8; 12] {
    let mut nonce = [0u8; 12];
    rand::rng().fill(&mut nonce);
    nonce
}

/// The vault: it holds the key once the key has been supplied.
pub struct Vault {
    key: Option<[u8; 32]>,
}

/// A text result as mathematics.
pub open spec fn text_result(r: Result<String, StorageError>) -> Result<
    Seq<char>,
    StorageErrorView,
> {
    match r {
        Ok(text) => Ok(text@),
        Err(e) => Err(e@),
    }
}

/// The outcome that holds `text`.
pub open spec fn text_ok(text: Seq<char>) -> Result<Seq<char>, StorageErrorView> {
    Ok(text)
}

/// The error of a vault that has no key yet.
pub open spec fn no_key_error() -> StorageErrorView {
    StorageErrorView::EncryptionError("Encryption key not initialized"@)
}

/// The error of supplying a key to a vault that has one.
pub open spec fn second_key_error() -> StorageErrorView {
    StorageErrorView::EncryptionError("Encryption key already initialized"@)
}

/// Whether a secret is short enough to be sealed and encoded: the base64
/// text of nonce, secret and tag has a length that fits in `usize`.
pub open spec fn sealable(data: Seq<char>) -> bool {
    base64_fits(12 + encode_utf8(data).len() + 16)
}

/// Whether the vault can encrypt `data`: the empty secret always; any other
/// with the key, where it is no longer than the cipher takes and short enough
/// to be encoded.
pub open spec fn encryption_succeeds(key: Option<Seq<u8>>, data: Seq<char>) -> bool {
    data.len() == 0 || (key is Some && encode_utf8(data).len() <= CIPHER_LIMIT && sealable(data))
}

/// What encrypting `data` under `nonce` gives. The empty secret encrypts to
/// the empty text, with or without a key. Any other secret needs the key, and
/// gives the base64 text of the nonce followed by the sealed bytes, unless
/// that text would be longer than a text can be.
pub open spec fn encrypt_outcome(key: Option<Seq<u8>>, nonce: Seq<u8>, data: Seq<char>) -> Result<
    Seq<char>,
    StorageErrorView,
> {
    if data.len() == 0 {
        Ok(Seq::empty())
    } else {
        match key {
            None => Err(no_key_error()),
            Some(k) => match aes_gcm_sealed(k, nonce, encode_utf8(data)) {
                Ok(sealed) => if base64_fits((nonce + sealed).len()) {
                    Ok(base64_text(nonce + sealed))
                } else {
                    Err(StorageErrorView::EncryptionError(TOO_LONG_TO_ENCODE@))
                },
                Err(m) => Err(StorageErrorView::EncryptionError(m)),
            },
        }
    }
}

/// What decrypting the stored text `data` gives. The empty text decrypts to
/// the empty secret. Any other text must be base64 of at least a nonce; then
/// the key is needed; then the rest must open under the key and the nonce, to
/// bytes that are UTF-8.
pub open spec fn decrypt_outcome(key: Option<Seq<u8>>, data: Seq<char>) -> Result<
    Seq<char>,
    StorageErrorView,
> {
    if data.len() == 0 {
        Ok(Seq::empty())
    } else {
        match base64_bytes(data) {
            Err(m) => Err(StorageErrorView::EncryptionError(m)),
            Ok(blob) => if blob.len() < 12 {
                Err(StorageErrorView::EncryptionError("Invalid encrypted data"@))
            } else {
                match key {
                    None => Err(no_key_error()),
                    Some(k) => match aes_gcm_opened(k, blob.take(12), blob.skip(12)) {
                        Err(m) => Err(StorageErrorView::EncryptionError(m)),
                        Ok(plain) => if valid_utf8(plain) {
                            Ok(decode_utf8(plain))
                        } else {
                            Err(StorageErrorView::EncryptionError(utf8_error_text(plain)))
                        },
                    },
                }
            },
        }
    }
}

/// Whether the stored text `stored` holds `data` sealed under `key` and
/// `nonce`: it is not empty, it is base64 of the nonce followed by bytes,
/// and those bytes open to `data`.
pub open spec fn holds_sealed(
    stored: Seq<char>,
    key: Seq<u8>,
    nonce: Seq<u8>,
    data: Seq<char>,
) -> bool {
    exists|sealed: Seq<u8>| #[trigger]
        seals(stored, key, nonce, data, sealed)
}

/// Whether `stored` is the base64 text of `nonce` followed by `sealed`, and
/// `sealed` opens to `data`.
pub open spec fn seals(
    stored: Seq<char>,
    key: Seq<u8>,
    nonce: Seq<u8>,
    data: Seq<char>,
    sealed: Seq<u8>,
) -> bool {
    &&& stored.len() > 0
    &&& base64_bytes(stored) == bytes_ok(nonce + sealed)
    &&& aes_gcm_opened(key, nonce, sealed) == bytes_ok(encode_utf8(data))
}

/// Decryption inverts encryption: a stored text that holds `data` sealed
/// under `key` decrypts to `data` under that key.
pub proof fn lemma_decrypt_inverts_encrypt(
    stored: Seq<char>,
    key: Seq<u8>,
    nonce: Seq<u8>,
    data: Seq<char>,
)
    requires
        nonce.len() == 12,
        holds_sealed(stored, key, nonce, data),
    ensures
        decrypt_outcome(Some(key), stored) == text_ok(data),
{
    let sealed = choose|sealed: Seq<u8>| seals(stored, key, nonce, data, sealed);
    let blob = nonce + sealed;
    assert(blob.take(12) =~= nonce);
    assert(blob.skip(12) =~= sealed);
    vstd::utf8::encode_utf8_valid_utf8(data);
    vstd::utf8::encode_utf8_decode_utf8(data);
}

/// Fresh nonces give fresh texts: two stored texts that hold a secret sealed
/// under different nonces differ.
pub proof fn lemma_nonces_tell_apart(
    first: Seq<char>,
    second: Seq<char>,
    key: Seq<u8>,
    nonce1: Seq<u8>,
    nonce2: Seq<u8>,
    data: Seq<char>,
)
    requires
        nonce1.len() == 12,
        nonce2.len() == 12,
        nonce1 != nonce2,
        holds_sealed(first, key, nonce1, data),
        holds_sealed(second, key, nonce2, data),
    ensures
        first != second,
{
    let sealed1 = choose|sealed: Seq<u8>| seals(first, key, nonce1, data, sealed);
    let sealed2 = choose|sealed: Seq<u8>| seals(second, key, nonce2, data, sealed);
    if first == second {
        assert(nonce1 + sealed1 == nonce2 + sealed2);
        assert((nonce1 + sealed1).take(12) =~= nonce1);
        assert((nonce2 + sealed2).take(12) =~= nonce2);
    }
}

impl Vault {
    /// The key that the vault holds, if it has been supplied.
    pub closed spec fn key(&self) -> Option<Seq<u8>> {
        match self.key {
            Some(k) => Some(k@),
            None => None,
        }
    }

    /// A vault without a key.
    pub fn new() -> (out: Self)
        ensures
            out.key() is None,
    {
        Vault { key: None }
    }

    /// Whether the key has been supplied.
    pub fn is_unlocked(&self) -> (r: bool)
        ensures
            r == self.key() is Some,
    {
        self.key.is_some()
    }
}

/// Supplies the key. A vault takes its key once: a second key is refused and
/// the first stays.
pub fn init_key(vault: &mut Vault, key: [u8; 32]) -> (r: Result<(), StorageError>)
    ensures
        old(vault).key() is None ==> r is Ok && final(vault).key() == Some(key@),
        old(vault).key() is Some ==> final(vault).key() == old(vault).key() && (r matches Err(e)
            && e@ == second_key_error()),
{
    if vault.key.is_some() {
        Err(StorageError::EncryptionError("Encryption key already initialized".to_string()))
    } else {
        vault.key = Some(key);
        Ok(())
    }
}

/// Encrypts `data` under the nonce given.
pub fn encrypt_string_with_nonce(vault: &Vault, data: &str, nonce: &[u8; 12]) -> (r: Result<
    String,
    StorageError,
>)
    ensures
        text_result(r) == encrypt_outcome(vault.key(), nonce@, data@),
        r is Ok <==> encryption_succeeds(vault.key(), data@),
        r matches Ok(stored) ==> decrypt_outcome(vault.key(), stored@) == text_ok(data@),
        r matches Ok(stored) ==> data@.len() > 0 ==> vault.key() is Some && holds_sealed(
            stored@,
            vault.key()->0,
            nonce@,
            data@,
        ),
{
    if data.is_empty() {
        assert(data@ =~= Seq::<char>::empty());
        return Ok(String::new());
    }
    let key = match &vault.key {
        Some(k) => k,
        None => {
            return Err(StorageError::EncryptionError("Encryption key not initialized".to_string()));
        },
    };
    let sealed = match aes_seal(key, nonce, data.as_bytes()) {
        Ok(sealed) => sealed,
        Err(m) => {
            return Err(StorageError::EncryptionError(m));
        },
    };
    let mut blob: Vec<u8> = Vec::new();
    blob.extend_from_slice(nonce.as_slice());
    blob.extend_from_slice(sealed.as_slice());
    assert(blob@ =~= nonce@ + sealed@);
    if !fits_base64(blob.len()) {
        return Err(StorageError::EncryptionError(TOO_LONG_TO_ENCODE.to_string()));
    }
    let stored = base64_encode(blob.as_slice());
    proof {
        assert(seals(stored@, key@, nonce@, data@, sealed@));
        lemma_decrypt_inverts_encrypt(stored@, key@, nonce@, data@);
    }
    Ok(stored)
}

/// Encrypts `data` under a fresh random nonce.
pub fn encrypt_string(vault: &Vault, data: &str) -> (r: Result<String, StorageError>)
    ensures
        exists|nonce: Seq<u8>|
            nonce.len() == 12 && #[trigger] encrypt_outcome(vault.key(), nonce, data@)
                == text_result(r),
        r is Ok <==> encryption_succeeds(vault.key(), data@),
        r matches Ok(stored) ==> decrypt_outcome(vault.key(), stored@) == text_ok(data@),
{
    let nonce = fresh_nonce();
    let r = encrypt_string_with_nonce(vault, data, &nonce);
    assert(encrypt_outcome(vault.key(), nonce@, data@) == text_result(r));
    r
}

/// Decrypts a stored text.
pub fn decrypt_string(vault: &Vault, data: &str) -> (r: Result<String, StorageError>)
    ensures
        text_result(r) == decrypt_outcome(vault.key(), data@),
{
    if data.is_empty() {
        return Ok(String::new());
    }
    let blob = match base64_decode(data) {
        Ok(blob) => blob,
        Err(m) => {
            return Err(StorageError::EncryptionError(m));
        },
    };
    if blob.len() < NONCE_LEN {
        return Err(StorageError::EncryptionError("Invalid encrypted data".to_string()));
    }
    let key = match &vault.key {
        Some(k) => k,
        None => {
            return Err(StorageError::EncryptionError("Encryption key not initialized".to_string()));
        },
    };
    let nonce = slice_subrange(blob.as_slice(), 0, NONCE_LEN);
    let sealed = slice_subrange(blob.as_slice(), NONCE_LEN, blob.len());
    assert(nonce@ =~= blob@.take(12));
    assert(sealed@ =~= blob@.skip(12));
    let plain = match aes_open(key, nonce, sealed) {
        Ok(plain) => plain,
        Err(m) => {
            return Err(StorageError::EncryptionError(m));
        },
    };
    match text_from_utf8(plain) {
        Ok(text) => Ok(text),
        Err(m) => Err(StorageError::EncryptionError(m)),
    }
}

} // verus!
