//! How the platforms name the records they store.

use crate::codec::{base64_bytes, base64_decode, base64_encode, base64_fits, base64_text};
use crate::storage::adapter::{StorageError, StorageErrorView};
use crate::text::{chars_of, string_from};
use vstd::prelude::*;

verus! {

/// The prefix of the keys that the browser's storage holds for this
/// application.
pub const STORAGE_PREFIX: &'static str = "drm_";

/// Whether a character may not stand in a file name.
pub open spec fn is_unsafe_in_file_name(c: char) -> bool {
    c == '/' || c == '\\' || c == ':' || c == '*' || c == '?' || c == '"' || c == '<' || c == '>'
        || c == '|'
}

/// `key` with every character that may not stand in a file name replaced by
/// an underscore.
pub open spec fn safe_key(key: Seq<char>) -> Seq<char> {
    Seq::new(
        key.len(),
        |i: int|
            if is_unsafe_in_file_name(key[i]) {
                '_'
            } else {
                key[i]
            },
    )
}

/// The name of the file that holds the record of `key`.
pub fn key_to_file_name(key: &str) -> (out: String)
    ensures
        out@ == safe_key(key@) + ".dat"@,
{
    let chars = chars_of(key);
    let mut safe: Vec<char> = Vec::new();
    let mut i: usize = 0;
    while i < chars.len()
        invariant
            0 <= i <= chars@.len(),
            chars@ == key@,
            safe@.len() == i,
            forall|j: int| 0 <= j < i ==> safe@[j] == safe_key(key@)[j],
        decreases chars@.len() - i,
    {
        let c = chars[i];
        if c == '/' || c == '\\' || c == ':' || c == '*' || c == '?' || c == '"' || c == '<' || c
            == '>' || c == '|' {
            safe.push('_');
        } else {
            safe.push(c);
        }
        i += 1;
    }
    assert(safe@ =~= safe_key(key@));
    let mut out = string_from(&safe);
    out.append(".dat");
    out
}

/// The key under which the browser's storage holds the record of `key`.
pub fn prefixed_key(key: &str) -> (out: String)
    ensures
        out@ == STORAGE_PREFIX@ + key@,
{
    let mut out = STORAGE_PREFIX.to_string();
    out.append(key);
    out
}

/// The key of a record that the browser's storage holds under `stored`, if
/// it is one of this application.
pub fn unprefixed_key(stored: &str) -> (r: Option<String>)
    ensures
        match r {
            Some(key) => stored@ == STORAGE_PREFIX@ + key@,
            None => !STORAGE_PREFIX@.is_prefix_of(stored@),
        },
{
    let chars = chars_of(stored);
    let prefix = chars_of(STORAGE_PREFIX);
    assert(chars@.subrange(0, chars@.len() as int) == chars@);
    if crate::text::starts_with_at(&chars, 0, chars.len(), &prefix) {
        let key = crate::text::string_of(&chars, prefix.len(), chars.len());
        assert(stored@ =~= STORAGE_PREFIX@ + key@);
        Some(key)
    } else {
        None
    }
}

/// The bytes that a text in the browser's storage stands for: the text is
/// base64, and a text that is none is a serialization error.
pub open spec fn unwrapped(stored: Seq<char>) -> Result<Seq<u8>, StorageErrorView> {
    match base64_bytes(stored) {
        Ok(data) => Ok(data),
        Err(message) => Err(StorageErrorView::SerializationError(message)),
    }
}

/// A result that holds bytes, as mathematics.
pub open spec fn data_result(r: Result<Vec<u8>, StorageError>) -> Result<
    Seq<u8>,
    StorageErrorView,
> {
    match r {
        Ok(data) => Ok(data@),
        Err(e) => Err(e@),
    }
}

/// The text that the browser's storage holds for a record: the base64 text
/// of its bytes, which unwraps to the bytes again.
pub fn wrap_for_browser(data: &[u8]) -> (out: String)
    requires
        base64_fits(data@.len()),
    ensures
        out@ == base64_text(data@),
        unwrapped(out@) matches Ok(back) && back == data@,
{
    base64_encode(data)
}

/// The bytes of a record that the browser's storage holds as `stored`.
pub fn unwrap_from_browser(stored: &str) -> (r: Result<Vec<u8>, StorageError>)
    ensures
        data_result(r) == unwrapped(stored@),
{
    match base64_decode(stored) {
        Ok(data) => Ok(data),
        Err(message) => Err(StorageError::SerializationError(message)),
    }
}

} // verus!
