//! The storage adapter: a key-value store for bytes.

use crate::text::prefixed;
use vstd::prelude::*;

verus! {

/// An error of the storage layer.
#[derive(Debug, PartialEq)]
pub enum StorageError {
    /// The platform offers no storage.
    NotAvailable,
    /// Nothing is stored under the key.
    NotFound(String),
    /// A record could not be written as, or read from, its stored form.
    SerializationError(String),
    /// A secret could not be encrypted or decrypted.
    EncryptionError(String),
    /// The platform's storage failed.
    IoError(String),
}

/// A `StorageError` as mathematics.
pub enum StorageErrorView {
    NotAvailable,
    NotFound(Seq<char>),
    SerializationError(Seq<char>),
    EncryptionError(Seq<char>),
    IoError(Seq<char>),
}

impl View for StorageError {
    type V = StorageErrorView;

    open spec fn view(&self) -> StorageErrorView {
        match self {
            StorageError::NotAvailable => StorageErrorView::NotAvailable,
            StorageError::NotFound(m) => StorageErrorView::NotFound(m@),
            StorageError::SerializationError(m) => StorageErrorView::SerializationError(m@),
            StorageError::EncryptionError(m) => StorageErrorView::EncryptionError(m@),
            StorageError::IoError(m) => StorageErrorView::IoError(m@),
        }
    }
}

/// The text that describes a storage error.
pub open spec fn storage_error_text(e: StorageErrorView) -> Seq<char> {
    match e {
        StorageErrorView::NotAvailable => "Storage not available"@,
        StorageErrorView::NotFound(m) => "Key not found: "@ + m,
        StorageErrorView::SerializationError(m) => "Serialization error: "@ + m,
        StorageErrorView::EncryptionError(m) => "Encryption error: "@ + m,
        StorageErrorView::IoError(m) => "IO error: "@ + m,
    }
}

impl StorageError {
    /// The text that describes this error.
    pub fn message(&self) -> (out: String)
        ensures
            out@ == storage_error_text(self@),
    {
        match self {
            StorageError::NotAvailable => "Storage not available".to_string(),
            StorageError::NotFound(m) => prefixed("Key not found: ", m.as_str()),
            StorageError::SerializationError(m) => prefixed("Serialization error: ", m.as_str()),
            StorageError::EncryptionError(m) => prefixed("Encryption error: ", m.as_str()),
            StorageError::IoError(m) => prefixed("IO error: ", m.as_str()),
        }
    }
}

impl Clone for StorageError {
    fn clone(&self) -> (out: Self)
        ensures
            out@ == self@,
    {
        match self {
            StorageError::NotAvailable => StorageError::NotAvailable,
            StorageError::NotFound(m) => StorageError::NotFound(m.clone()),
            StorageError::SerializationError(m) => StorageError::SerializationError(m.clone()),
            StorageError::EncryptionError(m) => StorageError::EncryptionError(m.clone()),
            StorageError::IoError(m) => StorageError::IoError(m.clone()),
        }
    }
}

/// What a well-behaved adapter may answer when asked for `key` while it
/// holds `contents`: the bytes stored under the key, nothing where nothing is
/// stored, or an error.
pub open spec fn retrieved(
    contents: Map<Seq<char>, Seq<u8>>,
    key: Seq<char>,
    outcome: Result<Option<Vec<u8>>, StorageError>,
) -> bool {
    match outcome {
        Ok(Some(data)) => contents.contains_key(key) && contents[key] == data@,
        Ok(None) => !contents.contains_key(key),
        Err(_) => true,
    }
}

/// A key-value store for bytes, which each platform implements over the
/// storage it has.
///
/// An adapter that keeps its records itself can say what it holds: it has a
/// model, its methods keep to the model as the contracts below say, and it
/// never fails to read. An adapter over storage that others can change has no
/// model, and nothing is promised of it.
pub trait StorageAdapter {
    /// Whether `contents` tells what the store holds.
    open spec fn has_model(&self) -> bool {
        false
    }

    /// The records that the store holds, for a store that has a model.
    open spec fn contents(&self) -> Map<Seq<char>, Seq<u8>> {
        Map::empty()
    }

    /// Stores `data` under `key`, in place of what was stored there.
    fn store(&mut self, key: &str, data: &[u8]) -> (r: Result<(), StorageError>)
        ensures
            final(self).has_model() == old(self).has_model(),
            old(self).has_model() && r is Ok ==> final(self).contents() == old(
                self,
            ).contents().insert(key@, data@),
            old(self).has_model() && r is Err ==> final(self).contents() == old(self).contents(),
    ;

    /// The bytes stored under `key`, if any.
    fn retrieve(&self, key: &str) -> (r: Result<Option<Vec<u8>>, StorageError>)
        ensures
            self.has_model() ==> r is Ok && retrieved(self.contents(), key@, r),
    ;

    /// Removes what is stored under `key`, if anything.
    fn remove(&mut self, key: &str) -> (r: Result<(), StorageError>)
        ensures
            final(self).has_model() == old(self).has_model(),
            old(self).has_model() && r is Ok ==> final(self).contents() == old(
                self,
            ).contents().remove(key@),
            old(self).has_model() && r is Err ==> final(self).contents() == old(self).contents(),
    ;

    /// Removes every record.
    fn clear(&mut self) -> (r: Result<(), StorageError>)
        ensures
            final(self).has_model() == old(self).has_model(),
            old(self).has_model() && r is Ok ==> final(self).contents() == Map::<
                Seq<char>,
                Seq<u8>,
            >::empty(),
            old(self).has_model() && r is Err ==> final(self).contents().dom().subset_of(
                old(self).contents().dom(),
            ),
    ;

    /// The keys under which something is stored, in no particular order.
    fn keys(&self) -> (r: Result<Vec<String>, StorageError>)
        ensures
            self.has_model() ==> (r matches Ok(keys) ==> forall|k: Seq<char>|
                self.contents().contains_key(k) <==> crate::text::texts(keys@).contains(k)),
    ;
}

} // verus!
