//! The persistent metadata store.
//!
//! A sled database maps canonical blob paths to encoded metadata records.
//! The database itself is reached only through a narrow trusted layer whose
//! contracts speak of an abstract map from path to stored bytes; everything
//! above that — encoding, decoding, the default-on-miss read, the
//! create-only insert — is verified.

use crate::codec::{decode_metadata, encode_metadata, spec_decode, spec_encode};
use crate::metadata::{is_default_record, BlobMetadata, BlobMetadataView};
use crate::paths::{BlobPath, PathDoesntExist, PathExists};
use crate::ApiError;
use vstd::prelude::*;

verus! {

/// The embedded key-value database, opaque to verification.
#[verifier::external_type_specification]
#[verifier::external_body]
pub struct ExDb(sled::Db);

/// What the database holds: stored bytes, keyed by path.
pub uninterp spec fn db_view(db: sled::Db) -> Map<Seq<char>, Seq<u8>>;

/// What lookup of a path finds in a store: no record, a record that does
/// not decode, or a decoded record.
pub enum StoredState {
    Missing,
    Corrupt,
    Present(BlobMetadataView),
}

/// The record-level reading of the byte-level store at one path.
pub open spec fn stored_state(store: Map<Seq<char>, Seq<u8>>, path: Seq<char>) -> StoredState {
    if !store.contains_key(path) {
        StoredState::Missing
    } else {
        match spec_decode(store[path]) {
            Some(v) => StoredState::Present(v),
            None => StoredState::Corrupt,
        }
    }
}

/// Relies on sled::open: opens (creating if absent) the database at the
/// given path. Nothing is assumed about what it already holds.
#[verifier::external_body]
fn kv_open(path: &str) -> (r: Result<sled::Db, ApiError>)
    ensures
        r matches Err(e) ==> e == ApiError::Internal,
{
    sled::open(path).map_err(|_| ApiError::Internal)
}

/// Relies on sled::Config::temporary: opens a fresh database in a
/// throwaway location, removed again when the handle is dropped.
#[verifier::external_body]
fn kv_open_temporary() -> (r: Result<sled::Db, ApiError>)
    ensures
        r matches Err(e) ==> e == ApiError::Internal,
{
    sled::Config::new().temporary(true).open().map_err(|_| ApiError::Internal)
}

/// Relies on sled::Tree::get: returns the bytes stored under the key, or
/// nothing when the key is unbound.
#[verifier::external_body]
fn kv_get(db: &sled::Db, key: &str) -> (r: Result<Option<Vec<u8>>, ApiError>)
    ensures
        match r {
            Ok(Some(v)) => db_view(*db).contains_key(key@) && db_view(*db)[key@] == v@,
            Ok(None) => !db_view(*db).contains_key(key@),
            Err(e) => e == ApiError::Internal,
        },
{
    match db.get(key.as_bytes()) {
        Ok(Some(iv)) => Ok(Some(iv.to_vec())),
        Ok(None) => Ok(None),
        Err(_) => Err(ApiError::Internal),
    }
}

/// Relies on sled::Tree::insert: on success the key is bound to exactly
/// the given bytes and no other binding changes. After a reported failure
/// nothing is assumed of the store.
#[verifier::external_body]
fn kv_insert(db: &mut sled::Db, key: &str, value: &[u8]) -> (r: Result<(), ApiError>)
    ensures
        match r {
            Ok(_) => db_view(*final(db)) == db_view(*old(db)).insert(key@, value@),
            Err(e) => e == ApiError::Internal,
        },
{
    db.insert(key.as_bytes(), value).map(|_| ()).map_err(|_| ApiError::Internal)
}

/// Relies on sled::Tree::remove: on success the key is unbound and no
/// other binding changes. After a reported failure nothing is assumed of
/// the store.
#[verifier::external_body]
fn kv_remove(db: &mut sled::Db, key: &str) -> (r: Result<(), ApiError>)
    ensures
        match r {
            Ok(_) => db_view(*final(db)) == db_view(*old(db)).remove(key@),
            Err(e) => e == ApiError::Internal,
        },
{
    db.remove(key.as_bytes()).map(|_| ()).map_err(|_| ApiError::Internal)
}

/// The persistent map from canonical blob path to metadata record.
pub struct MetadataManager {
    db: sled::Db,
}

impl View for MetadataManager {
    type V = Map<Seq<char>, Seq<u8>>;

    closed spec fn view(&self) -> Map<Seq<char>, Seq<u8>> {
        db_view(self.db)
    }
}

impl MetadataManager {
    /// Opens the store at the given filesystem path, creating it when
    /// absent. Its initial contents are whatever the database already held.
    pub fn new(path: &str) -> (r: Result<Self, ApiError>)
        ensures
            r matches Err(e) ==> e == ApiError::Internal,
    {
        let db = kv_open(path)?;
        Ok(MetadataManager { db })
    }

    /// Opens a throwaway store in a temporary location, removed when the
    /// handle is dropped.
    pub fn new_temporary() -> (r: Result<Self, ApiError>)
        ensures
            r matches Err(e) ==> e == ApiError::Internal,
    {
        let db = kv_open_temporary()?;
        Ok(MetadataManager { db })
    }

    /// The stored record for the path; a path with no record reads as a
    /// fresh default record (content type `text`, newly generated access
    /// key, no deletion date). A record that does not decode is reported as
    /// a failure, never guessed around.
    pub fn get_metadata(&self, blob_path: &BlobPath<PathExists>) -> (r: Result<
        BlobMetadata,
        ApiError,
    >)
        ensures
            match r {
                Ok(m) => match stored_state(self@, blob_path@) {
                    StoredState::Missing => is_default_record(m@),
                    StoredState::Present(v) => m@ == v,
                    StoredState::Corrupt => false,
                },
                Err(e) => e == ApiError::Internal,
            },
    {
        let bytes = kv_get(&self.db, blob_path.as_str())?;
        match bytes {
            Some(data) => {
                match decode_metadata(&data) {
                    Some(m) => Ok(m),
                    None => Err(ApiError::Internal),
                }
            },
            None => Ok(BlobMetadata::default()),
        }
    }

    /// Create-only insert: fails with `Conflict`, changing nothing, when
    /// the path already has a record; otherwise binds the path to exactly
    /// this record. Metadata creation is a one-time event per path.
    pub fn create_metadata(
        &mut self,
        blob_path: &BlobPath<PathDoesntExist>,
        metadata: &BlobMetadata,
    ) -> (r: Result<(), ApiError>)
        ensures
            match r {
                Ok(_) => !old(self)@.contains_key(blob_path@) && final(self)@ == old(self)@.insert(
                    blob_path@,
                    spec_encode(metadata@),
                ),
                Err(e) => {
                    &&& (e == ApiError::Conflict || e == ApiError::Internal)
                    &&& e == ApiError::Conflict ==> old(self)@.contains_key(blob_path@)
                        && final(self)@ == old(self)@
                },
            },
    {
        let existing = kv_get(&self.db, blob_path.as_str())?;
        if existing.is_some() {
            return Err(ApiError::Conflict);
        }
        let bytes = encode_metadata(metadata);
        kv_insert(&mut self.db, blob_path.as_str(), bytes.as_slice())?;
        Ok(())
    }

    /// Unconditional overwrite: binds the path to exactly this record.
    pub fn save_metadata(
        &mut self,
        blob_path: &BlobPath<PathExists>,
        metadata: &BlobMetadata,
    ) -> (r: Result<(), ApiError>)
        ensures
            match r {
                Ok(_) => final(self)@ == old(self)@.insert(blob_path@, spec_encode(metadata@)),
                Err(e) => e == ApiError::Internal,
            },
    {
        let bytes = encode_metadata(metadata);
        kv_insert(&mut self.db, blob_path.as_str(), bytes.as_slice())?;
        Ok(())
    }

    /// Removes the record entirely; used only when a soft-deleted path is
    /// reclaimed for reuse.
    pub fn remove_metadata(&mut self, blob_path: &BlobPath<PathExists>) -> (r: Result<
        (),
        ApiError,
    >)
        ensures
            match r {
                Ok(_) => final(self)@ == old(self)@.remove(blob_path@),
                Err(e) => e == ApiError::Internal,
            },
    {
        kv_remove(&mut self.db, blob_path.as_str())?;
        Ok(())
    }
}

} // verus!
