//! A verified core for a blob-storage service.
//!
//! Clients create named buckets and upload, download and soft-delete files in
//! them. The two hard parts are verified here: resolving untrusted
//! client-supplied names into filesystem paths that cannot escape the storage
//! root or pass through a symbolic link, and the per-blob lifecycle state
//! machine (create, overwrite after soft-delete, download counting,
//! authorized soft-delete) that keeps file content and the metadata store
//! consistent. Filesystem and HTTP plumbing stay outside the library; the
//! metadata store is an embedded key-value database reached through a narrow
//! trusted layer.

pub mod codec;
pub mod digest;
pub mod lifecycle;
pub mod metadata;
pub mod metadata_store;
pub mod paths;

use vstd::prelude::*;

verus! {

/// Relies on String::push: appends exactly the given character.
#[verifier::external_body]
pub(crate) fn push_char(s: &mut String, c: char)
    ensures
        final(s)@ == old(s)@.push(c),
{
    s.push(c);
}

/// Process-wide configuration, loaded once at start-up and read-only after.
pub struct AppSettings {
    /// Directory under which every bucket and blob lives.
    pub storage_root: String,
    /// Shared secret that gates creation of new buckets.
    pub bucket_creation_secret: String,
    /// Shared secret that gates uploads to brand-new paths.
    pub upload_secret: String,
}

/// The error taxonomy of the service core. Resolution and store failures are
/// mapped to these before they reach the web layer, which never sees internal
/// paths or backend detail.
#[derive(Clone, Copy, Debug, PartialEq, Eq, Structural)]
pub enum ApiError {
    /// Bucket or file absent, or the blob is soft-deleted and unreachable.
    NotFound,
    /// A create target already exists, or a blob is soft-deleted twice.
    Conflict,
    /// A secret or access key is missing or wrong.
    Unauthorized,
    /// A required secret was not supplied on a new-file upload.
    BadRequest,
    /// Content exists with no readable metadata record, or vice versa.
    Inconsistent,
    /// A backend (key-value store) operation failed.
    Internal,
}

} // verus!
