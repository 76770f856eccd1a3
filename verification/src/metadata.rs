//! The per-blob metadata record.
//!
//! Each stored blob carries a content type, a secret access key required for
//! soft-deletion, its creation time, an optional soft-deletion time and a
//! download counter. A record for a path that has none yet defaults to
//! content type `text` with a freshly generated access key.

use crate::push_char;
use rand::Rng;
use vstd::prelude::*;

verus! {

/// Number of characters in a generated access key.
pub const ACCESS_KEY_LEN: usize = 48;

/// A generated access key: drawn from the 26-symbol alphabet `A`..`Z`,
/// always exactly [`ACCESS_KEY_LEN`] characters.
pub open spec fn valid_access_key(s: Seq<char>) -> bool {
    &&& s.len() == ACCESS_KEY_LEN
    &&& forall|i: int| 0 <= i < s.len() ==> 'A' <= #[trigger] s[i] && s[i] <= 'Z'
}

/// The mathematical content of a metadata record.
#[verifier::ext_equal]
pub struct BlobMetadataView {
    pub content_type: Seq<char>,
    pub access_key: Seq<char>,
    pub created_at: u64,
    pub deletion_date: Option<u64>,
    pub download_count: u64,
}

/// Metadata tracked for one blob, stored under the blob's canonical path.
pub struct BlobMetadata {
    /// MIME type served back on download.
    pub content_type: String,
    /// Per-blob secret required to soft-delete the blob.
    pub access_key: String,
    /// Seconds since the epoch when the record was created.
    pub created_at: u64,
    /// Seconds since the epoch of the soft-delete, set exactly once;
    /// `None` while the blob is active.
    pub deletion_date: Option<u64>,
    /// Number of successful downloads served.
    pub download_count: u64,
}

impl View for BlobMetadata {
    type V = BlobMetadataView;

    open spec fn view(&self) -> BlobMetadataView {
        BlobMetadataView {
            content_type: self.content_type@,
            access_key: self.access_key@,
            created_at: self.created_at,
            deletion_date: self.deletion_date,
            download_count: self.download_count,
        }
    }
}

/// Relies on rand::thread_rng and rand::Rng::gen_range: a character drawn
/// from the thread-local cryptographically secure generator, uniform in the
/// inclusive range `'A'..='Z'`.
#[verifier::external_body]
fn random_uppercase() -> (c: char)
    ensures
        'A' <= c && c <= 'Z',
{
    rand::thread_rng().gen_range('A'..='Z')
}

/// A fresh, unguessable access key: 48 characters from a 26-symbol
/// alphabet, about 226 bits of entropy from a secure random source.
pub fn generate_access_key() -> (k: String)
    ensures
        valid_access_key(k@),
{
    let mut k = String::new();
    let mut i: usize = 0;
    while i < ACCESS_KEY_LEN
        invariant
            i <= ACCESS_KEY_LEN,
            k@.len() == i,
            forall|j: int| 0 <= j < i ==> 'A' <= #[trigger] k@[j] && k@[j] <= 'Z',
        decreases ACCESS_KEY_LEN - i,
    {
        let c = random_uppercase();
        push_char(&mut k, c);
        i = i + 1;
    }
    k
}

/// The record a path without one defaults to on lookup: content type
/// `text`, a freshly generated access key, no deletion date, no downloads.
pub open spec fn is_default_record(v: BlobMetadataView) -> bool {
    &&& v.content_type == "text"@
    &&& valid_access_key(v.access_key)
    &&& v.created_at == 0
    &&& v.deletion_date is None
    &&& v.download_count == 0
}

impl Default for BlobMetadata {
    /// A fresh default record; its access key is newly drawn, so two
    /// defaults agree on everything but the key.
    fn default() -> (r: Self)
        ensures
            is_default_record(r@),
    {
        BlobMetadata {
            content_type: String::from_str("text"),
            access_key: generate_access_key(),
            created_at: 0,
            deletion_date: None,
            download_count: 0,
        }
    }
}

} // verus!
