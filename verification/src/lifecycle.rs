//! The per-blob lifecycle state machine.
//!
//! A blob moves from non-existent to active on its first upload, from
//! active to soft-deleted on an authorized delete, and back to active when
//! a soft-deleted path is reclaimed by a new upload. These functions are
//! the decision and metadata cores of the request handlers: path
//! resolution probes, request bodies and filesystem effects are supplied
//! and performed by the caller, while every decision and every metadata
//! mutation happens here, verified.

use crate::codec::{encodable, lemma_codec_roundtrip, spec_encode};
use crate::metadata::{valid_access_key, BlobMetadata, BlobMetadataView};
use crate::metadata_store::{stored_state, MetadataManager, StoredState};
use crate::paths::{
    join_under, parse_rel, resolution_clear, BlobPath, BucketPath, PathDoesntExist, PathExists,
    PathManager,
};
use crate::{ApiError, AppSettings};
use vstd::prelude::*;

verus! {

/// The bucket name carried by a bucket-level request.
pub struct BucketLocation {
    pub name: String,
}

/// The bucket and file names carried by a blob-level request.
pub struct FileLocation {
    /// The bucket that contains the file.
    pub bucket_name: String,
    /// The path of the file within its bucket.
    pub file_name: String,
}

/// What a successful upload returns to the client: the freshly issued
/// access key that later authorizes soft-deletion.
pub struct FileUploadResult {
    pub access_key: String,
}

impl FileUploadResult {
    pub fn new(access_key: String) -> (r: Self)
        ensures
            r.access_key@ == access_key@,
    {
        Self { access_key }
    }
}

/// What a details request reports about a blob.
pub struct BucketDetails {
    pub content_type: String,
    pub created_at: u64,
}

/// A caller-supplied secret matches the expected one.
pub open spec fn secret_matches(provided: Option<&String>, expected: Seq<char>) -> bool {
    match provided {
        Some(s) => s@ == expected,
        None => false,
    }
}

/// The record a fresh upload writes.
pub open spec fn upload_record(ct: Seq<char>, key: Seq<char>, now: u64) -> BlobMetadataView {
    BlobMetadataView {
        content_type: ct,
        access_key: key,
        created_at: now,
        deletion_date: None,
        download_count: 0,
    }
}

/// The record after a soft-delete at time `now`: only the deletion date
/// changes.
pub open spec fn with_deletion(v: BlobMetadataView, now: u64) -> BlobMetadataView {
    BlobMetadataView { deletion_date: Some(now), ..v }
}

/// The record after one download: the counter grows by exactly one until
/// it saturates.
pub open spec fn bump_count(v: BlobMetadataView) -> BlobMetadataView {
    BlobMetadataView {
        download_count: if v.download_count < u64::MAX {
            (v.download_count + 1) as u64
        } else {
            u64::MAX
        },
        ..v
    }
}

/// A record the missing-record read path can have defaulted to and then
/// updated: default in every field the update does not touch.
pub open spec fn defaulted_base(v: BlobMetadataView) -> bool {
    &&& v.content_type == "text"@
    &&& valid_access_key(v.access_key)
    &&& v.created_at == 0
}

/// Create-bucket decision: the bucket-creation secret must match the
/// configured one, and the bucket name must resolve cleanly to an absent
/// target. Returns the validated new bucket path for the caller to create;
/// a bad secret is the client's fault, a failed resolution is reported
/// opaquely.
pub fn plan_create_bucket(
    pm: &PathManager,
    provided_secret: Option<&String>,
    bucket_name: &str,
    symlink_flags: &Vec<bool>,
    target_exists: bool,
) -> (r: Result<BucketPath<PathDoesntExist>, ApiError>)
    ensures
        r is Ok <==> {
            &&& secret_matches(provided_secret, pm.settings.bucket_creation_secret@)
            &&& resolution_clear(bucket_name@, symlink_flags@)
            &&& !target_exists
        },
        match r {
            Ok(b) => b@ == join_under(pm.spec_root(), parse_rel(bucket_name@)),
            Err(e) => if !secret_matches(provided_secret, pm.settings.bucket_creation_secret@) {
                e == ApiError::BadRequest
            } else {
                e == ApiError::Internal
            },
        },
{
    let secret_ok = match provided_secret {
        Some(s) => *s == pm.settings.bucket_creation_secret,
        None => false,
    };
    if !secret_ok {
        return Err(ApiError::BadRequest);
    }
    match pm.create_bucket(bucket_name, symlink_flags, target_exists) {
        Some(b) => Ok(b),
        None => Err(ApiError::Internal),
    }
}

/// Upload authorization for a brand-new path: allowed exactly when the
/// caller presents the configured upload secret.
pub fn check_upload_secret(settings: &AppSettings, provided: Option<&String>) -> (allowed: bool)
    ensures
        allowed <==> secret_matches(provided, settings.upload_secret@),
{
    match provided {
        Some(s) => *s == settings.upload_secret,
        None => false,
    }
}

/// Upload authorization: a brand-new path needs the configured upload
/// secret; reclaiming a soft-deleted path intentionally does not. That
/// bypass is a real authorization asymmetry relative to fresh uploads,
/// preserved here rather than silently tightened or loosened.
pub fn authorize_upload(
    settings: &AppSettings,
    reclaiming_soft_deleted: bool,
    provided: Option<&String>,
) -> (r: Result<(), ApiError>)
    ensures
        r is Ok <==> (reclaiming_soft_deleted || secret_matches(provided, settings.upload_secret@)),
        r matches Err(e) ==> e == ApiError::BadRequest,
{
    if reclaiming_soft_deleted || check_upload_secret(settings, provided) {
        Ok(())
    } else {
        Err(ApiError::BadRequest)
    }
}

/// What an upload to an already-existing path may do.
pub enum ReuseDecision {
    /// The existing blob is soft-deleted: the caller may reclaim the path —
    /// remove the content file, remove the record, and upload afresh
    /// without the upload secret.
    ReclaimSoftDeleted,
    /// The existing blob is still active (or has no record and so reads as
    /// active): it must be explicitly soft-deleted before it can be
    /// replaced.
    StillActive,
}

/// Upload decision for a path that already exists: reclaim it only when
/// its record is soft-deleted. Changes nothing itself. An unreadable
/// record under an existing file is an inconsistency, reported rather than
/// guessed around.
pub fn upload_reuse_check(mgr: &MetadataManager, path: &BlobPath<PathExists>) -> (r: Result<
    ReuseDecision,
    ApiError,
>)
    ensures
        match r {
            Ok(ReuseDecision::ReclaimSoftDeleted) => stored_state(mgr@, path@) matches
                StoredState::Present(v) && v.deletion_date is Some,
            Ok(ReuseDecision::StillActive) => match stored_state(mgr@, path@) {
                StoredState::Missing => true,
                StoredState::Present(v) => v.deletion_date is None,
                StoredState::Corrupt => false,
            },
            Err(e) => e == ApiError::Inconsistent,
        },
{
    let meta = match mgr.get_metadata(path) {
        Ok(m) => m,
        Err(_) => {
            return Err(ApiError::Inconsistent);
        },
    };
    if meta.deletion_date.is_some() {
        Ok(ReuseDecision::ReclaimSoftDeleted)
    } else {
        Ok(ReuseDecision::StillActive)
    }
}

/// Commits a finished upload: binds the (previously recordless) path to a
/// fresh record carrying the caller's content type — `text` when none was
/// given — the creation time, and a newly generated access key, which is
/// returned. On failure nothing may be left bound, so the caller must roll
/// the written content file back.
pub fn commit_upload(
    mgr: &mut MetadataManager,
    path: &BlobPath<PathDoesntExist>,
    content_type: Option<String>,
    now: u64,
) -> (r: Result<FileUploadResult, ApiError>)
    ensures
        match r {
            Ok(res) => {
                &&& !old(mgr)@.contains_key(path@)
                &&& valid_access_key(res.access_key@)
                &&& final(mgr)@ == old(mgr)@.insert(
                    path@,
                    spec_encode(
                        upload_record(
                            match content_type {
                                Some(c) => c@,
                                None => "text"@,
                            },
                            res.access_key@,
                            now,
                        ),
                    ),
                )
            },
            Err(e) => {
                &&& (e == ApiError::Conflict || e == ApiError::Internal)
                &&& e == ApiError::Conflict ==> old(mgr)@.contains_key(path@) && final(mgr)@ == old(
                    mgr,
                )@
            },
        },
{
    let key = crate::metadata::generate_access_key();
    let meta = BlobMetadata {
        content_type: match content_type {
            Some(c) => c,
            None => String::from_str("text"),
        },
        access_key: key,
        created_at: now,
        deletion_date: None,
        download_count: 0,
    };
    mgr.create_metadata(path, &meta)?;
    Ok(FileUploadResult::new(meta.access_key))
}

/// What a granted download serves.
pub struct DownloadGrant {
    /// The content type stored for the blob.
    pub content_type: String,
    /// Whether the bumped download counter reached the store; a miss is
    /// logged by the caller, never fatal to the read.
    pub counter_persisted: bool,
}

/// Download decision and bookkeeping: a soft-deleted blob reads as not
/// found whatever else the request carries; an active one has its download
/// counter raised by exactly one (saturating) and best-effort persisted,
/// and is served under its stored content type.
pub fn record_download(mgr: &mut MetadataManager, path: &BlobPath<PathExists>) -> (r: Result<
    DownloadGrant,
    ApiError,
>)
    ensures
        match r {
            Ok(g) => {
                &&& !(stored_state(old(mgr)@, path@) is Corrupt)
                &&& (stored_state(old(mgr)@, path@) matches StoredState::Present(v) ==> {
                    &&& v.deletion_date is None
                    &&& g.content_type@ == v.content_type
                    &&& (g.counter_persisted ==> final(mgr)@ == old(mgr)@.insert(
                        path@,
                        spec_encode(bump_count(v)),
                    ))
                })
                &&& (stored_state(old(mgr)@, path@) is Missing ==> {
                    &&& g.content_type@ == "text"@
                    &&& (g.counter_persisted ==> exists|v2: BlobMetadataView|
                        {
                            &&& final(mgr)@ == old(mgr)@.insert(path@, spec_encode(v2))
                            &&& defaulted_base(v2)
                            &&& v2.deletion_date is None
                            &&& v2.download_count == 1
                        })
                })
            },
            Err(e) => match e {
                ApiError::NotFound => stored_state(old(mgr)@, path@) matches StoredState::Present(
                    v,
                ) && v.deletion_date is Some && final(mgr)@ == old(mgr)@,
                ApiError::Internal => true,
                _ => false,
            },
        },
{
    let mut meta = mgr.get_metadata(path)?;
    if meta.deletion_date.is_some() {
        return Err(ApiError::NotFound);
    }
    let ghost base = meta@;
    if meta.download_count < u64::MAX {
        meta.download_count = meta.download_count + 1;
    }
    proof {
        assert(meta@ =~= bump_count(base));
    }
    let persisted = match mgr.save_metadata(path, &meta) {
        Ok(_) => true,
        Err(_) => false,
    };
    proof {
        if stored_state(old(mgr)@, path@) is Missing && persisted {
            let v2 = meta@;
            assert(final(mgr)@ == old(mgr)@.insert(path@, spec_encode(v2)) && defaulted_base(v2)
                && v2.deletion_date is None && v2.download_count == 1);
        }
    }
    Ok(DownloadGrant { content_type: meta.content_type, counter_persisted: persisted })
}

/// Soft-delete decision and transition: an already-deleted blob is a
/// conflict; a missing or wrong access key is an authorization failure
/// that changes nothing; a matching key sets the deletion date — exactly
/// once — and leaves every other field and the content file untouched.
pub fn soft_delete(
    mgr: &mut MetadataManager,
    path: &BlobPath<PathExists>,
    provided_key: Option<&String>,
    now: u64,
) -> (r: Result<(), ApiError>)
    ensures
        match r {
            Ok(_) => match provided_key {
                Some(k) => match stored_state(old(mgr)@, path@) {
                    StoredState::Present(v) => {
                        &&& v.deletion_date is None
                        &&& k@ == v.access_key
                        &&& final(mgr)@ == old(mgr)@.insert(
                            path@,
                            spec_encode(with_deletion(v, now)),
                        )
                    },
                    StoredState::Missing => exists|v2: BlobMetadataView|
                        {
                            &&& final(mgr)@ == old(mgr)@.insert(path@, spec_encode(v2))
                            &&& defaulted_base(v2)
                            &&& v2.deletion_date == Some(now)
                            &&& v2.download_count == 0
                            &&& k@ == v2.access_key
                        },
                    StoredState::Corrupt => false,
                },
                None => false,
            },
            Err(e) => match e {
                ApiError::Conflict => {
                    &&& stored_state(old(mgr)@, path@) matches StoredState::Present(v)
                        && v.deletion_date is Some
                    &&& final(mgr)@ == old(mgr)@
                },
                ApiError::Unauthorized => {
                    &&& final(mgr)@ == old(mgr)@
                    &&& !(stored_state(old(mgr)@, path@) is Corrupt)
                    &&& (stored_state(old(mgr)@, path@) matches StoredState::Present(v) ==> {
                        &&& v.deletion_date is None
                        &&& !secret_matches(provided_key, v.access_key)
                    })
                },
                ApiError::Internal => true,
                _ => false,
            },
        },
{
    let meta = mgr.get_metadata(path)?;
    if meta.deletion_date.is_some() {
        return Err(ApiError::Conflict);
    }
    let provided = match provided_key {
        Some(k) => k,
        None => {
            return Err(ApiError::Unauthorized);
        },
    };
    if !(*provided == meta.access_key) {
        return Err(ApiError::Unauthorized);
    }
    let ghost base = meta@;
    let updated = BlobMetadata { deletion_date: Some(now), ..meta };
    proof {
        assert(updated@ =~= with_deletion(base, now));
    }
    mgr.save_metadata(path, &updated)?;
    proof {
        if stored_state(old(mgr)@, path@) is Missing {
            let v2 = updated@;
            assert(final(mgr)@ == old(mgr)@.insert(path@, spec_encode(v2)) && defaulted_base(v2)
                && v2.deletion_date == Some(now) && v2.download_count == 0);
        }
    }
    Ok(())
}

/// Details read-out: the stored content type and creation time of a blob,
/// defaults for a path with no record, and a report — never a guess — for
/// one whose record cannot be read.
pub fn blob_details(mgr: &MetadataManager, path: &BlobPath<PathExists>) -> (r: Result<
    BucketDetails,
    ApiError,
>)
    ensures
        match r {
            Ok(d) => match stored_state(mgr@, path@) {
                StoredState::Present(v) => d.content_type@ == v.content_type && d.created_at
                    == v.created_at,
                StoredState::Missing => d.content_type@ == "text"@ && d.created_at == 0,
                StoredState::Corrupt => false,
            },
            Err(e) => e == ApiError::Internal,
        },
{
    let meta = mgr.get_metadata(path)?;
    Ok(BucketDetails { content_type: meta.content_type, created_at: meta.created_at })
}

/// Soft-deleting transitions exactly once: the store a successful
/// soft-delete of an active record leaves behind reads back as that same
/// record with its deletion date set and nothing else changed — so a
/// second soft-delete of the path must end in a conflict, and a download
/// of it reads as not found.
pub proof fn lemma_soft_delete_once(
    s: Map<Seq<char>, Seq<u8>>,
    p: Seq<char>,
    v: BlobMetadataView,
    now: u64,
)
    requires
        stored_state(s, p) == StoredState::Present(v),
        v.deletion_date is None,
        encodable(v),
    ensures
        stored_state(s.insert(p, spec_encode(with_deletion(v, now))), p) == StoredState::Present(
            with_deletion(v, now),
        ),
        with_deletion(v, now).deletion_date == Some(now),
        with_deletion(v, now).access_key == v.access_key,
        with_deletion(v, now).content_type == v.content_type,
        with_deletion(v, now).download_count == v.download_count,
{
    lemma_codec_roundtrip(with_deletion(v, now));
}

/// A soft-deleted path can be reclaimed: removing its record leaves the
/// path recordless, and committing a fresh upload then binds it to exactly
/// the new active record — the old record, and with it the old access key,
/// is gone.
pub proof fn lemma_reclaim_then_upload(
    s: Map<Seq<char>, Seq<u8>>,
    p: Seq<char>,
    v: BlobMetadataView,
    fresh: BlobMetadataView,
)
    requires
        stored_state(s, p) == StoredState::Present(v),
        v.deletion_date is Some,
        encodable(fresh),
        fresh.deletion_date is None,
    ensures
        stored_state(s.remove(p), p) is Missing,
        stored_state(s.remove(p).insert(p, spec_encode(fresh)), p) == StoredState::Present(fresh),
{
    lemma_codec_roundtrip(fresh);
}

/// A committed upload to a recordless path leaves the path bound to
/// exactly the fresh record: active, the chosen content type, the issued
/// key, a zeroed download counter.
pub proof fn lemma_upload_creates_active(
    s: Map<Seq<char>, Seq<u8>>,
    p: Seq<char>,
    ct: Seq<char>,
    key: Seq<char>,
    now: u64,
)
    requires
        !s.contains_key(p),
        encodable(upload_record(ct, key, now)),
    ensures
        stored_state(s.insert(p, spec_encode(upload_record(ct, key, now))), p)
            == StoredState::Present(upload_record(ct, key, now)),
        upload_record(ct, key, now).deletion_date is None,
        upload_record(ct, key, now).download_count == 0,
{
    lemma_codec_roundtrip(upload_record(ct, key, now));
}

/// One download of an active record raises its stored counter by exactly
/// one while the counter is below its maximum, and touches nothing else.
pub proof fn lemma_download_increments(s: Map<Seq<char>, Seq<u8>>, p: Seq<char>, v: BlobMetadataView)
    requires
        stored_state(s, p) == StoredState::Present(v),
        v.deletion_date is None,
        v.download_count < u64::MAX,
        encodable(v),
    ensures
        stored_state(s.insert(p, spec_encode(bump_count(v))), p) == StoredState::Present(
            bump_count(v),
        ),
        bump_count(v).download_count == v.download_count + 1,
        bump_count(v).deletion_date is None,
        bump_count(v).access_key == v.access_key,
        bump_count(v).content_type == v.content_type,
{
    lemma_codec_roundtrip(bump_count(v));
}

} // verus!
