use blobstore::metadata::{BlobMetadata, ACCESS_KEY_LEN};
use blobstore::metadata_store::MetadataManager;
use blobstore::paths::{BlobPath, BucketPath, PathDoesntExist, PathExists, PathManager};
use blobstore::AppSettings;

fn manager() -> PathManager {
    PathManager::new(AppSettings {
        storage_root: String::from("root"),
        bucket_creation_secret: String::from("bucket-secret"),
        upload_secret: String::from("upload-secret"),
    })
}

fn existing_blob(pm: &PathManager, file: &str) -> BlobPath<PathExists> {
    let bucket: BucketPath<PathExists> = pm.get_bucket("b1", &vec![false], true).unwrap();
    pm.get_bucket_file(&bucket, file, &vec![false], true).unwrap()
}

fn new_blob(pm: &PathManager, file: &str) -> BlobPath<PathDoesntExist> {
    let bucket: BucketPath<PathExists> = pm.get_bucket("b1", &vec![false], true).unwrap();
    pm.create_bucket_file(&bucket, file, &vec![false], false).unwrap()
}

fn record(ct: &str, key: &str) -> BlobMetadata {
    BlobMetadata {
        content_type: String::from(ct),
        access_key: String::from(key),
        created_at: 42,
        deletion_date: None,
        download_count: 0,
    }
}

#[test]
fn missing_record_reads_as_fresh_default() {
    let pm = manager();
    let mgr = MetadataManager::new_temporary().unwrap();
    let blob = existing_blob(&pm, "a.txt");
    let m = mgr.get_metadata(&blob).unwrap();
    assert_eq!(m.content_type, "text");
    assert_eq!(m.access_key.len(), ACCESS_KEY_LEN);
    assert!(m.access_key.chars().all(|c| c.is_ascii_uppercase()));
    assert_eq!(m.deletion_date, None);
    assert_eq!(m.download_count, 0);
    // each default draws its own key
    let m2 = mgr.get_metadata(&blob).unwrap();
    assert_ne!(m.access_key, m2.access_key);
}

#[test]
fn create_then_get_returns_the_record() {
    let pm = manager();
    let mut mgr = MetadataManager::new_temporary().unwrap();
    let new = new_blob(&pm, "a.txt");
    mgr.create_metadata(&new, &record("text/html", "KEYKEY")).unwrap();
    let got = mgr.get_metadata(&existing_blob(&pm, "a.txt")).unwrap();
    assert_eq!(got.content_type, "text/html");
    assert_eq!(got.access_key, "KEYKEY");
    assert_eq!(got.created_at, 42);
}

#[test]
fn create_is_a_one_time_event_per_path() {
    let pm = manager();
    let mut mgr = MetadataManager::new_temporary().unwrap();
    let new = new_blob(&pm, "a.txt");
    mgr.create_metadata(&new, &record("text", "K1")).unwrap();
    let second = mgr.create_metadata(&new, &record("text", "K2"));
    assert_eq!(second, Err(blobstore::ApiError::Conflict));
    // the original record is untouched
    let got = mgr.get_metadata(&existing_blob(&pm, "a.txt")).unwrap();
    assert_eq!(got.access_key, "K1");
}

#[test]
fn save_overwrites_unconditionally() {
    let pm = manager();
    let mut mgr = MetadataManager::new_temporary().unwrap();
    let blob = existing_blob(&pm, "a.txt");
    let mut m = record("text", "K1");
    mgr.save_metadata(&blob, &m).unwrap();
    m.download_count = 9;
    m.deletion_date = Some(1000);
    mgr.save_metadata(&blob, &m).unwrap();
    let got = mgr.get_metadata(&blob).unwrap();
    assert_eq!(got.download_count, 9);
    assert_eq!(got.deletion_date, Some(1000));
}

#[test]
fn remove_unbinds_the_path() {
    let pm = manager();
    let mut mgr = MetadataManager::new_temporary().unwrap();
    let new = new_blob(&pm, "a.txt");
    let blob = existing_blob(&pm, "a.txt");
    mgr.create_metadata(&new, &record("text", "K1")).unwrap();
    mgr.remove_metadata(&blob).unwrap();
    // reads as a fresh default again
    let got = mgr.get_metadata(&blob).unwrap();
    assert_ne!(got.access_key, "K1");
    assert_eq!(got.content_type, "text");
    // and create works again
    mgr.create_metadata(&new, &record("text", "K3")).unwrap();
}

#[test]
fn on_disk_store_persists_within_a_handle() {
    let pm = manager();
    let mut mgr = MetadataManager::new("/tmp/blobstore-test-metadata.db").unwrap();
    let blob = existing_blob(&pm, "persist.txt");
    // overwrite unconditionally so the test is oblivious to earlier runs
    let mut m = record("text/x", "PERSISTKEY");
    m.download_count = 3;
    mgr.save_metadata(&blob, &m).unwrap();
    let got = mgr.get_metadata(&blob).unwrap();
    assert_eq!(got.access_key, "PERSISTKEY");
    assert_eq!(got.download_count, 3);
    mgr.remove_metadata(&blob).unwrap();
}

#[test]
fn records_are_kept_per_path() {
    let pm = manager();
    let mut mgr = MetadataManager::new_temporary().unwrap();
    mgr.create_metadata(&new_blob(&pm, "a.txt"), &record("text/a", "KA")).unwrap();
    mgr.create_metadata(&new_blob(&pm, "b.txt"), &record("text/b", "KB")).unwrap();
    assert_eq!(
        mgr.get_metadata(&existing_blob(&pm, "a.txt")).unwrap().access_key,
        "KA"
    );
    assert_eq!(
        mgr.get_metadata(&existing_blob(&pm, "b.txt")).unwrap().access_key,
        "KB"
    );
}
