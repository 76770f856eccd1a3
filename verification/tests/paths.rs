use blobstore::paths::PathManager;
use blobstore::AppSettings;

fn manager() -> PathManager {
    PathManager::new(AppSettings {
        storage_root: String::from("root"),
        bucket_creation_secret: String::from("bucket-secret"),
        upload_secret: String::from("upload-secret"),
    })
}

#[test]
fn parent_segments_are_dropped() {
    let pm = manager();
    let flags = vec![false, false];
    let p = pm
        .safe_join("root", "../../etc/passwd", &flags)
        .expect("resolution should succeed with clear probes");
    assert_eq!(p, "root/etc/passwd");
    assert!(p.starts_with("root/"));
}

#[test]
fn absolute_markers_and_dot_segments_are_dropped() {
    let pm = manager();
    let flags = vec![false, false, false];
    let p = pm.safe_join("root", "/a/./b//c/", &flags).unwrap();
    assert_eq!(p, "root/a/b/c");
}

#[test]
fn deep_traversal_stays_within_root() {
    let pm = manager();
    // only "a" and "x" are ordinary segments; the parent markers are dropped
    let p = pm
        .safe_join("root", "a/../../../../x/..", &vec![false, false])
        .unwrap();
    assert_eq!(p, "root/a/x");
    assert!(p.starts_with("root/"));
}

#[test]
fn probe_count_must_match_components() {
    let pm = manager();
    // "a/b" keeps two components; one probe answer is not enough
    assert!(pm.safe_join("root", "a/b", &vec![false]).is_none());
    assert!(pm.safe_join("root", "a/b", &vec![false, false, false]).is_none());
    assert!(pm.safe_join("root", "a/b", &vec![false, false]).is_some());
}

#[test]
fn symlink_anywhere_fails_resolution() {
    let pm = manager();
    // first component a symlink
    assert!(pm.safe_join("root", "a/b/c", &vec![true, false, false]).is_none());
    // middle component a symlink
    assert!(pm.safe_join("root", "a/b/c", &vec![false, true, false]).is_none());
    // final component a symlink
    assert!(pm.safe_join("root", "a/b/c", &vec![false, false, true]).is_none());
    assert!(pm.safe_join("root", "a/b/c", &vec![false, false, false]).is_some());
}

#[test]
fn probe_paths_lists_every_prefix() {
    let pm = manager();
    let ps = pm.probe_paths("root", "a/b/c");
    assert_eq!(ps, vec![
        String::from("root/a"),
        String::from("root/a/b"),
        String::from("root/a/b/c"),
    ]);
    let none: Vec<String> = Vec::new();
    assert_eq!(pm.probe_paths("root", "/.."), none);
}

#[test]
fn empty_name_resolves_to_root_itself() {
    let pm = manager();
    let flags: Vec<bool> = Vec::new();
    let p = pm.safe_join("root", "", &flags).unwrap();
    assert_eq!(p, "root");
    let p = pm.safe_join("root", "../..", &flags).unwrap();
    assert_eq!(p, "root");
}

#[test]
fn create_bucket_requires_absent_target() {
    let pm = manager();
    let flags = vec![false];
    assert!(pm.create_bucket("b1", &flags, true).is_none());
    let b = pm.create_bucket("b1", &flags, false).unwrap();
    assert_eq!(b.as_str(), "root/b1");
}

#[test]
fn get_bucket_requires_existing_target() {
    let pm = manager();
    let flags = vec![false];
    assert!(pm.get_bucket("b1", &flags, false).is_none());
    let b = pm.get_bucket("b1", &flags, true).unwrap();
    assert_eq!(b.as_str(), "root/b1");
}

#[test]
fn blob_resolution_is_rooted_at_the_bucket() {
    let pm = manager();
    let bucket = pm.get_bucket("b1", &vec![false], true).unwrap();
    let blob = pm
        .get_bucket_file(&bucket, "../../../etc/shadow", &vec![false, false], true)
        .unwrap();
    assert_eq!(blob.as_str(), "root/b1/etc/shadow");
    assert!(pm
        .get_bucket_file(&bucket, "a.txt", &vec![false], false)
        .is_none());
    let new_blob = pm
        .create_bucket_file(&bucket, "a.txt", &vec![false], false)
        .unwrap();
    assert_eq!(new_blob.as_str(), "root/b1/a.txt");
    assert!(pm
        .create_bucket_file(&bucket, "a.txt", &vec![false], true)
        .is_none());
}
