use blobstore::codec::{decode_metadata, encode_metadata};
use blobstore::digest::{strip_prefix_str, to_hex_upper, verify_manifest};
use blobstore::metadata::BlobMetadata;

#[test]
fn active_record_round_trips() {
    let m = BlobMetadata {
        content_type: String::from("application/json"),
        access_key: String::from("ABCDEFGHIJKLMNOPQRSTUVWXYZABCDEFGHIJKLMNOPQRSTUV"),
        created_at: 1700000000,
        deletion_date: None,
        download_count: 7,
    };
    let bytes = encode_metadata(&m);
    let back = decode_metadata(&bytes).expect("own encoding must decode");
    assert_eq!(back.content_type, "application/json");
    assert_eq!(
        back.access_key,
        "ABCDEFGHIJKLMNOPQRSTUVWXYZABCDEFGHIJKLMNOPQRSTUV"
    );
    assert_eq!(back.created_at, 1700000000);
    assert_eq!(back.deletion_date, None);
    assert_eq!(back.download_count, 7);
}

#[test]
fn soft_deleted_record_round_trips() {
    let m = BlobMetadata {
        content_type: String::from("text"),
        access_key: String::from("KEY"),
        created_at: 5,
        deletion_date: Some(1234567890),
        download_count: 0,
    };
    let bytes = encode_metadata(&m);
    let back = decode_metadata(&bytes).unwrap();
    assert_eq!(back.deletion_date, Some(1234567890));
    assert_eq!(back.content_type, "text");
}

#[test]
fn unicode_content_type_round_trips() {
    let m = BlobMetadata {
        content_type: String::from("text/plain; charset=ütf-8 ✓"),
        access_key: String::from(""),
        created_at: 0,
        deletion_date: None,
        download_count: u64::MAX,
    };
    let bytes = encode_metadata(&m);
    let back = decode_metadata(&bytes).unwrap();
    assert_eq!(back.content_type, "text/plain; charset=ütf-8 ✓");
    assert_eq!(back.download_count, u64::MAX);
}

#[test]
fn garbage_does_not_decode() {
    assert!(decode_metadata(&Vec::new()).is_none());
    assert!(decode_metadata(&vec![0u8; 10]).is_none());
    // a plausible length prefix but a truncated body
    let m = BlobMetadata {
        content_type: String::from("text"),
        access_key: String::from("K"),
        created_at: 1,
        deletion_date: None,
        download_count: 1,
    };
    let mut bytes = encode_metadata(&m);
    bytes.pop();
    assert!(decode_metadata(&bytes).is_none());
    // a corrupted deletion flag
    let mut bytes2 = encode_metadata(&m);
    let flag_pos = bytes2.len() - 25;
    bytes2[flag_pos] = 9;
    assert!(decode_metadata(&bytes2).is_none());
}

#[test]
fn hex_rendering_is_uppercase_two_digits_per_byte() {
    assert_eq!(to_hex_upper(&vec![]), "");
    assert_eq!(to_hex_upper(&vec![0x00, 0x1a, 0xff, 0x09]), "001AFF09");
}

#[test]
fn manifest_digests_real_content() {
    let files = vec![
        (String::from("a.txt"), b"hello".to_vec()),
        (String::from("sub/b.bin"), Vec::new()),
    ];
    let bucket = verify_manifest(&files);
    assert_eq!(bucket.blobs.len(), 2);
    assert_eq!(bucket.blobs[0].blob_name, "a.txt");
    // SHA-1 of "hello": would differ for any other input, so a digest layer
    // that handed bytes back unchanged could not produce it
    assert_eq!(
        bucket.blobs[0].blob_sha1,
        "AAF4C61DDCC5E8A2DABEDE0F3B482CD9AEA9434D"
    );
    assert_eq!(bucket.blobs[1].blob_name, "sub/b.bin");
    // SHA-1 of the empty input
    assert_eq!(
        bucket.blobs[1].blob_sha1,
        "DA39A3EE5E6B4B0D3255BFEF95601890AFD80709"
    );
}

#[test]
fn strip_prefix_removes_only_a_real_prefix() {
    assert_eq!(strip_prefix_str("root/b1/a.txt", "root/b1/"), "a.txt");
    assert_eq!(strip_prefix_str("root/b1/a.txt", "other/"), "root/b1/a.txt");
    assert_eq!(strip_prefix_str("abc", "abc"), "");
    assert_eq!(strip_prefix_str("ab", "abc"), "ab");
    assert_eq!(strip_prefix_str("münch/a", "münch/"), "a");
}
