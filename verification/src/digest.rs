//! Bucket integrity manifests.
//!
//! The verify operation reports, for every regular file under a bucket, the
//! file's name relative to the bucket and an uppercase hex digest of its raw
//! bytes. The digest itself comes from an outside implementation and is
//! named, not restated; the hex rendering and the manifest assembly are
//! verified.

use crate::push_char;
use sha1::Digest;
use vstd::prelude::*;

verus! {

/// The SHA-1 digest of a byte string: a function of the bytes alone,
/// computed by the outside implementation and left uninterpreted here.
pub uninterp spec fn sha1_of(data: Seq<u8>) -> Seq<u8>;

/// Relies on sha1::Sha1 (the digest-trait API): hashing is a pure function
/// of the input bytes, and a SHA-1 digest is exactly 20 bytes.
#[verifier::external_body]
fn sha1_digest(data: &Vec<u8>) -> (r: Vec<u8>)
    ensures
        r@ == sha1_of(data@),
        r@.len() == 20,
{
    let mut hasher = sha1::Sha1::new();
    hasher.update(data.as_slice());
    hasher.finalize().to_vec()
}

/// The uppercase hex digit for a value below 16.
pub open spec fn hex_digit(x: u8) -> char
    recommends
        x < 16,
{
    if x < 10 {
        (x + 48) as char
    } else {
        (x + 55) as char
    }
}

/// Two uppercase hex digits per byte, high nibble first.
pub open spec fn hex_upper(bytes: Seq<u8>) -> Seq<char>
    decreases bytes.len(),
{
    if bytes.len() == 0 {
        Seq::empty()
    } else {
        hex_upper(bytes.drop_last()).push(hex_digit(bytes.last() / 16)).push(
            hex_digit(bytes.last() % 16),
        )
    }
}

/// Renders bytes as uppercase hex.
pub fn to_hex_upper(bytes: &Vec<u8>) -> (r: String)
    ensures
        r@ == hex_upper(bytes@),
{
    let mut r = String::new();
    let mut i: usize = 0;
    while i < bytes.len()
        invariant
            i <= bytes@.len(),
            r@ == hex_upper(bytes@.take(i as int)),
        decreases bytes@.len() - i,
    {
        let b = bytes[i];
        let hi = b / 16;
        let lo = b % 16;
        let hi_c = if hi < 10 {
            (hi + 48) as char
        } else {
            (hi + 55) as char
        };
        let lo_c = if lo < 10 {
            (lo + 48) as char
        } else {
            (lo + 55) as char
        };
        push_char(&mut r, hi_c);
        push_char(&mut r, lo_c);
        proof {
            assert(bytes@.take(i + 1).drop_last() =~= bytes@.take(i as int));
            assert(bytes@.take(i + 1).last() == bytes@[i as int]);
            assert(hi_c == hex_digit(bytes@[i as int] / 16));
            assert(lo_c == hex_digit(bytes@[i as int] % 16));
        }
        i = i + 1;
    }
    proof {
        assert(bytes@.take(bytes@.len() as int) =~= bytes@);
    }
    r
}

/// One manifest entry: a blob's bucket-relative name and the uppercase hex
/// SHA-1 digest of its content.
pub struct Blob {
    pub blob_name: String,
    pub blob_sha1: String,
}

/// A bucket's manifest: one entry per regular file.
pub struct Bucket {
    pub blobs: Vec<Blob>,
}

/// Drops `prefix` from the front of `s` when it is a prefix; otherwise
/// returns `s` unchanged.
pub fn strip_prefix_str(s: &str, prefix: &str) -> (r: String)
    ensures
        prefix@.is_prefix_of(s@) ==> r@ == s@.skip(prefix@.len() as int),
        !prefix@.is_prefix_of(s@) ==> r@ == s@,
{
    let n = s.unicode_len();
    let p = prefix.unicode_len();
    if p > n {
        proof {
            assert(!prefix@.is_prefix_of(s@));
        }
        return s.to_owned();
    }
    let mut i: usize = 0;
    while i < p
        invariant
            p <= n,
            n == s@.len(),
            p == prefix@.len(),
            i <= p,
            forall|k: int| 0 <= k < i ==> s@[k] == prefix@[k],
        decreases p - i,
    {
        if s.get_char(i) != prefix.get_char(i) {
            proof {
                assert(!prefix@.is_prefix_of(s@));
            }
            return s.to_owned();
        }
        i = i + 1;
    }
    proof {
        assert(prefix@ =~= s@.subrange(0, p as int));
        assert(prefix@.is_prefix_of(s@));
    }
    let rest = s.substring_char(p, n);
    proof {
        assert(s@.subrange(p as int, n as int) =~= s@.skip(p as int));
    }
    rest.to_owned()
}

/// Builds the manifest for the given files: each entry pairs the file's
/// name with the uppercase hex SHA-1 of its content, in input order. The
/// listing is independent of soft-delete state; callers hand in every
/// regular file found under the bucket.
pub fn verify_manifest(files: &Vec<(String, Vec<u8>)>) -> (r: Bucket)
    ensures
        r.blobs@.len() == files@.len(),
        forall|i: int|
            0 <= i < files@.len() ==> {
                &&& (#[trigger] r.blobs@[i]).blob_name@ == files@[i].0@
                &&& r.blobs@[i].blob_sha1@ == hex_upper(sha1_of(files@[i].1@))
            },
{
    let mut blobs: Vec<Blob> = Vec::new();
    let mut i: usize = 0;
    while i < files.len()
        invariant
            i <= files@.len(),
            blobs@.len() == i,
            forall|k: int|
                0 <= k < i ==> {
                    &&& (#[trigger] blobs@[k]).blob_name@ == files@[k].0@
                    &&& blobs@[k].blob_sha1@ == hex_upper(sha1_of(files@[k].1@))
                },
        decreases files@.len() - i,
    {
        let name = files[i].0.clone();
        let digest = sha1_digest(&files[i].1);
        let hex = to_hex_upper(&digest);
        blobs.push(Blob { blob_name: name, blob_sha1: hex });
        i = i + 1;
    }
    Bucket { blobs }
}

} // verus!
