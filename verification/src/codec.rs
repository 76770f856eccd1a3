//! Byte serialization of metadata records.
//!
//! The metadata store holds plain bytes, so records are framed by the
//! library itself: a length-prefixed UTF-8 content type, a length-prefixed
//! UTF-8 access key, then a fixed tail of deletion flag, deletion time,
//! creation time and download count, all integers little-endian. Decoding
//! accepts exactly the encodings this module produces.

use crate::metadata::{BlobMetadata, BlobMetadataView};
use vstd::bytes::*;
use vstd::prelude::*;
use vstd::slice::*;
use vstd::utf8::*;

verus! {

/// Bytes after the two variable-length fields: one flag byte and three
/// 8-byte integers.
pub const TAIL_LEN: usize = 25;

/// The deletion timestamp as stored: zero stands for "never deleted".
pub open spec fn spec_deletion_ts(v: BlobMetadataView) -> u64 {
    match v.deletion_date {
        Some(t) => t,
        None => 0,
    }
}

/// The stored flag byte: 1 when soft-deleted, 0 otherwise.
pub open spec fn spec_deletion_flag(v: BlobMetadataView) -> u8 {
    match v.deletion_date {
        Some(_) => 1,
        None => 0,
    }
}

/// The byte encoding of a metadata record.
pub open spec fn spec_encode(v: BlobMetadataView) -> Seq<u8> {
    spec_u64_to_le_bytes(encode_utf8(v.content_type).len() as u64) + encode_utf8(v.content_type)
        + spec_u64_to_le_bytes(encode_utf8(v.access_key).len() as u64) + encode_utf8(v.access_key)
        + seq![spec_deletion_flag(v)] + spec_u64_to_le_bytes(spec_deletion_ts(v))
        + spec_u64_to_le_bytes(v.created_at) + spec_u64_to_le_bytes(v.download_count)
}

/// The record a byte string encodes, or nothing when the bytes are not a
/// well-formed encoding.
pub open spec fn spec_decode(b: Seq<u8>) -> Option<BlobMetadataView> {
    if b.len() < 16 {
        None
    } else {
        let ct_len = spec_u64_from_le_bytes(b.subrange(0, 8)) as int;
        if b.len() < 16 + ct_len {
            None
        } else {
            let ct_bytes = b.subrange(8, 8 + ct_len);
            let key_len = spec_u64_from_le_bytes(b.subrange(8 + ct_len, 16 + ct_len)) as int;
            if b.len() != 16 + ct_len + key_len + TAIL_LEN {
                None
            } else {
                let key_bytes = b.subrange(16 + ct_len, 16 + ct_len + key_len);
                let tail = 16 + ct_len + key_len;
                let flag = b[tail];
                let del = spec_u64_from_le_bytes(b.subrange(tail + 1, tail + 9));
                let created = spec_u64_from_le_bytes(b.subrange(tail + 9, tail + 17));
                let count = spec_u64_from_le_bytes(b.subrange(tail + 17, tail + 25));
                if flag != 0 && flag != 1 {
                    None
                } else if flag == 0 && del != 0 {
                    None
                } else if !valid_utf8(ct_bytes) || !valid_utf8(key_bytes) {
                    None
                } else {
                    Some(
                        BlobMetadataView {
                            content_type: decode_utf8(ct_bytes),
                            access_key: decode_utf8(key_bytes),
                            created_at: created,
                            deletion_date: if flag == 1 {
                                Some(del)
                            } else {
                                None
                            },
                            download_count: count,
                        },
                    )
                }
            }
        }
    }
}

/// Relies on core::str::from_utf8: succeeds exactly on valid UTF-8 and
/// yields the character sequence those bytes encode.
#[verifier::external_body]
fn string_from_utf8(bytes: &[u8]) -> (r: Option<String>)
    ensures
        match r {
            Some(s) => valid_utf8(bytes@) && s@ == decode_utf8(bytes@),
            None => !valid_utf8(bytes@),
        },
{
    core::str::from_utf8(bytes).ok().map(|s| s.to_owned())
}

/// Serializes a record into the byte layout above.
pub fn encode_metadata(m: &BlobMetadata) -> (r: Vec<u8>)
    ensures
        r@ == spec_encode(m@),
{
    let mut ct_bytes = m.content_type.as_str().as_bytes_vec();
    let mut key_bytes = m.access_key.as_str().as_bytes_vec();
    let mut out = u64_to_le_bytes(ct_bytes.len() as u64);
    out.append(&mut ct_bytes);
    let mut key_len_bytes = u64_to_le_bytes(key_bytes.len() as u64);
    out.append(&mut key_len_bytes);
    out.append(&mut key_bytes);
    match m.deletion_date {
        Some(t) => {
            out.push(1u8);
            let mut ts = u64_to_le_bytes(t);
            out.append(&mut ts);
        },
        None => {
            out.push(0u8);
            let mut ts = u64_to_le_bytes(0u64);
            out.append(&mut ts);
        },
    }
    let mut created = u64_to_le_bytes(m.created_at);
    out.append(&mut created);
    let mut count = u64_to_le_bytes(m.download_count);
    out.append(&mut count);
    proof {
        assert(out@ =~= spec_encode(m@));
    }
    out
}

/// Parses the byte layout above; rejects anything else.
pub fn decode_metadata(b: &Vec<u8>) -> (r: Option<BlobMetadata>)
    ensures
        match r {
            Some(m) => spec_decode(b@) == Some(m@),
            None => spec_decode(b@) is None,
        },
{
    let n = b.len();
    if n < 16 {
        return None;
    }
    let ct_len_u64 = u64_from_le_bytes(slice_subrange(b.as_slice(), 0, 8));
    if ct_len_u64 > (n - 16) as u64 {
        return None;
    }
    let ct_len = ct_len_u64 as usize;
    let key_len_u64 = u64_from_le_bytes(slice_subrange(b.as_slice(), 8 + ct_len, 16 + ct_len));
    let avail = n - 16 - ct_len;
    if avail < TAIL_LEN {
        return None;
    }
    if key_len_u64 != (avail - TAIL_LEN) as u64 {
        return None;
    }
    let key_len = avail - TAIL_LEN;
    let ct_slice = slice_subrange(b.as_slice(), 8, 8 + ct_len);
    let key_slice = slice_subrange(b.as_slice(), 16 + ct_len, 16 + ct_len + key_len);
    let tail = 16 + ct_len + key_len;
    let flag = *slice_index_get(b.as_slice(), tail);
    let del = u64_from_le_bytes(slice_subrange(b.as_slice(), tail + 1, tail + 9));
    let created = u64_from_le_bytes(slice_subrange(b.as_slice(), tail + 9, tail + 17));
    let count = u64_from_le_bytes(slice_subrange(b.as_slice(), tail + 17, tail + 25));
    if flag != 0 && flag != 1 {
        return None;
    }
    if flag == 0 && del != 0 {
        return None;
    }
    let content_type = match string_from_utf8(ct_slice) {
        Some(s) => s,
        None => {
            return None;
        },
    };
    let access_key = match string_from_utf8(key_slice) {
        Some(s) => s,
        None => {
            return None;
        },
    };
    let m = BlobMetadata {
        content_type,
        access_key,
        created_at: created,
        deletion_date: if flag == 1 {
            Some(del)
        } else {
            None
        },
        download_count: count,
    };
    proof {
        assert(spec_decode(b@) == Some(m@));
    }
    Some(m)
}

/// A record small enough to frame: each string's UTF-8 form fits the
/// 8-byte length prefix. Every record an execution builds satisfies this.
pub open spec fn encodable(v: BlobMetadataView) -> bool {
    &&& encode_utf8(v.content_type).len() <= u64::MAX
    &&& encode_utf8(v.access_key).len() <= u64::MAX
}

/// Decoding inverts encoding: every record round-trips through the byte
/// layout unchanged.
pub proof fn lemma_codec_roundtrip(v: BlobMetadataView)
    requires
        encodable(v),
    ensures
        spec_decode(spec_encode(v)) == Some(v),
{
    lemma_auto_spec_u64_to_from_le_bytes();
    encode_utf8_valid_utf8(v.content_type);
    encode_utf8_valid_utf8(v.access_key);
    encode_utf8_decode_utf8(v.content_type);
    encode_utf8_decode_utf8(v.access_key);
    let cb = encode_utf8(v.content_type);
    let kb = encode_utf8(v.access_key);
    let l1 = cb.len() as int;
    let l2 = kb.len() as int;
    let b = spec_encode(v);
    assert(b.len() == 16 + l1 + l2 + 25);
    assert(b.subrange(0, 8) =~= spec_u64_to_le_bytes(l1 as u64));
    assert(b.subrange(8, 8 + l1) =~= cb);
    assert(b.subrange(8 + l1, 16 + l1) =~= spec_u64_to_le_bytes(l2 as u64));
    assert(b.subrange(16 + l1, 16 + l1 + l2) =~= kb);
    let tail = 16 + l1 + l2;
    assert(b[tail] == spec_deletion_flag(v));
    assert(b.subrange(tail + 1, tail + 9) =~= spec_u64_to_le_bytes(spec_deletion_ts(v)));
    assert(b.subrange(tail + 9, tail + 17) =~= spec_u64_to_le_bytes(v.created_at));
    assert(b.subrange(tail + 17, tail + 25) =~= spec_u64_to_le_bytes(v.download_count));
    assert(spec_u64_from_le_bytes(b.subrange(0, 8)) == l1 as u64);
    assert(spec_u64_from_le_bytes(b.subrange(8 + l1, 16 + l1)) == l2 as u64);
    match v.deletion_date {
        Some(t) => {
            assert(spec_decode(b) == Some(v));
        },
        None => {
            assert(spec_decode(b) == Some(v));
        },
    }
}

} // verus!
