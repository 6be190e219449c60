//! BLAKE3 hashing: identity-anchor digests and the keyed hash that derives
//! per-context keys.

use vstd::prelude::*;
use crate::bytes::append_bytes;
use vstd::string::StringSliceAdditionalSpecFns;

verus! {

/// Length of a BLAKE3 digest in bytes.
pub const DIGEST_LEN: usize = 32;

/// The BLAKE3 digest of `data`.
pub uninterp spec fn blake3_hash_spec(data: Seq<u8>) -> Seq<u8>;

/// The BLAKE3 keyed hash (PRF mode) of `data` under a 32-byte key.
pub uninterp spec fn blake3_keyed_hash_spec(key: Seq<u8>, data: Seq<u8>) -> Seq<u8>;

/// Calls `blake3::hash` (blake3 1.x) and copies out the 32 digest bytes. Claims:
/// the digest is the named BLAKE3 hash of the input.
#[verifier::external_body]
pub(crate) fn blake3_hash(data: &[u8]) -> (digest: [u8; DIGEST_LEN])
    ensures
        digest@ == blake3_hash_spec(data@),
{
    *blake3::hash(data).as_bytes()
}

/// Calls `blake3::keyed_hash` (blake3 1.x) and copies out the 32 digest bytes.
/// Claims: the digest is the named keyed hash of the input under `key`.
#[verifier::external_body]
pub(crate) fn blake3_keyed_hash(key: &[u8; 32], data: &[u8]) -> (digest: [u8; DIGEST_LEN])
    ensures
        digest@ == blake3_keyed_hash_spec(key@, data@),
{
    *blake3::keyed_hash(key, data).as_bytes()
}

/// Hash an identity anchor (e.g. a normalized email address) together with a
/// server-wide salt: `BLAKE3(identifier || salt)`.
///
/// Callers should normalize `identifier` (trim, lowercase) before hashing so the
/// same email always maps to the same digest.
pub fn identity_anchor_hash(identifier: &str, server_salt: &[u8]) -> (digest: [u8; DIGEST_LEN])
    ensures
        digest@ == blake3_hash_spec(identifier.spec_bytes() + server_salt@),
{
    let mut input: Vec<u8> = Vec::new();
    append_bytes(&mut input, identifier.as_bytes());
    append_bytes(&mut input, server_salt);
    blake3_hash(input.as_slice())
}

} // verus!
