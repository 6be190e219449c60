//! Encryption at rest for local client state.
//!
//! Sensitive local files are sealed with XChaCha20-Poly1305 under a random
//! 32-byte data-encryption key (DEK) that lives in the OS keyring. Reading the
//! keyring is the caller's job; these functions take the key.

use vstd::prelude::*;
use crate::backup::{open, opened_blob_spec, random_key, seal, sealable, sealed_blob_spec, NONCE_LEN, TAG_LEN};

verus! {

/// Accept the bytes the keyring returned as the DEK: they must be exactly 32
/// bytes long.
pub fn dek_from_secret(bytes: &[u8]) -> (r: Result<[u8; 32], String>)
    ensures
        r is Ok <==> bytes@.len() == 32,
        r matches Ok(k) ==> k@ == bytes@,
        r matches Err(m) ==> m@ == "keyring DEK has wrong length"@,
{
    if bytes.len() != 32 {
        return Err(String::from_str("keyring DEK has wrong length"));
    }
    let k = [
        bytes[0], bytes[1], bytes[2], bytes[3], bytes[4], bytes[5], bytes[6], bytes[7],
        bytes[8], bytes[9], bytes[10], bytes[11], bytes[12], bytes[13], bytes[14], bytes[15],
        bytes[16], bytes[17], bytes[18], bytes[19], bytes[20], bytes[21], bytes[22], bytes[23],
        bytes[24], bytes[25], bytes[26], bytes[27], bytes[28], bytes[29], bytes[30], bytes[31],
    ];
    assert(k@ =~= bytes@);
    Ok(k)
}

/// What reading the data key from the keyring gave.
pub enum KeyringRead {
    /// The stored secret.
    Found(Vec<u8>),
    /// No key is stored yet.
    NoEntry,
    /// The keyring failed, with its message.
    Failed(String),
}

/// What to do next to have a data key.
pub enum DekStep {
    /// Use this stored key.
    Use([u8; 32]),
    /// Store this freshly generated key in the keyring, then use it.
    Create([u8; 32]),
    /// Give up with this message.
    Fail(String),
}

/// The data key from what the keyring gave: a stored key is used when it is
/// exactly 32 bytes, a missing one is replaced by a fresh random key to store,
/// and a keyring failure is passed on.
pub fn dek_step(read: KeyringRead) -> (step: DekStep)
    ensures
        read matches KeyringRead::Found(b) ==> (if b@.len() == 32 {
            step matches DekStep::Use(k) && k@ == b@
        } else {
            step matches DekStep::Fail(m) && m@ == "keyring DEK has wrong length"@
        }),
        read is NoEntry ==> step is Create,
        read matches KeyringRead::Failed(e) ==> (step matches DekStep::Fail(m) && m == e),
{
    match read {
        KeyringRead::Found(bytes) => match dek_from_secret(bytes.as_slice()) {
            Ok(k) => DekStep::Use(k),
            Err(e) => DekStep::Fail(e),
        },
        KeyringRead::NoEntry => DekStep::Create(random_key()),
        KeyringRead::Failed(e) => DekStep::Fail(e),
    }
}

/// Seal `plaintext` for writing to disk under the data key.
pub fn seal_bytes(key: &[u8; 32], plaintext: &[u8]) -> (r: Result<Vec<u8>, String>)
    ensures
        sealable(plaintext@) ==> r is Ok,
        r matches Ok(blob) ==> blob@.len() == NONCE_LEN + plaintext@.len() + TAG_LEN,
        r matches Ok(blob) ==> blob@ == sealed_blob_spec(key@, blob@.take(NONCE_LEN as int), plaintext@),
{
    match seal(key, plaintext) {
        Ok(blob) => Ok(blob),
        Err(e) => Err(e.message()),
    }
}

/// Open a blob produced by [`seal_bytes`]; `None` when it cannot be decrypted
/// (wrong key, or not in the sealed format, e.g. an older plaintext file).
pub fn open_bytes(key: &[u8; 32], blob: &[u8]) -> (r: Option<Vec<u8>>)
    ensures
        r is Some <==> opened_blob_spec(key@, blob@) is Some,
        r matches Some(pt) ==> Some(pt@) == opened_blob_spec(key@, blob@),
        forall|nonce: Seq<u8>, pt: Seq<u8>| nonce.len() == NONCE_LEN && #[trigger] sealed_blob_spec(key@, nonce, pt) == blob@ ==> (r matches Some(p) && p@ == pt),
{
    match open(key, blob) {
        Ok(pt) => Some(pt),
        Err(_) => None,
    }
}

} // verus!
