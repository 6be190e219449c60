//! Password-encrypted key backup and raw-key sealing.
//!
//! A 256-bit wrapping key is derived from the user's password with Argon2id and
//! the private key material is encrypted with XChaCha20-Poly1305. Blob layout:
//! `[ 24-byte XChaCha20 nonce | ciphertext + 16-byte Poly1305 tag ]`.

use vstd::prelude::*;
use crate::text::decimal_spec;
use crate::bytes::{append_bytes, copy_range};
use crate::error::CryptoError;
use argon2::{Algorithm, Argon2, Params, Version};
use chacha20poly1305::aead::{Aead, KeyInit};
use rand::RngCore;

verus! {

/// Length of the XChaCha20-Poly1305 nonce.
pub const NONCE_LEN: usize = 24;
/// Length of the Argon2id-derived wrapping key.
pub const WRAPPING_KEY_LEN: usize = 32;
/// Length of the per-user salt.
pub const SALT_LEN: usize = 32;
/// Length of the Poly1305 tag appended to every ciphertext.
pub const TAG_LEN: usize = 16;

/// Argon2id cost parameters. Stored alongside the blob (they are not secret) so
/// any device can reproduce the wrapping key from the password.
#[derive(Debug, Clone, Copy, PartialEq, Eq, Structural)]
pub struct Argon2Params {
    /// Memory cost in KiB.
    pub memory_kib: u32,
    /// Number of passes.
    pub iterations: u32,
    /// Degree of parallelism (lanes).
    pub parallelism: u32,
}

/// The 12-byte wire form: three little-endian u32s.
pub open spec fn params_bytes_spec(p: Argon2Params) -> Seq<u8> {
    crate::bytes::le32_bytes(p.memory_kib) + crate::bytes::le32_bytes(p.iterations)
        + crate::bytes::le32_bytes(p.parallelism)
}

/// The parameters encoded by 12 wire bytes.
pub open spec fn params_from_spec(b: Seq<u8>) -> Argon2Params
    recommends
        b.len() == 12,
{
    Argon2Params {
        memory_kib: crate::bytes::le32_value(b[0], b[1], b[2], b[3]) as u32,
        iterations: crate::bytes::le32_value(b[4], b[5], b[6], b[7]) as u32,
        parallelism: crate::bytes::le32_value(b[8], b[9], b[10], b[11]) as u32,
    }
}

impl Default for Argon2Params {
    /// 256 MiB memory, 4 iterations, parallelism 4.
    fn default() -> (p: Self)
        ensures
            p == (Argon2Params { memory_kib: 262144u32, iterations: 4u32, parallelism: 4u32 }),
    {
        Argon2Params { memory_kib: 256 * 1024, iterations: 4, parallelism: 4 }
    }
}

impl Argon2Params {
    /// Serialize to 12 bytes (three little-endian u32s) for the `argon2_params`
    /// wire field.
    pub fn to_bytes(&self) -> (out: [u8; 12])
        ensures
            out@ == params_bytes_spec(*self),
    {
        let a = crate::bytes::u32_le_bytes(self.memory_kib);
        let b = crate::bytes::u32_le_bytes(self.iterations);
        let c = crate::bytes::u32_le_bytes(self.parallelism);
        let out = [a[0], a[1], a[2], a[3], b[0], b[1], b[2], b[3], c[0], c[1], c[2], c[3]];
        assert(out@ =~= params_bytes_spec(*self));
        out
    }

    /// Parse from the 12-byte wire form; any other length is a key-derivation
    /// error.
    pub fn from_bytes(bytes: &[u8]) -> (r: Result<Self, CryptoError>)
        ensures
            bytes@.len() == 12 <==> r is Ok,
            r matches Ok(p) ==> p == params_from_spec(bytes@),
            r matches Err(e) ==> (e matches CryptoError::KeyDerivation(m)
                && m@ == "argon2_params must be 12 bytes, got "@ + decimal_spec(bytes@.len())),
    {
        if bytes.len() != 12 {
            let mut msg = String::from_str("argon2_params must be 12 bytes, got ");
            crate::text::push_decimal(&mut msg, bytes.len());
            return Err(CryptoError::KeyDerivation(msg));
        }
        let m = crate::bytes::u32_from_le(bytes[0], bytes[1], bytes[2], bytes[3]);
        let t = crate::bytes::u32_from_le(bytes[4], bytes[5], bytes[6], bytes[7]);
        let p = crate::bytes::u32_from_le(bytes[8], bytes[9], bytes[10], bytes[11]);
        Ok(Argon2Params { memory_kib: m, iterations: t, parallelism: p })
    }
}

/// Round trip of the parameter wire form: parsing what `to_bytes` wrote gives
/// back the same parameters.
pub proof fn lemma_params_bytes_roundtrip(p: Argon2Params)
    ensures
        params_bytes_spec(p).len() == 12,
        params_from_spec(params_bytes_spec(p)) == p,
{
    crate::bytes::lemma_le32_roundtrip(p.memory_kib);
    crate::bytes::lemma_le32_roundtrip(p.iterations);
    crate::bytes::lemma_le32_roundtrip(p.parallelism);
    let b = params_bytes_spec(p);
    assert(b[0] == crate::bytes::le32_bytes(p.memory_kib)[0]);
    assert(b[4] == crate::bytes::le32_bytes(p.iterations)[0]);
    assert(b[8] == crate::bytes::le32_bytes(p.parallelism)[0]);
}

/// The product of [`encrypt_backup`]: everything needed to later decrypt, with
/// secrets already removed (the blob is ciphertext).
#[derive(Debug, Clone)]
pub struct EncryptedBackup {
    /// `nonce || ciphertext || tag`.
    pub blob: Vec<u8>,
    /// Per-user random salt used for Argon2id.
    pub salt: [u8; SALT_LEN],
    /// KDF parameters used.
    pub params: Argon2Params,
}

// ----- names for what the outside cryptography returns -----

/// XChaCha20-Poly1305 encryption (ciphertext with the 16-byte tag appended) of
/// a plaintext under a 32-byte key and a 24-byte nonce, no associated data.
pub uninterp spec fn xchacha_seal_spec(key: Seq<u8>, nonce: Seq<u8>, plaintext: Seq<u8>) -> Seq<u8>;

/// XChaCha20-Poly1305 decryption: the plaintext when the tag verifies.
pub uninterp spec fn xchacha_open_spec(key: Seq<u8>, nonce: Seq<u8>, ciphertext: Seq<u8>) -> Option<Seq<u8>>;

/// Argon2id (version 0x13) with the given cost parameters and a 32-byte output:
/// the derived key, or `None` when the parameters, password or salt are rejected.
pub uninterp spec fn argon2id_spec(
    password: Seq<u8>,
    salt: Seq<u8>,
    memory_kib: u32,
    iterations: u32,
    parallelism: u32,
) -> Option<Seq<u8>>;

/// The bytes held by an optional buffer.
pub open spec fn opt_bytes(o: Option<Vec<u8>>) -> Option<Seq<u8>> {
    match o {
        Some(v) => Some(v@),
        None => None,
    }
}

/// AEAD correctness as seen by one decryption: if `ciphertext` is the sealing
/// of some plaintext under the same key and nonce, the outcome is that plaintext.
pub open spec fn decrypts_what_was_sealed(key: Seq<u8>, nonce: Seq<u8>, ciphertext: Seq<u8>, outcome: Option<Seq<u8>>) -> bool {
    forall|pt: Seq<u8>| #[trigger] xchacha_seal_spec(key, nonce, pt) == ciphertext ==> outcome == Some(pt)
}

/// Calls `XChaCha20Poly1305::new_from_slice(key)` and then `Aead::encrypt` of
/// `chacha20poly1305` 0.10. Claims: the call succeeds whenever the plaintext is
/// shorter than `u32::MAX` 64-byte blocks (the crate's only error on this path),
/// and the output is the named ciphertext, 16 bytes longer than the plaintext.
#[verifier::external_body]
fn xchacha_encrypt(key: &[u8; 32], nonce: &[u8; 24], plaintext: &[u8]) -> (out: Option<Vec<u8>>)
    ensures
        plaintext@.len() / 64 < 0xffff_ffff ==> out is Some,
        out matches Some(ct) ==> ct@ == xchacha_seal_spec(key@, nonce@, plaintext@),
        out matches Some(ct) ==> ct@.len() == plaintext@.len() + 16,
{
    let cipher = chacha20poly1305::XChaCha20Poly1305::new_from_slice(key).ok()?;
    cipher.encrypt(chacha20poly1305::XNonce::from_slice(nonce), plaintext).ok()
}

/// Calls `XChaCha20Poly1305::new_from_slice(key)` and then `Aead::decrypt` of
/// `chacha20poly1305` 0.10. Claims: the result is the named decryption, and
/// (AEAD correctness) a ciphertext produced by encryption under the same key and
/// nonce decrypts to its plaintext. Whether a modified ciphertext is rejected is
/// a probabilistic property and is not stated.
#[verifier::external_body]
fn xchacha_decrypt(key: &[u8; 32], nonce: &[u8], ciphertext: &[u8]) -> (out: Option<Vec<u8>>)
    requires
        nonce@.len() == 24,
    ensures
        out is Some <==> xchacha_open_spec(key@, nonce@, ciphertext@) is Some,
        out matches Some(pt) ==> Some(pt@) == xchacha_open_spec(key@, nonce@, ciphertext@),
        decrypts_what_was_sealed(key@, nonce@, ciphertext@, opt_bytes(out)),
{
    let cipher = chacha20poly1305::XChaCha20Poly1305::new_from_slice(key).ok()?;
    cipher.decrypt(chacha20poly1305::XNonce::from_slice(nonce), ciphertext).ok()
}

/// Whether Argon2 accepts these costs, password and salt lengths for a 32-byte
/// output: `Params::new` checks `8 <= memory`, `8 * parallelism <= memory`,
/// `1 <= iterations` and `1 <= parallelism <= 0xFF_FFFF`; `hash_password_into`
/// checks a password of at most `0xFFFF_FFFF` bytes and a salt of 8 to
/// `0xFFFF_FFFF` bytes.
pub open spec fn argon2_accepts(password_len: nat, salt_len: nat, params: Argon2Params) -> bool {
    &&& 8 <= params.memory_kib
    &&& 8 * params.parallelism <= params.memory_kib
    &&& 1 <= params.iterations
    &&& 1 <= params.parallelism <= 0xFF_FFFF
    &&& password_len <= 0xFFFF_FFFF
    &&& 8 <= salt_len <= 0xFFFF_FFFF
}

/// Calls `argon2::Params::new(m, t, p, Some(32))`, `Argon2::new(Argon2id,
/// V0x13, params)` and `Argon2::hash_password_into` of `argon2` 0.5. Claims: the
/// outcome is the named Argon2id result; it succeeds whenever the checks of
/// [`argon2_accepts`] pass (the only errors on this path for a 32-byte output);
/// it fails for a parallelism above `0xFF_FFFF` (`Params::new` refuses it, by
/// this or an earlier check); on failure the argon2 error's message is returned
/// (its wording is not stated). A parallelism of `0x2000_0000` or more is not
/// admitted: `Params::new` computes `8 * parallelism` in `u32` first, which
/// overflows there.
#[verifier::external_body]
fn argon2id_derive(password: &[u8], salt: &[u8], params: Argon2Params) -> (out: Result<[u8; 32], String>)
    requires
        params.parallelism < 0x2000_0000,
    ensures
        argon2_accepts(password@.len(), salt@.len(), params) ==> out is Ok,
        params.parallelism > 0xFF_FFFF ==> out is Err,
        out is Ok <==> argon2id_spec(password@, salt@, params.memory_kib, params.iterations, params.parallelism) is Some,
        out matches Ok(k) ==> Some(k@) == argon2id_spec(password@, salt@, params.memory_kib, params.iterations, params.parallelism),
{
    let kdf = Params::new(params.memory_kib, params.iterations, params.parallelism, Some(32))
        .map_err(|e| e.to_string())?;
    let mut key = [0u8; 32];
    Argon2::new(Algorithm::Argon2id, Version::V0x13, kdf)
        .hash_password_into(password, salt, &mut key)
        .map_err(|e| e.to_string())?;
    Ok(key)
}

/// Fill a nonce from the OS CSPRNG (`rand::rngs::OsRng::fill_bytes`); nothing
/// is claimed of the bytes.
#[verifier::external_body]
fn random_nonce() -> (nonce: [u8; NONCE_LEN]) {
    let mut nonce = [0u8; NONCE_LEN];
    rand::rngs::OsRng.fill_bytes(&mut nonce);
    nonce
}

/// Generate a fresh random salt from the OS CSPRNG
/// (`rand::rngs::OsRng::fill_bytes`); nothing is claimed of the bytes.
#[verifier::external_body]
pub fn generate_salt() -> (salt: [u8; SALT_LEN]) {
    let mut salt = [0u8; SALT_LEN];
    rand::rngs::OsRng.fill_bytes(&mut salt);
    salt
}

/// Generate a random 32-byte key from the OS CSPRNG
/// (`rand::rngs::OsRng::fill_bytes`); nothing is claimed of the bytes.
#[verifier::external_body]
pub fn random_key() -> (key: [u8; WRAPPING_KEY_LEN]) {
    let mut key = [0u8; WRAPPING_KEY_LEN];
    rand::rngs::OsRng.fill_bytes(&mut key);
    key
}


/// Derive the 256-bit wrapping key from a password using Argon2id. A
/// parallelism of `0x2000_0000` or more, far beyond argon2's thread limit, is
/// refused as too many threads without calling argon2.
pub fn derive_wrapping_key(password: &[u8], salt: &[u8], params: Argon2Params) -> (r: Result<[u8; WRAPPING_KEY_LEN], CryptoError>)
    ensures
        r is Ok <==> wrapping_key_spec(password@, salt@, params) is Some,
        argon2_accepts(password@.len(), salt@.len(), params) ==> r is Ok,
        r matches Ok(k) ==> Some(k@) == wrapping_key_spec(password@, salt@, params),
        r matches Err(e) ==> e is KeyDerivation,
        params.parallelism >= 0x2000_0000 ==> (r matches Err(CryptoError::KeyDerivation(m))
            && m@ == "too many threads"@),
{
    if params.parallelism >= 0x2000_0000 {
        return Err(CryptoError::KeyDerivation("too many threads".to_string()));
    }
    match argon2id_derive(password, salt, params) {
        Ok(key) => Ok(key),
        Err(msg) => Err(CryptoError::KeyDerivation(msg)),
    }
}

/// The Argon2id wrapping key for these inputs, when Argon2 accepts them (never
/// for a parallelism above `0xFF_FFFF`).
pub open spec fn wrapping_key_spec(password: Seq<u8>, salt: Seq<u8>, params: Argon2Params) -> Option<Seq<u8>> {
    if params.parallelism > 0xFF_FFFF {
        None
    } else {
        argon2id_spec(password, salt, params.memory_kib, params.iterations, params.parallelism)
    }
}

/// Encrypt `plaintext` under a key derived from `password` with the given salt
/// and nonce: the deterministic core of [`encrypt_backup`].
pub fn encrypt_backup_with(
    password: &[u8],
    plaintext: &[u8],
    params: Argon2Params,
    salt: [u8; SALT_LEN],
    nonce: [u8; NONCE_LEN],
) -> (r: Result<EncryptedBackup, CryptoError>)
    ensures
        wrapping_key_spec(password@, salt@, params) is None ==> (r matches Err(e) && e is KeyDerivation),
        wrapping_key_spec(password@, salt@, params) is Some && sealable(plaintext@) ==> r is Ok,
        argon2_accepts(password@.len(), SALT_LEN as nat, params) ==> wrapping_key_spec(password@, salt@, params) is Some,
        r matches Ok(b) ==> b.salt == salt && b.params == params
            && b.blob@.len() == NONCE_LEN + plaintext@.len() + TAG_LEN
            && wrapping_key_spec(password@, salt@, params) is Some
            && b.blob@ == sealed_blob_spec(wrapping_key_spec(password@, salt@, params)->0, nonce@, plaintext@),
        r matches Err(e) ==> e is KeyDerivation || e is Decryption,
{
    let key = derive_wrapping_key(password, &salt, params)?;
    let blob = seal_with_nonce(&key, &nonce, plaintext)?;
    Ok(EncryptedBackup { blob, salt, params })
}

/// Encrypt `plaintext` (the user's serialized private key material) under a key
/// derived from `password`, generating a fresh salt and nonce.
pub fn encrypt_backup(password: &[u8], plaintext: &[u8], params: Argon2Params) -> (r: Result<EncryptedBackup, CryptoError>)
    ensures
        r matches Ok(b) ==> b.params == params
            && wrapping_key_spec(password@, b.salt@, params) is Some
            && b.blob@.len() == NONCE_LEN + plaintext@.len() + TAG_LEN
            && b.blob@ == sealed_blob_spec(wrapping_key_spec(password@, b.salt@, params)->0, b.blob@.take(NONCE_LEN as int), plaintext@),
        argon2_accepts(password@.len(), SALT_LEN as nat, params) && sealable(plaintext@) ==> r is Ok,
        r matches Err(e) ==> e is KeyDerivation || e is Decryption,
{
    let salt = generate_salt();
    let nonce = random_nonce();
    let r = encrypt_backup_with(password, plaintext, params, salt, nonce);
    if let Ok(b) = &r {
        assert(b.blob@.take(NONCE_LEN as int) =~= nonce@);
    }
    r
}

/// Decrypt a backup blob produced by [`encrypt_backup`]. A blob shorter than a
/// nonce, a wrong password or a tampered blob all give `Decryption`; parameters
/// that Argon2 rejects give `KeyDerivation`.
pub fn decrypt_backup(password: &[u8], blob: &[u8], salt: &[u8], params: Argon2Params) -> (r: Result<Vec<u8>, CryptoError>)
    ensures
        blob@.len() < NONCE_LEN ==> (r matches Err(e) && e is Decryption),
        blob@.len() >= NONCE_LEN && wrapping_key_spec(password@, salt@, params) is None ==> (r matches Err(e) && e is KeyDerivation),
        blob@.len() >= NONCE_LEN && wrapping_key_spec(password@, salt@, params) is Some ==> {
            &&& (r is Ok <==> opened_blob_spec(wrapping_key_spec(password@, salt@, params)->0, blob@) is Some)
            &&& (r matches Ok(pt) ==> Some(pt@) == opened_blob_spec(wrapping_key_spec(password@, salt@, params)->0, blob@))
            &&& (r matches Err(e) ==> e is Decryption)
        },
        forall|nonce: Seq<u8>, pt: Seq<u8>| nonce.len() == NONCE_LEN && wrapping_key_spec(password@, salt@, params) is Some && #[trigger] sealed_blob_spec(wrapping_key_spec(password@, salt@, params)->0, nonce, pt) == blob@ ==> (r matches Ok(p) && p@ == pt),
{
    if blob.len() < NONCE_LEN {
        return Err(CryptoError::Decryption);
    }
    let key = derive_wrapping_key(password, salt, params)?;
    open(&key, blob)
}

// ----- the blob format -----

/// A sealed blob: the nonce followed by the AEAD output.
pub open spec fn sealed_blob_spec(key: Seq<u8>, nonce: Seq<u8>, plaintext: Seq<u8>) -> Seq<u8> {
    nonce + xchacha_seal_spec(key, nonce, plaintext)
}

/// What opening `blob` under `key` yields: the nonce is the first 24 bytes, the
/// rest is the AEAD ciphertext; a blob shorter than a nonce is rejected.
pub open spec fn opened_blob_spec(key: Seq<u8>, blob: Seq<u8>) -> Option<Seq<u8>> {
    if blob.len() < NONCE_LEN {
        None
    } else {
        xchacha_open_spec(key, blob.take(NONCE_LEN as int), blob.skip(NONCE_LEN as int))
    }
}

/// Whether the AEAD accepts a plaintext of this length.
pub open spec fn sealable(plaintext: Seq<u8>) -> bool {
    plaintext.len() / 64 < 0xffff_ffff
}

/// Seal `plaintext` under `key` with the given `nonce`, returning
/// `nonce || ciphertext+tag`.
pub fn seal_with_nonce(key: &[u8; WRAPPING_KEY_LEN], nonce: &[u8; NONCE_LEN], plaintext: &[u8]) -> (r: Result<Vec<u8>, CryptoError>)
    ensures
        sealable(plaintext@) ==> r is Ok,
        r matches Ok(blob) ==> blob@ == sealed_blob_spec(key@, nonce@, plaintext@),
        r matches Ok(blob) ==> blob@.len() == NONCE_LEN + plaintext@.len() + TAG_LEN,
        r matches Err(e) ==> e is Decryption,
{
    let ciphertext = match xchacha_encrypt(key, nonce, plaintext) {
        Some(ct) => ct,
        None => return Err(CryptoError::Decryption),
    };
    let mut blob: Vec<u8> = Vec::new();
    append_bytes(&mut blob, nonce);
    append_bytes(&mut blob, &ciphertext);
    Ok(blob)
}

/// Seal `plaintext` under a raw 32-byte key with XChaCha20-Poly1305 and a fresh
/// random nonce, returning `nonce || ciphertext+tag`.
pub fn seal(key: &[u8; WRAPPING_KEY_LEN], plaintext: &[u8]) -> (r: Result<Vec<u8>, CryptoError>)
    ensures
        sealable(plaintext@) ==> r is Ok,
        r matches Ok(blob) ==> blob@.len() == NONCE_LEN + plaintext@.len() + TAG_LEN,
        r matches Ok(blob) ==> blob@ == sealed_blob_spec(key@, blob@.take(NONCE_LEN as int), plaintext@),
        r matches Err(e) ==> e is Decryption,
{
    let nonce = random_nonce();
    let r = seal_with_nonce(key, &nonce, plaintext);
    if let Ok(blob) = &r {
        assert(blob@.take(NONCE_LEN as int) =~= nonce@);
    }
    r
}

/// Open a blob under `key`: `Decryption` when it is shorter than a nonce or
/// the AEAD rejects it.
pub fn open(key: &[u8; WRAPPING_KEY_LEN], blob: &[u8]) -> (r: Result<Vec<u8>, CryptoError>)
    ensures
        r is Ok <==> opened_blob_spec(key@, blob@) is Some,
        r matches Ok(pt) ==> Some(pt@) == opened_blob_spec(key@, blob@),
        r matches Err(e) ==> e is Decryption,
        forall|nonce: Seq<u8>, pt: Seq<u8>|
            nonce.len() == NONCE_LEN && #[trigger] sealed_blob_spec(key@, nonce, pt) == blob@
                ==> (r matches Ok(p) && p@ == pt),
{
    if blob.len() < NONCE_LEN {
        return Err(CryptoError::Decryption);
    }
    let nonce = copy_range(blob, 0, NONCE_LEN);
    let ciphertext = &blob[NONCE_LEN..blob.len()];
    assert(nonce@ =~= blob@.take(NONCE_LEN as int));
    assert(ciphertext@ =~= blob@.skip(NONCE_LEN as int));
    let out = xchacha_decrypt(key, nonce.as_slice(), ciphertext);
    assert forall|n: Seq<u8>, pt: Seq<u8>|
        n.len() == NONCE_LEN && #[trigger] sealed_blob_spec(key@, n, pt) == blob@ implies (out matches Some(p) && p@ == pt) by {
        assert(blob@.take(NONCE_LEN as int) =~= n);
        assert(blob@.skip(NONCE_LEN as int) =~= xchacha_seal_spec(key@, n, pt));
    }
    match out {
        Some(pt) => Ok(pt),
        None => Err(CryptoError::Decryption),
    }
}

} // verus!
