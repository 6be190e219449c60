//! Ed25519 identity keys.
//!
//! Every user has a long-lived identity keypair. The private half signs MLS
//! messages and proves the user controls their account; the public half is what
//! peers verify against. Child keys for each server are derived from the master
//! seed with BLAKE3 in keyed (PRF) mode.

use vstd::prelude::*;
use crate::bytes::append_bytes;
use crate::error::CryptoError;
use crate::hashing::{blake3_hash, blake3_keyed_hash, blake3_hash_spec, blake3_keyed_hash_spec};
use crate::hex::{hex_spec, to_hex};
use ed25519_dalek::{Signature, Signer, SigningKey, VerifyingKey};

verus! {

/// Length of a raw Ed25519 private/public key in bytes.
pub const KEY_LEN: usize = 32;
/// Length of a raw Ed25519 signature in bytes.
pub const SIGNATURE_LEN: usize = 64;

/// The Ed25519 public key (compressed point) of a 32-byte secret seed.
pub uninterp spec fn ed25519_public_spec(secret: Seq<u8>) -> Seq<u8>;

/// The Ed25519 signature of `message` under a 32-byte secret seed.
pub uninterp spec fn ed25519_sign_spec(secret: Seq<u8>, message: Seq<u8>) -> Seq<u8>;

/// Whether 32 bytes decompress to a curve point `VerifyingKey::from_bytes` accepts.
pub uninterp spec fn ed25519_valid_point_spec(public: Seq<u8>) -> bool;

/// Whether `verify_strict` accepts `signature` over `message` for `public`.
pub uninterp spec fn ed25519_verify_strict_spec(public: Seq<u8>, message: Seq<u8>, signature: Seq<u8>) -> bool;

/// Calls `SigningKey::generate(&mut OsRng)` and `SigningKey::to_bytes`
/// (ed25519-dalek 2). Nothing is claimed of the random seed.
#[verifier::external_body]
fn ed25519_generate_seed() -> (seed: [u8; KEY_LEN]) {
    SigningKey::generate(&mut rand::rngs::OsRng).to_bytes()
}

/// Calls `SigningKey::from_bytes`, `SigningKey::verifying_key` and
/// `VerifyingKey::to_bytes` (ed25519-dalek 2). Claims: the bytes are the named
/// public key of the seed.
#[verifier::external_body]
fn ed25519_public_key(secret: &[u8; KEY_LEN]) -> (public: [u8; KEY_LEN])
    ensures
        public@ == ed25519_public_spec(secret@),
{
    SigningKey::from_bytes(secret).verifying_key().to_bytes()
}

/// Calls `SigningKey::from_bytes`, `Signer::sign` and `Signature::to_bytes`
/// (ed25519-dalek 2). Claims: the bytes are the named (deterministic) Ed25519
/// signature.
#[verifier::external_body]
fn ed25519_sign(secret: &[u8; KEY_LEN], message: &[u8]) -> (signature: [u8; SIGNATURE_LEN])
    ensures
        signature@ == ed25519_sign_spec(secret@, message@),
{
    SigningKey::from_bytes(secret).sign(message).to_bytes()
}

/// Calls `VerifyingKey::from_bytes` (ed25519-dalek 2). Claims: it succeeds
/// exactly on the named valid points; on failure the library error's message is
/// returned (its wording is not stated).
#[verifier::external_body]
fn ed25519_check_point(public: &[u8; KEY_LEN]) -> (r: Result<(), String>)
    ensures
        r is Ok <==> ed25519_valid_point_spec(public@),
{
    VerifyingKey::from_bytes(public).map(|_| ()).map_err(|e| e.to_string())
}

/// Calls `VerifyingKey::from_bytes`, `Signature::from_bytes` and
/// `VerifyingKey::verify_strict` (ed25519-dalek 2). Claims: the outcome is the
/// named strict verification (an undecodable key verifies nothing).
#[verifier::external_body]
fn ed25519_verify(public: &[u8; KEY_LEN], message: &[u8], signature: &[u8; SIGNATURE_LEN]) -> (ok: bool)
    ensures
        ok == ed25519_verify_strict_spec(public@, message@, signature@),
{
    match VerifyingKey::from_bytes(public) {
        Ok(key) => key.verify_strict(message, &Signature::from_bytes(signature)).is_ok(),
        Err(_) => false,
    }
}

/// A user's identity keypair, held as its 32-byte Ed25519 secret seed.
pub struct IdentityKeyPair {
    secret: [u8; KEY_LEN],
}

impl View for IdentityKeyPair {
    type V = Seq<u8>;

    /// The secret seed.
    closed spec fn view(&self) -> Seq<u8> {
        self.secret@
    }
}

/// The domain-separation prefix of symmetric-key derivation: `"sym:"`.
pub open spec fn sym_prefix() -> Seq<u8> {
    seq![115u8, 121u8, 109u8, 58u8]
}

impl IdentityKeyPair {
    /// Every identity secret is exactly one key length long.
    pub proof fn lemma_view_len(&self)
        ensures
            self@.len() == KEY_LEN,
    {
    }

    /// Generate a fresh identity keypair from the OS CSPRNG.
    pub fn generate() -> (kp: Self)
        ensures
            kp@.len() == KEY_LEN,
    {
        IdentityKeyPair { secret: ed25519_generate_seed() }
    }

    /// Reconstruct a keypair from previously-exported secret bytes.
    pub fn from_secret_bytes(bytes: &[u8; KEY_LEN]) -> (kp: Self)
        ensures
            kp@ == bytes@,
    {
        IdentityKeyPair { secret: *bytes }
    }

    /// Export the 32-byte secret key. Only ever persist this encrypted.
    pub fn secret_bytes(&self) -> (out: [u8; KEY_LEN])
        ensures
            out@ == self@,
    {
        self.secret
    }

    /// The public half, safe to share.
    pub fn public(&self) -> (pk: IdentityPublicKey)
        ensures
            pk@ == ed25519_public_spec(self@),
    {
        IdentityPublicKey { bytes: ed25519_public_key(&self.secret) }
    }

    /// Sign a message, returning the raw 64-byte signature.
    pub fn sign(&self, message: &[u8]) -> (sig: [u8; SIGNATURE_LEN])
        ensures
            sig@ == ed25519_sign_spec(self@, message@),
    {
        ed25519_sign(&self.secret, message)
    }

    /// Derive a deterministic, per-context child identity keypair: its seed is
    /// the BLAKE3 keyed hash of `context` under this key's seed.
    pub fn derive_for_context(&self, context: &[u8]) -> (child: IdentityKeyPair)
        ensures
            child@ == blake3_keyed_hash_spec(self@, context@),
    {
        let seed = blake3_keyed_hash(&self.secret, context);
        IdentityKeyPair::from_secret_bytes(&seed)
    }

    /// Derive a 32-byte symmetric key for `context`: the keyed hash of
    /// `"sym:" || context`, so it never coincides with a signing seed derived
    /// for the same context.
    pub fn derive_symmetric(&self, context: &[u8]) -> (key: [u8; KEY_LEN])
        ensures
            key@ == blake3_keyed_hash_spec(self@, sym_prefix() + context@),
    {
        let mut input: Vec<u8> = Vec::new();
        input.push(115u8);
        input.push(121u8);
        input.push(109u8);
        input.push(58u8);
        assert(input@ =~= sym_prefix());
        append_bytes(&mut input, context);
        blake3_keyed_hash(&self.secret, input.as_slice())
    }
}

/// The public half of an [`IdentityKeyPair`]; verifies signatures.
#[derive(Debug, Clone, Copy, PartialEq, Eq)]
pub struct IdentityPublicKey {
    bytes: [u8; KEY_LEN],
}

impl View for IdentityPublicKey {
    type V = Seq<u8>;

    /// The 32-byte compressed point.
    closed spec fn view(&self) -> Seq<u8> {
        self.bytes@
    }
}

/// The short fingerprint of a public key: hex of the first 8 digest bytes.
pub open spec fn fingerprint_spec(public: Seq<u8>) -> Seq<char> {
    hex_spec(blake3_hash_spec(public).take(8))
}

impl IdentityPublicKey {
    /// Every identity public key is exactly one key length long.
    pub proof fn lemma_view_len(&self)
        ensures
            self@.len() == KEY_LEN,
    {
    }

    /// Parse a public key from its raw 32-byte form; bytes that are not a
    /// valid point give `InvalidKey`.
    pub fn from_bytes(bytes: &[u8; KEY_LEN]) -> (r: Result<Self, CryptoError>)
        ensures
            r is Ok <==> ed25519_valid_point_spec(bytes@),
            r matches Ok(pk) ==> pk@ == bytes@,
            r matches Err(e) ==> e is InvalidKey,
    {
        match ed25519_check_point(bytes) {
            Ok(()) => Ok(IdentityPublicKey { bytes: *bytes }),
            Err(msg) => Err(CryptoError::InvalidKey(msg)),
        }
    }

    /// Export to raw 32-byte form.
    pub fn to_bytes(&self) -> (out: [u8; KEY_LEN])
        ensures
            out@ == self@,
    {
        self.bytes
    }

    /// A short, human-comparable fingerprint of this public key: lowercase hex
    /// of the first 8 bytes of its BLAKE3 digest.
    pub fn fingerprint(&self) -> (s: String)
        ensures
            s@ == fingerprint_spec(self@),
            s@.len() == 16,
    {
        let digest = blake3_hash(&self.bytes);
        let head = &digest[0..8];
        assert(head@ =~= blake3_hash_spec(self@).take(8));
        proof { crate::hex::lemma_hex_len(head@); }
        to_hex(head)
    }

    /// Verify `signature` over `message` with `verify_strict` (rejects
    /// malleable / non-canonical signatures).
    pub fn verify(&self, message: &[u8], signature: &[u8; SIGNATURE_LEN]) -> (r: Result<(), CryptoError>)
        ensures
            r is Ok <==> ed25519_verify_strict_spec(self@, message@, signature@),
            r matches Err(e) ==> e is BadSignature,
    {
        if ed25519_verify(&self.bytes, message, signature) {
            Ok(())
        } else {
            Err(CryptoError::BadSignature)
        }
    }
}

} // verus!
