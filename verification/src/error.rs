//! Error types of the cryptographic and MLS layers.

use vstd::prelude::*;

verus! {

/// Errors surfaced by the key-handling and encryption functions.
#[derive(Debug)]
pub enum CryptoError {
    /// A key or signature had the wrong length or encoding.
    InvalidKey(String),
    /// An Ed25519 signature failed verification.
    BadSignature,
    /// Argon2 key derivation failed (bad parameters).
    KeyDerivation(String),
    /// AEAD encryption/decryption failed (wrong password, or tampered blob).
    Decryption,
}

/// The human-readable text of an error.
pub open spec fn crypto_error_text(e: CryptoError) -> Seq<char> {
    match e {
        CryptoError::InvalidKey(d) => "invalid key material: "@ + d@,
        CryptoError::BadSignature => "signature verification failed"@,
        CryptoError::KeyDerivation(d) => "key derivation failed: "@ + d@,
        CryptoError::Decryption => "decryption failed: wrong password or corrupted backup"@,
    }
}

impl CryptoError {
    /// The human-readable message for this error.
    pub fn message(&self) -> (s: String)
        ensures
            s@ == crypto_error_text(*self),
    {
        match self {
            CryptoError::InvalidKey(detail) => {
                let mut s = String::from_str("invalid key material: ");
                s.append(detail.as_str());
                s
            },
            CryptoError::BadSignature => String::from_str("signature verification failed"),
            CryptoError::KeyDerivation(detail) => {
                let mut s = String::from_str("key derivation failed: ");
                s.append(detail.as_str());
                s
            },
            CryptoError::Decryption => String::from_str(
                "decryption failed: wrong password or corrupted backup",
            ),
        }
    }
}

} // verus!
