use accord::at_rest::{dek_step, DekStep, KeyringRead};
use accord::at_rest::{dek_from_secret, open_bytes, seal_bytes};
use accord::backup::{decrypt_backup, derive_wrapping_key, encrypt_backup, open, seal, Argon2Params};
use accord::error::CryptoError;
use accord::hashing::identity_anchor_hash;
use accord::identity::{IdentityKeyPair, IdentityPublicKey};

// Cheap KDF parameters so the tests run fast.
fn fast_params() -> Argon2Params {
    Argon2Params {
        memory_kib: 8,
        iterations: 1,
        parallelism: 1,
    }
}

#[test]
fn encrypt_then_decrypt_roundtrips() {
    let secret = b"my-private-mls-keys";
    let backup = encrypt_backup(b"correct horse", secret, fast_params()).unwrap();
    let recovered =
        decrypt_backup(b"correct horse", &backup.blob, &backup.salt, backup.params).unwrap();
    assert_eq!(recovered.as_slice(), secret);
}

#[test]
fn wrong_password_fails() {
    let backup = encrypt_backup(b"right", b"secret", fast_params()).unwrap();
    let result = decrypt_backup(b"wrong", &backup.blob, &backup.salt, backup.params);
    assert!(matches!(result, Err(CryptoError::Decryption)));
}

#[test]
fn tampered_blob_fails() {
    let mut backup = encrypt_backup(b"pw", b"secret", fast_params()).unwrap();
    *backup.blob.last_mut().unwrap() ^= 0xFF; // flip a tag bit
    let result = decrypt_backup(b"pw", &backup.blob, &backup.salt, backup.params);
    assert!(result.is_err());
}

#[test]
fn params_byte_roundtrip() {
    let p = Argon2Params::default();
    assert_eq!(Argon2Params::from_bytes(&p.to_bytes()).unwrap(), p);
}

#[test]
fn params_bytes_are_little_endian_and_length_checked() {
    let p = Argon2Params::default();
    assert_eq!(p.to_bytes(), [0, 0, 4, 0, 4, 0, 0, 0, 4, 0, 0, 0]);
    assert!(Argon2Params::from_bytes(&[1, 2, 3]).is_err());
}

#[test]
fn bad_kdf_parameters_are_a_key_derivation_error() {
    let bad = Argon2Params { memory_kib: 8, iterations: 0, parallelism: 1 };
    assert!(matches!(encrypt_backup(b"pw", b"x", bad), Err(CryptoError::KeyDerivation(_))));
}

#[test]
fn backup_blob_carries_nonce_ciphertext_and_tag() {
    let backup = encrypt_backup(b"pw", b"12345", fast_params()).unwrap();
    assert_eq!(backup.blob.len(), 24 + 5 + 16);
    assert_ne!(&backup.blob[24..29], b"12345");
}

#[test]
fn deterministic_for_same_input() {
    let a = identity_anchor_hash("user@example.com", b"server-salt");
    let b = identity_anchor_hash("user@example.com", b"server-salt");
    assert_eq!(a, b);
}

#[test]
fn salt_changes_digest() {
    let a = identity_anchor_hash("user@example.com", b"salt-1");
    let b = identity_anchor_hash("user@example.com", b"salt-2");
    assert_ne!(a, b);
}

#[test]
fn anchor_hash_is_blake3_of_identifier_then_salt() {
    let digest = identity_anchor_hash("ab", b"c");
    assert_eq!(digest, *blake3::hash(b"abc").as_bytes());
}

#[test]
fn sign_and_verify_roundtrip() {
    let keypair = IdentityKeyPair::generate();
    let public = keypair.public();
    let msg = b"accord handshake";

    let sig = keypair.sign(msg);
    assert!(public.verify(msg, &sig).is_ok());
}

#[test]
fn verify_rejects_tampered_message() {
    let keypair = IdentityKeyPair::generate();
    let public = keypair.public();
    let sig = keypair.sign(b"original");
    assert!(public.verify(b"tampered", &sig).is_err());
}

#[test]
fn secret_bytes_roundtrip() {
    let keypair = IdentityKeyPair::generate();
    let restored = IdentityKeyPair::from_secret_bytes(&keypair.secret_bytes());
    // Same secret -> same public key.
    assert_eq!(keypair.public(), restored.public());
}

#[test]
fn public_key_bytes_roundtrip() {
    let public = IdentityKeyPair::generate().public();
    let restored = IdentityPublicKey::from_bytes(&public.to_bytes()).unwrap();
    assert_eq!(public, restored);
}

#[test]
fn derivation_is_deterministic() {
    let master = IdentityKeyPair::generate();
    let a = master.derive_for_context(b"server:abc");
    let b = master.derive_for_context(b"server:abc");
    assert_eq!(a.public(), b.public());
    // And the derived key can actually sign/verify.
    let sig = a.sign(b"hi");
    assert!(b.public().verify(b"hi", &sig).is_ok());
}

#[test]
fn different_contexts_are_unlinkable() {
    let master = IdentityKeyPair::generate();
    let a = master.derive_for_context(b"server:abc");
    let b = master.derive_for_context(b"server:xyz");
    assert_ne!(a.public(), b.public());
}

#[test]
fn derived_key_does_not_equal_master() {
    let master = IdentityKeyPair::generate();
    let child = master.derive_for_context(b"server:abc");
    assert_ne!(master.public(), child.public());
    assert_ne!(master.secret_bytes(), child.secret_bytes());
}

#[test]
fn symmetric_key_derivation() {
    let master = IdentityKeyPair::generate();
    // Deterministic per context.
    assert_eq!(
        master.derive_symmetric(b"vault:mls"),
        master.derive_symmetric(b"vault:mls")
    );
    // Different contexts -> different keys.
    assert_ne!(
        master.derive_symmetric(b"vault:mls"),
        master.derive_symmetric(b"vault:hist")
    );
    // Key-separated from the signing seed for the same context.
    assert_ne!(
        master.derive_symmetric(b"x"),
        master.derive_for_context(b"x").secret_bytes()
    );
}

#[test]
fn derivation_is_the_keyed_blake3_of_the_context() {
    let seed = [7u8; 32];
    let master = IdentityKeyPair::from_secret_bytes(&seed);
    let child = master.derive_for_context(b"ctx");
    assert_eq!(child.secret_bytes(), *blake3::keyed_hash(&seed, b"ctx").as_bytes());
    assert_eq!(
        master.derive_symmetric(b"ctx"),
        *blake3::keyed_hash(&seed, b"sym:ctx").as_bytes()
    );
}

#[test]
fn seal_open_roundtrip() {
    let key = IdentityKeyPair::generate().derive_symmetric(b"vault:mls");
    let blob = seal(&key, b"mls state bytes").unwrap();
    assert_eq!(open(&key, &blob).unwrap().as_slice(), b"mls state bytes");
    // Wrong key fails.
    let other = IdentityKeyPair::generate().derive_symmetric(b"vault:mls");
    assert!(open(&other, &blob).is_err());
}

#[test]
fn open_rejects_a_blob_shorter_than_a_nonce() {
    let key = [1u8; 32];
    assert!(matches!(open(&key, &[0u8; 10]), Err(CryptoError::Decryption)));
}

#[test]
fn fingerprint_is_stable_and_distinct() {
    let master = IdentityKeyPair::generate();
    let a = master.derive_for_context(b"server:abc");
    let b = master.derive_for_context(b"server:xyz");
    assert_eq!(a.public().fingerprint(), a.public().fingerprint());
    assert_ne!(a.public().fingerprint(), b.public().fingerprint());
    assert_eq!(a.public().fingerprint().len(), 16); // 8 bytes as hex
}

#[test]
fn fingerprint_is_hex_of_the_first_digest_bytes() {
    let public = IdentityKeyPair::from_secret_bytes(&[9u8; 32]).public();
    let digest = blake3::hash(&public.to_bytes());
    let expected: String = digest.as_bytes()[..8].iter().map(|b| format!("{b:02x}")).collect();
    assert_eq!(public.fingerprint(), expected);
}

#[test]
fn invalid_public_key_is_rejected() {
    // About half of all 32-byte strings are not curve points; find one.
    let bad = (0u8..=255)
        .map(|b| {
            let mut c = [0u8; 32];
            c[0] = b;
            c[31] = 0x7f;
            c
        })
        .find(|c| IdentityPublicKey::from_bytes(c).is_err())
        .expect("some encoding is not a point");
    assert!(matches!(IdentityPublicKey::from_bytes(&bad), Err(CryptoError::InvalidKey(_))));
}

#[test]
fn error_messages() {
    assert_eq!(CryptoError::BadSignature.message(), "signature verification failed");
    assert_eq!(
        CryptoError::Decryption.message(),
        "decryption failed: wrong password or corrupted backup"
    );
    assert_eq!(
        CryptoError::KeyDerivation("x".to_owned()).message(),
        "key derivation failed: x"
    );
    assert_eq!(CryptoError::InvalidKey("y".to_owned()).message(), "invalid key material: y");
}

#[test]
fn at_rest_seal_and_open() {
    let dek = dek_from_secret(&[5u8; 32]).unwrap();
    let blob = seal_bytes(&dek, b"contacts json").unwrap();
    assert_eq!(open_bytes(&dek, &blob).unwrap(), b"contacts json");
    // An older plaintext file does not open.
    assert!(open_bytes(&dek, b"plain old file bytes that are long enough").is_none());
    assert!(dek_from_secret(&[1u8; 31]).is_err());
}

#[test]
fn the_data_key_is_used_created_or_refused() {
    match dek_step(KeyringRead::Found(vec![5u8; 32])) {
        DekStep::Use(k) => assert_eq!(k, [5u8; 32]),
        _ => panic!("a stored 32-byte key is used"),
    }
    match dek_step(KeyringRead::Found(vec![5u8; 31])) {
        DekStep::Fail(m) => assert_eq!(m, "keyring DEK has wrong length"),
        _ => panic!("a short key is refused"),
    }
    assert!(matches!(dek_step(KeyringRead::NoEntry), DekStep::Create(_)));
    match dek_step(KeyringRead::Failed("locked".to_owned())) {
        DekStep::Fail(m) => assert_eq!(m, "locked"),
        _ => panic!("a keyring failure is passed on"),
    }
}

#[test]
fn parameter_bytes_of_the_wrong_length_say_how_many_came() {
    match Argon2Params::from_bytes(&[0u8; 11]) {
        Err(CryptoError::KeyDerivation(m)) => assert_eq!(m, "argon2_params must be 12 bytes, got 11"),
        _ => panic!("11 bytes are refused"),
    }
    match Argon2Params::from_bytes(&[0u8; 13]) {
        Err(CryptoError::KeyDerivation(m)) => assert_eq!(m, "argon2_params must be 12 bytes, got 13"),
        _ => panic!("13 bytes are refused"),
    }
}

#[test]
fn an_impossible_parallelism_is_refused_before_argon2_runs() {
    let params = Argon2Params { memory_kib: 64, iterations: 1, parallelism: 0x2000_0000 };
    match derive_wrapping_key(b"pw", &[7u8; 16], params) {
        Err(CryptoError::KeyDerivation(m)) => assert_eq!(m, "too many threads"),
        _ => panic!("refused"),
    }
    let params = Argon2Params { memory_kib: 8, iterations: 0, parallelism: u32::MAX };
    match derive_wrapping_key(b"pw", &[7u8; 16], params) {
        Err(CryptoError::KeyDerivation(m)) => assert_eq!(m, "too many threads"),
        _ => panic!("refused"),
    }
}

#[test]
fn sealed_at_rest_blobs_are_forty_bytes_longer_and_open_back() {
    let key = [3u8; 32];
    let blob = seal_bytes(&key, b"local state").unwrap();
    assert_eq!(blob.len(), b"local state".len() + 40);
    assert_eq!(open_bytes(&key, &blob), Some(b"local state".to_vec()));
}

#[test]
fn a_parallelism_beyond_argon2s_limit_gets_argon2s_own_message() {
    let params = Argon2Params { memory_kib: 64, iterations: 1, parallelism: 0x0100_0000 };
    match derive_wrapping_key(b"pw", &[7u8; 16], params) {
        Err(CryptoError::KeyDerivation(m)) => assert_eq!(m, "memory cost is too small"),
        _ => panic!("refused"),
    }
}
