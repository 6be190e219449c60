//! State kept off the device: blobs in each server's vault, sealed under keys
//! derived from the master key, and the password-encrypted backup of the master
//! key itself, which is what lets an identity survive a reinstall.

use vstd::prelude::*;
use crate::at_rest::open_bytes;
use crate::backup::{
    decrypt_backup, encrypt_backup, open, opened_blob_spec, params_bytes_spec, params_from_spec,
    seal, sealable, sealed_blob_spec, wrapping_key_spec, Argon2Params, NONCE_LEN, TAG_LEN,
};
use crate::device::{contact_identity, contact_identity_context, derive_for, opt_view, server_context};
use crate::error::crypto_error_text;
use crate::hashing::blake3_keyed_hash_spec;
use crate::identity::{sym_prefix, IdentityKeyPair};
use crate::text::{chars_of, concat_str, starts_with_str, string_from_chars};

verus! {

/// Vault name of the MLS session-state snapshot.
pub const MLS_STATE: &'static str = "mls-state";

/// The vault name of a group's message-history archive: `hist/<group_id>`.
pub fn history_blob_name(group_id: &str) -> (name: String)
    ensures
        name@ == "hist/"@ + group_id@,
{
    concat_str("hist/", group_id)
}

/// The group whose history a vault blob name holds: the rest of a name that
/// starts with `hist/`.
pub fn history_group_of(name: &str) -> (g: Option<String>)
    ensures
        ("hist/"@.len() <= name@.len() && name@.take(5) == "hist/"@) ==> (g matches Some(id) && id@
            == name@.skip(5)),
        !("hist/"@.len() <= name@.len() && name@.take(5) == "hist/"@) ==> g is None,
{
    proof {
        reveal_strlit("hist/");
    }
    if !starts_with_str(name, "hist/") {
        return None;
    }
    let cs = chars_of(name);
    let rest = crate::bytes_chars::copy_chars(cs.as_slice(), 5, cs.len());
    Some(string_from_chars(rest.as_slice()))
}

/// A group's history blob name reads back to the group.
pub proof fn lemma_history_name_roundtrip(group_id: Seq<char>)
    ensures
        ("hist/"@ + group_id).take(5) == "hist/"@,
        ("hist/"@ + group_id).skip(5) == group_id,
{
    reveal_strlit("hist/");
    assert(("hist/"@ + group_id).take(5) =~= "hist/"@);
    assert(("hist/"@ + group_id).skip(5) =~= group_id);
}

/// The key a vault blob named `name` is sealed under.
pub open spec fn vault_key_spec(master: Seq<u8>, name: Seq<char>) -> Seq<u8> {
    blake3_keyed_hash_spec(master, sym_prefix() + vstd::utf8::encode_utf8(name))
}

/// Seal `plaintext` for the vault under the key derived from the master key
/// for `name`.
pub fn vault_seal(master: &IdentityKeyPair, name: &str, plaintext: &[u8]) -> (r: Result<Vec<u8>, String>)
    ensures
        sealable(plaintext@) ==> r is Ok,
        r matches Ok(blob) ==> blob@ == sealed_blob_spec(
            vault_key_spec(master@, name@),
            blob@.take(NONCE_LEN as int),
            plaintext@,
        ),
        r matches Ok(blob) ==> blob@.len() == NONCE_LEN + plaintext@.len() + TAG_LEN,
{
    let key = master.derive_symmetric(name.as_bytes());
    match seal(&key, plaintext) {
        Ok(blob) => Ok(blob),
        Err(e) => Err(e.message()),
    }
}

/// Open a vault blob named `name`: `None` when it does not decrypt under the
/// key for that name. What [`vault_seal`] sealed under the same master key and
/// name opens to what was sealed.
pub fn vault_open(master: &IdentityKeyPair, name: &str, blob: &[u8]) -> (r: Option<Vec<u8>>)
    ensures
        r is Some <==> opened_blob_spec(vault_key_spec(master@, name@), blob@) is Some,
        r matches Some(pt) ==> Some(pt@) == opened_blob_spec(vault_key_spec(master@, name@), blob@),
        forall|nonce: Seq<u8>, pt: Seq<u8>|
            nonce.len() == NONCE_LEN && #[trigger] sealed_blob_spec(vault_key_spec(master@, name@), nonce, pt)
                == blob@ ==> (r matches Some(p) && p@ == pt),
{
    let key = master.derive_symmetric(name.as_bytes());
    match open(&key, blob) {
        Ok(pt) => Some(pt),
        Err(_) => None,
    }
}

/// The key that signs a session's MLS messages: the contact identity on the
/// home server (whose only MLS use is DMs with contacts), the server's derived
/// key elsewhere.
pub fn mls_signer(master: &IdentityKeyPair, is_home: bool, cert: Option<&str>, endpoint: &str) -> (kp: IdentityKeyPair)
    ensures
        is_home ==> kp@ == blake3_keyed_hash_spec(master@, contact_identity_context()),
        !is_home ==> kp@ == blake3_keyed_hash_spec(master@, server_context(opt_view(cert), endpoint@)),
{
    if is_home {
        contact_identity(master)
    } else {
        derive_for(master, cert, endpoint)
    }
}

/// The serialized MLS state read from its file: the sealed form under the data
/// key, else (an older file) the bytes as they are.
pub fn stored_engine_bytes(dek: &[u8; 32], file: Vec<u8>) -> (bytes: Vec<u8>)
    ensures
        opened_blob_spec(dek@, file@) is Some ==> Some(bytes@) == opened_blob_spec(dek@, file@),
        opened_blob_spec(dek@, file@) is None ==> bytes@ == file@,
{
    match open_bytes(dek, file.as_slice()) {
        Some(pt) => pt,
        None => file,
    }
}

/// The master key's backup as uploaded: the blob, its salt, and the wire form
/// of its KDF parameters.
pub struct KeyBackupUpload {
    pub encrypted_blob: Vec<u8>,
    pub salt: Vec<u8>,
    pub argon2_params: Vec<u8>,
}

/// Encrypt the master key's secret under `password` with the default KDF
/// parameters, ready to upload. Argon2 accepts the defaults and the fresh
/// salt, so this succeeds for any password Argon2 takes (up to `0xFFFF_FFFF`
/// bytes).
pub fn master_backup(password: &[u8], master: &IdentityKeyPair) -> (r: Result<KeyBackupUpload, String>)
    ensures
        password@.len() <= 0xFFFF_FFFF ==> r is Ok,
        r matches Ok(u) ==> {
            let params = Argon2Params { memory_kib: 262144u32, iterations: 4u32, parallelism: 4u32 };
            &&& u.argon2_params@ == params_bytes_spec(params)
            &&& u.encrypted_blob@.len() == NONCE_LEN + 32 + TAG_LEN
            &&& wrapping_key_spec(password@, u.salt@, params) is Some
            &&& u.encrypted_blob@ == sealed_blob_spec(
                wrapping_key_spec(password@, u.salt@, params)->0,
                u.encrypted_blob@.take(NONCE_LEN as int),
                master@,
            )
        },
{
    let secret = master.secret_bytes();
    let params = Argon2Params::default();
    match encrypt_backup(password, &secret, params) {
        Ok(enc) => {
            let p = enc.params.to_bytes();
            let mut salt: Vec<u8> = Vec::new();
            crate::bytes::append_bytes(&mut salt, &enc.salt);
            let mut argon2_params: Vec<u8> = Vec::new();
            crate::bytes::append_bytes(&mut argon2_params, &p);
            Ok(KeyBackupUpload { encrypted_blob: enc.blob, salt, argon2_params })
        },
        Err(e) => Err(e.message()),
    }
}

/// Recover the master key from a downloaded backup. Parameters that do not
/// parse give their error's message; a blob that does not decrypt (wrong
/// password) or is not a 32-byte secret is refused with a fixed message.
pub fn recover_master(password: &[u8], blob: &[u8], salt: &[u8], argon2_params: &[u8]) -> (r: Result<IdentityKeyPair, String>)
    ensures
        argon2_params@.len() != 12 ==> r is Err,
        argon2_params@.len() == 12 && blob@.len() < NONCE_LEN ==> (r matches Err(e) && e@
            == "could not decrypt key backup (wrong password?)"@),
        forall|nonce: Seq<u8>, secret: Seq<u8>|
            argon2_params@.len() == 12 && nonce.len() == NONCE_LEN && secret.len() == 32 && wrapping_key_spec(
                password@,
                salt@,
                params_from_spec(argon2_params@),
            ) is Some && #[trigger] sealed_blob_spec(
                wrapping_key_spec(password@, salt@, params_from_spec(argon2_params@))->0,
                nonce,
                secret,
            ) == blob@ ==> (r matches Ok(kp) && kp@ == secret),
        r matches Ok(kp) ==> argon2_params@.len() == 12 && wrapping_key_spec(
            password@,
            salt@,
            params_from_spec(argon2_params@),
        ) is Some && Some(kp@) == opened_blob_spec(
            wrapping_key_spec(password@, salt@, params_from_spec(argon2_params@))->0,
            blob@,
        ),
{
    let params = match Argon2Params::from_bytes(argon2_params) {
        Ok(p) => p,
        Err(e) => return Err(e.message()),
    };
    let secret = match decrypt_backup(password, blob, salt, params) {
        Ok(s) => s,
        Err(_) => return Err("could not decrypt key backup (wrong password?)".to_owned()),
    };
    if secret.len() != 32 {
        return Err("corrupt key backup".to_owned());
    }
    let arr: [u8; 32] = [
        secret[0], secret[1], secret[2], secret[3], secret[4], secret[5], secret[6], secret[7],
        secret[8], secret[9], secret[10], secret[11], secret[12], secret[13], secret[14],
        secret[15], secret[16], secret[17], secret[18], secret[19], secret[20], secret[21],
        secret[22], secret[23], secret[24], secret[25], secret[26], secret[27], secret[28],
        secret[29], secret[30], secret[31],
    ];
    assert(arr@ =~= secret@);
    Ok(IdentityKeyPair::from_secret_bytes(&arr))
}

/// What [`master_backup`] uploads is what [`recover_master`] restores: the
/// uploaded parameters parse back to the ones used, and the blob is the
/// sealing of the master secret under the key they and the password derive,
/// so recovery with the same password yields the same master key.
pub proof fn lemma_key_backup_restores(password: Seq<u8>, u: KeyBackupUpload, master: Seq<u8>)
    requires
        master.len() == 32,
        ({
            let params = Argon2Params { memory_kib: 262144u32, iterations: 4u32, parallelism: 4u32 };
            &&& u.argon2_params@ == params_bytes_spec(params)
            &&& u.encrypted_blob@.len() == NONCE_LEN + 32 + TAG_LEN
            &&& wrapping_key_spec(password, u.salt@, params) is Some
            &&& u.encrypted_blob@ == sealed_blob_spec(
                wrapping_key_spec(password, u.salt@, params)->0,
                u.encrypted_blob@.take(NONCE_LEN as int),
                master,
            )
        }),
    ensures
        u.argon2_params@.len() == 12,
        u.encrypted_blob@.take(NONCE_LEN as int).len() == NONCE_LEN,
        wrapping_key_spec(password, u.salt@, params_from_spec(u.argon2_params@)) is Some,
        sealed_blob_spec(
            wrapping_key_spec(password, u.salt@, params_from_spec(u.argon2_params@))->0,
            u.encrypted_blob@.take(NONCE_LEN as int),
            master,
        ) == u.encrypted_blob@,
{
    let params = Argon2Params { memory_kib: 262144u32, iterations: 4u32, parallelism: 4u32 };
    crate::backup::lemma_params_bytes_roundtrip(params);
}

/// Where an account's MLS engine comes from at sign-in.
pub enum EngineSource {
    /// This device's own saved copy.
    Local,
    /// The copy sealed in the server vault (after a reinstall).
    Vault,
    /// A new engine, signing with the key of [`mls_signer`].
    Fresh,
}

/// The engine to use at sign-in, in priority order: the local copy when there
/// is one (the vault is then not consulted), else the vault's copy when it
/// restores, else a fresh engine.
pub fn engine_source(local_found: bool, vault_restored: bool) -> (s: EngineSource)
    ensures
        local_found ==> s is Local,
        !local_found && vault_restored ==> s is Vault,
        !local_found && !vault_restored ==> s is Fresh,
{
    if local_found {
        EngineSource::Local
    } else if vault_restored {
        EngineSource::Vault
    } else {
        EngineSource::Fresh
    }
}

} // verus!
