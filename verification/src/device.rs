//! The device's master identity and the keys derived from it.
//!
//! One long-lived master Ed25519 key stays on the device. Each server gets its
//! own key derived from it (keyed by the server's pinned certificate, else its
//! endpoint), so servers cannot correlate the user; contacts recognise the user
//! by a separate, stable contact identity.

use vstd::prelude::*;
use crate::at_rest::open_bytes;
use crate::hashing::blake3_keyed_hash_spec;
use crate::hex::{hex_spec, to_hex};
use crate::identity::{ed25519_public_spec, IdentityKeyPair};
use crate::text::{chars_of, concat_str, string_from_chars, trim_chars, trim_spec};
use crate::backup::opened_blob_spec;

verus! {

/// The derivation context of the contact identity.
pub open spec fn contact_identity_context() -> Seq<u8> {
    vstd::utf8::encode_utf8("accord:contact-identity"@)
}

/// The stable contact-identity keypair derived from the master key.
pub fn contact_identity(master: &IdentityKeyPair) -> (kp: IdentityKeyPair)
    ensures
        kp@ == blake3_keyed_hash_spec(master@, contact_identity_context()),
{
    master.derive_for_context("accord:contact-identity".as_bytes())
}

/// The context a server's key is derived for: its pinned certificate when
/// there is one, else its endpoint.
pub open spec fn server_context(cert: Option<Seq<char>>, endpoint: Seq<char>) -> Seq<u8> {
    match cert {
        Some(c) => vstd::utf8::encode_utf8(c),
        None => vstd::utf8::encode_utf8(endpoint),
    }
}

/// The view of an optional string slice.
pub open spec fn opt_view(o: Option<&str>) -> Option<Seq<char>> {
    match o {
        Some(s) => Some(s@),
        None => None,
    }
}

/// The per-server identity keypair.
pub fn derive_for(master: &IdentityKeyPair, cert: Option<&str>, endpoint: &str) -> (kp: IdentityKeyPair)
    ensures
        kp@ == blake3_keyed_hash_spec(master@, server_context(opt_view(cert), endpoint@)),
{
    let context = match cert {
        Some(c) => c,
        None => endpoint,
    };
    master.derive_for_context(context.as_bytes())
}

/// The public half of the per-server identity key.
pub fn derived_pubkey_for(master: &IdentityKeyPair, cert: Option<&str>, endpoint: &str) -> (v: Vec<u8>)
    ensures
        v@ == ed25519_public_spec(
            blake3_keyed_hash_spec(master@, server_context(opt_view(cert), endpoint@)),
        ),
{
    let kp = derive_for(master, cert, endpoint);
    let pk = kp.public().to_bytes();
    let mut v: Vec<u8> = Vec::new();
    let mut i: usize = 0;
    while i < 32
        invariant
            i <= 32,
            pk@.len() == 32,
            v@ == pk@.take(i as int),
        decreases 32 - i,
    {
        v.push(pk[i]);
        assert(pk@.take(i + 1) =~= pk@.take(i as int).push(pk@[i as int]));
        i = i + 1;
    }
    assert(pk@.take(32) =~= pk@);
    v
}

/// The install id used when none can be read or stored.
pub open spec fn fallback_install_id() -> Seq<char> {
    "00000000"@
}

/// A stable, machine-unique device name: `label`, a hyphen, and the install id
/// (`"00000000"` when there is none).
pub fn device_name(label: &str, install_id: Option<String>) -> (name: String)
    ensures
        name@ == label@ + "-"@ + match install_id {
            Some(id) => id@,
            None => fallback_install_id(),
        },
{
    let id = match install_id {
        Some(id) => id,
        None => "00000000".to_owned(),
    };
    let head = concat_str(label, "-");
    concat_str(head.as_str(), id.as_str())
}

/// The install id stored in a file: its trimmed contents, unless blank.
pub fn install_id_from_file(contents: &str) -> (r: Option<String>)
    ensures
        trim_spec(contents@).len() == 0 ==> r is None,
        trim_spec(contents@).len() != 0 ==> (r matches Some(id) && id@ == trim_spec(contents@)),
{
    let chars = chars_of(contents);
    let trimmed = trim_chars(chars.as_slice());
    if trimmed.len() == 0 {
        None
    } else {
        Some(string_from_chars(trimmed.as_slice()))
    }
}

/// A fresh install id: the hex of the first four bytes of a random secret.
pub fn install_id_from_random(secret: &[u8; 32]) -> (id: String)
    ensures
        id@ == hex_spec(secret@.take(4)),
{
    let head: [u8; 4] = [secret[0], secret[1], secret[2], secret[3]];
    assert(head@ =~= secret@.take(4));
    to_hex(&head)
}

/// The master key read back from its file: the sealed form under `dek`, or an
/// older plaintext 32-byte key (`true`: re-save it sealed).
pub fn master_from_file(dek: &[u8; 32], bytes: &[u8]) -> (r: Option<(IdentityKeyPair, bool)>)
    ensures
        ({
            let opened = opened_blob_spec(dek@, bytes@);
            if opened is Some && opened->0.len() == 32 {
                r matches Some((kp, migrate)) && kp@ == opened->0 && !migrate
            } else if bytes@.len() == 32 {
                r matches Some((kp, migrate)) && kp@ == bytes@ && migrate
            } else {
                r is None
            }
        }),
{
    if let Some(pt) = open_bytes(dek, bytes) {
        if pt.len() == 32 {
            let secret: [u8; 32] = [
                pt[0], pt[1], pt[2], pt[3], pt[4], pt[5], pt[6], pt[7], pt[8], pt[9], pt[10],
                pt[11], pt[12], pt[13], pt[14], pt[15], pt[16], pt[17], pt[18], pt[19], pt[20],
                pt[21], pt[22], pt[23], pt[24], pt[25], pt[26], pt[27], pt[28], pt[29], pt[30],
                pt[31],
            ];
            assert(secret@ =~= pt@);
            return Some((IdentityKeyPair::from_secret_bytes(&secret), false));
        }
    }
    if bytes.len() == 32 {
        let secret: [u8; 32] = [
            bytes[0], bytes[1], bytes[2], bytes[3], bytes[4], bytes[5], bytes[6], bytes[7],
            bytes[8], bytes[9], bytes[10], bytes[11], bytes[12], bytes[13], bytes[14], bytes[15],
            bytes[16], bytes[17], bytes[18], bytes[19], bytes[20], bytes[21], bytes[22],
            bytes[23], bytes[24], bytes[25], bytes[26], bytes[27], bytes[28], bytes[29],
            bytes[30], bytes[31],
        ];
        assert(secret@ =~= bytes@);
        return Some((IdentityKeyPair::from_secret_bytes(&secret), true));
    }
    None
}

} // verus!
