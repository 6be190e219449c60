//! One device's MLS state machine, backed by OpenMLS.
//!
//! The engine owns an OpenMLS provider (which stores all key and group state)
//! and the device's signing identity. Its operations take and return plain
//! bytes; every OpenMLS call sits behind a small trusted wrapper below, and the
//! engine's own logic (which group to load, how each failure is reported, which
//! members carry an identity) is verified here.
//!
//! Ciphersuite: `MLS_128_DHKEMX25519_AES128GCM_SHA256_Ed25519`.

use vstd::prelude::*;
use openmls::prelude::tls_codec::{Deserialize as _, Serialize as _};
use openmls_traits::OpenMlsProvider as _;
use crate::identity::{ed25519_public_spec, IdentityKeyPair};
use crate::mls::{DecryptOutcome, MlsError};
use crate::text::concat_str;
use crate::backup::opt_bytes;
use crate::bytes::copy_range;

verus! {

/// `OpenMlsRustCrypto`, carried through as an opaque value.
#[verifier::external_type_specification]
#[verifier::external_body]
pub struct ExOpenMlsRustCrypto(openmls_rust_crypto::OpenMlsRustCrypto);

/// `SignatureKeyPair`, carried through as an opaque value.
#[verifier::external_type_specification]
#[verifier::external_body]
pub struct ExSignatureKeyPair(openmls_basic_credential::SignatureKeyPair);

/// `CredentialWithKey`, carried through as an opaque value.
#[verifier::external_type_specification]
#[verifier::external_body]
pub struct ExCredentialWithKey(openmls::prelude::CredentialWithKey);

/// `Credential`, carried through as an opaque value.
#[verifier::external_type_specification]
#[verifier::external_body]
pub struct ExCredential(openmls::prelude::Credential);

/// `MlsGroup`, carried through as an opaque value.
#[verifier::external_type_specification]
#[verifier::external_body]
pub struct ExMlsGroup(openmls::prelude::MlsGroup);

/// `KeyPackageBundle`, carried through as an opaque value.
#[verifier::external_type_specification]
#[verifier::external_body]
pub struct ExKeyPackageBundle(openmls::prelude::KeyPackageBundle);

/// `KeyPackageIn`, carried through as an opaque value.
#[verifier::external_type_specification]
#[verifier::external_body]
pub struct ExKeyPackageIn(openmls::prelude::KeyPackageIn);

/// `KeyPackage`, carried through as an opaque value.
#[verifier::external_type_specification]
#[verifier::external_body]
pub struct ExKeyPackage(openmls::prelude::KeyPackage);

/// `MlsMessageOut`, carried through as an opaque value.
#[verifier::external_type_specification]
#[verifier::external_body]
pub struct ExMlsMessageOut(openmls::prelude::MlsMessageOut);

/// `MlsMessageIn`, carried through as an opaque value.
#[verifier::external_type_specification]
#[verifier::external_body]
pub struct ExMlsMessageIn(openmls::prelude::MlsMessageIn);

/// `ProtocolMessage`, carried through as an opaque value.
#[verifier::external_type_specification]
#[verifier::external_body]
pub struct ExProtocolMessage(openmls::prelude::ProtocolMessage);


/// `StagedCommit`, carried through as an opaque value.
#[verifier::external_type_specification]
#[verifier::external_body]
pub struct ExStagedCommit(openmls::prelude::StagedCommit);

/// `StagedWelcome`, carried through as an opaque value.
#[verifier::external_type_specification]
#[verifier::external_body]
pub struct ExStagedWelcome(openmls::prelude::StagedWelcome);

/// `Ciphersuite`, carried through as an opaque value.
#[verifier::external_type_specification]
#[verifier::external_body]
pub struct ExCiphersuite(openmls::prelude::Ciphersuite);

/// `MlsGroupCreateConfig`, carried through as an opaque value.
#[verifier::external_type_specification]
#[verifier::external_body]
pub struct ExMlsGroupCreateConfig(openmls::prelude::MlsGroupCreateConfig);

/// `MlsGroupJoinConfig`, carried through as an opaque value.
#[verifier::external_type_specification]
#[verifier::external_body]
pub struct ExMlsGroupJoinConfig(openmls::prelude::MlsGroupJoinConfig);

/// `RatchetTreeIn`, carried through as an opaque value.
#[verifier::external_type_specification]
#[verifier::external_body]
pub struct ExRatchetTreeIn(openmls::prelude::RatchetTreeIn);

/// What processing an inbound protocol message produced, with the OpenMLS
/// payloads carried as they are.
pub enum ProcessedContent {
    Application(Vec<u8>),
    StagedCommit(openmls::prelude::StagedCommit),
    Other,
}

/// What `MlsGroup::load` gives for group `group_id` from an in-memory storage
/// holding these key/value pairs (the storage error's text on failure).
pub uninterp spec fn mls_load(storage: Map<Seq<u8>, Seq<u8>>, group_id: Seq<u8>) -> Result<Option<openmls::prelude::MlsGroup>, String>;

/// What `MlsGroup::load` finds for group `group_id` in the provider's storage:
/// `Some(true)` the group, `Some(false)` no such group, `None` a storage error.
pub open spec fn mls_group_found(provider: openmls_rust_crypto::OpenMlsRustCrypto, group_id: Seq<u8>) -> Option<bool> {
    match mls_load(mls_storage(provider), group_id) {
        Ok(Some(_)) => Some(true),
        Ok(None) => Some(false),
        Err(_) => None,
    }
}

/// The identities of the members of group `group_id` as `MlsGroup::load` finds
/// it in the provider's storage, in member order: a basic credential's
/// identity, or `None` for any other credential type (empty when there is no
/// such group).
pub open spec fn mls_stored_members(provider: openmls_rust_crypto::OpenMlsRustCrypto, group_id: Seq<u8>) -> Seq<Option<Seq<u8>>> {
    match mls_load(mls_storage(provider), group_id) {
        Ok(Some(g)) => mls_members(g),
        _ => Seq::empty(),
    }
}

/// The members of a group (`MlsGroup::members`), in member order, each as its
/// basic credential's identity or `None` for any other credential type.
pub uninterp spec fn mls_members(group: openmls::prelude::MlsGroup) -> Seq<Option<Seq<u8>>>;

/// The key/value pairs held by a provider's in-memory storage.
pub uninterp spec fn mls_storage(provider: openmls_rust_crypto::OpenMlsRustCrypto) -> Map<Seq<u8>, Seq<u8>>;

/// What `MlsMessageIn::tls_deserialize_exact` reads from these bytes (the
/// error's text when they are not one whole MLS message).
pub uninterp spec fn mls_parse_message(bytes: Seq<u8>) -> Result<openmls::prelude::MlsMessageIn, String>;

/// Whether `MlsMessageIn::tls_deserialize_exact` reads these bytes as one
/// whole MLS message.
pub open spec fn mls_message_parses(bytes: Seq<u8>) -> bool {
    mls_parse_message(bytes) is Ok
}

/// What `MlsMessageIn::try_into_protocol_message` gives for a message (the
/// error's text when it is no protocol message).
pub uninterp spec fn mls_protocol_of(message: openmls::prelude::MlsMessageIn) -> Result<openmls::prelude::ProtocolMessage, String>;

/// What `MlsGroup::process_message` gives for a protocol message, processed by
/// `group` with a provider whose storage holds `storage`, told apart by
/// `ProcessedMessage::into_content` (the error's text on failure).
pub uninterp spec fn mls_processed(
    group: openmls::prelude::MlsGroup,
    storage: Map<Seq<u8>, Seq<u8>>,
    message: openmls::prelude::ProtocolMessage,
) -> Result<ProcessedContent, String>;

/// Whether `KeyPackageIn::tls_deserialize_exact` reads these bytes as one
/// whole key package.
pub uninterp spec fn mls_key_package_parses(bytes: Seq<u8>) -> bool;

/// The map made of key/value pairs, a later pair for a key replacing an
/// earlier one.
pub open spec fn entries_map(s: Seq<(Seq<u8>, Seq<u8>)>) -> Map<Seq<u8>, Seq<u8>>
    decreases s.len(),
{
    if s.len() == 0 {
        Map::empty()
    } else {
        entries_map(s.drop_last()).insert(s.last().0, s.last().1)
    }
}

/// Whether a storage holds no key/value pair at all.
pub open spec fn holds_nothing(storage: Map<Seq<u8>, Seq<u8>>) -> bool {
    storage == Map::<Seq<u8>, Seq<u8>>::empty()
}

/// The byte sequences of key/value pairs.
pub open spec fn pair_views(v: Seq<(Vec<u8>, Vec<u8>)>) -> Seq<(Seq<u8>, Seq<u8>)> {
    v.map_values(|p: (Vec<u8>, Vec<u8>)| (p.0@, p.1@))
}

/// The private key bytes a signature key pair holds.
pub uninterp spec fn mls_signer_private(signer: openmls_basic_credential::SignatureKeyPair) -> Seq<u8>;

/// The public key bytes a signature key pair holds.
pub uninterp spec fn mls_signer_public_key(signer: openmls_basic_credential::SignatureKeyPair) -> Seq<u8>;

/// `Ciphersuite::try_from` of its wire code; code `0x0001` is
/// `MLS_128_DHKEMX25519_AES128GCM_SHA256_Ed25519`.
#[verifier::external_body]
fn mls_ciphersuite(code: u16) -> (r: Option<openmls::prelude::Ciphersuite>)
    ensures
        code == 1 ==> r is Some,
{
    openmls::prelude::Ciphersuite::try_from(code).ok()
}

/// `MlsGroupCreateConfig::builder()` with the given ciphersuite and use of the
/// ratchet-tree extension, otherwise the defaults.
#[verifier::external_body]
fn mls_create_config(
    suite: openmls::prelude::Ciphersuite,
    use_ratchet_tree_extension: bool,
) -> (c: openmls::prelude::MlsGroupCreateConfig) {
    openmls::prelude::MlsGroupCreateConfig::builder()
        .ciphersuite(suite)
        .use_ratchet_tree_extension(use_ratchet_tree_extension)
        .build()
}

/// `MlsGroupJoinConfig::builder().build()`: the default join configuration.
#[verifier::external_body]
fn mls_default_join_config() -> (c: openmls::prelude::MlsGroupJoinConfig) {
    openmls::prelude::MlsGroupJoinConfig::builder().build()
}

/// `OpenMlsRustCrypto::default()`: a provider with empty storage.
#[verifier::external_body]
fn mls_provider() -> (p: openmls_rust_crypto::OpenMlsRustCrypto)
    ensures
        holds_nothing(mls_storage(p)),
{
    openmls_rust_crypto::OpenMlsRustCrypto::default()
}

/// `SignatureKeyPair::from_raw` for the signature scheme of `suite`: a pair
/// holding exactly the given private and public key bytes.
#[verifier::external_body]
fn mls_signer_from_raw(
    suite: openmls::prelude::Ciphersuite,
    secret: &[u8; 32],
    public: &[u8; 32],
) -> (s: openmls_basic_credential::SignatureKeyPair)
    ensures
        mls_signer_private(s) == secret@,
        mls_signer_public_key(s) == public@,
{
    openmls_basic_credential::SignatureKeyPair::from_raw(suite.signature_algorithm(), secret.to_vec(), public.to_vec())
}

/// `SignatureKeyPair::store` into the provider's in-memory storage, the error's
/// text on failure. That storage's `write_signature_key_pair` inserts the
/// serialized pair into its map and returns `Ok` (it panics only on a poisoned
/// lock, which a provider no thread has panicked with never has), so the call
/// succeeds on a fresh provider. Which key it writes is left unsaid.
#[verifier::external_body]
fn mls_store_signer(
    signer: &openmls_basic_credential::SignatureKeyPair,
    provider: &mut openmls_rust_crypto::OpenMlsRustCrypto,
) -> (r: Result<(), String>)
    ensures
        holds_nothing(mls_storage(*old(provider))) ==> r is Ok,
{
    signer.store(provider.storage()).map_err(|e| e.to_string())
}

/// `SignatureKeyPair::read` from the provider's storage for the signature
/// scheme of `suite`.
#[verifier::external_body]
fn mls_read_signer(
    provider: &openmls_rust_crypto::OpenMlsRustCrypto,
    public_key: &[u8],
    suite: openmls::prelude::Ciphersuite,
) -> (s: Option<openmls_basic_credential::SignatureKeyPair>) {
    openmls_basic_credential::SignatureKeyPair::read(provider.storage(), public_key, suite.signature_algorithm())
}

/// `SignatureKeyPair::to_public_vec`: the signer's public key bytes.
#[verifier::external_body]
fn mls_signer_public(signer: &openmls_basic_credential::SignatureKeyPair) -> (v: Vec<u8>)
    ensures
        v@ == mls_signer_public_key(*signer),
{
    signer.to_public_vec()
}

/// A `CredentialWithKey` made of a basic credential holding `identity` and the
/// signature key `signature_key`.
#[verifier::external_body]
fn mls_credential(identity: &[u8], signature_key: &[u8]) -> (c: openmls::prelude::CredentialWithKey) {
    openmls::prelude::CredentialWithKey {
        credential: openmls::prelude::BasicCredential::new(identity.to_vec()).into(),
        signature_key: signature_key.into(),
    }
}

/// A copy of every key/value pair of the provider's in-memory storage (each key
/// once, so they make up exactly [`mls_storage`]), `None` when its lock is
/// poisoned. Nothing is claimed of the order.
#[verifier::external_body]
fn mls_storage_entries(provider: &openmls_rust_crypto::OpenMlsRustCrypto) -> (r: Option<Vec<(Vec<u8>, Vec<u8>)>>)
    ensures
        r matches Some(v) ==> entries_map(pair_views(v@)) == mls_storage(*provider),
{
    let map = provider.storage().values.read().ok()?;
    Some(map.iter().map(|(k, v)| (k.clone(), v.clone())).collect())
}

/// A provider whose storage holds exactly `entries` (collected into its map, so
/// a later pair for the same key wins), `None` when the storage lock is
/// poisoned.
#[verifier::external_body]
fn mls_provider_with(entries: Vec<(Vec<u8>, Vec<u8>)>) -> (r: Option<openmls_rust_crypto::OpenMlsRustCrypto>)
    ensures
        r matches Some(p) ==> mls_storage(p) == entries_map(pair_views(entries@)),
{
    let provider = openmls_rust_crypto::OpenMlsRustCrypto::default();
    *provider.storage().values.write().ok()? = entries.into_iter().collect();
    Some(provider)
}

/// `KeyPackage::builder().build(..)` for `suite`; the error's text on failure.
#[verifier::external_body]
fn mls_build_key_package(
    provider: &mut openmls_rust_crypto::OpenMlsRustCrypto,
    suite: openmls::prelude::Ciphersuite,
    signer: &openmls_basic_credential::SignatureKeyPair,
    credential: &openmls::prelude::CredentialWithKey,
) -> (r: Result<openmls::prelude::KeyPackageBundle, String>) {
    openmls::prelude::KeyPackage::builder()
        .build(suite, &*provider, signer, credential.clone())
        .map_err(|e| e.to_string())
}

/// The TLS serialization of a bundle's key package; the error's text on
/// failure. What it writes is a key package's wire form, which
/// `KeyPackageIn::tls_deserialize_exact` reads back.
#[verifier::external_body]
fn mls_key_package_bytes(bundle: &openmls::prelude::KeyPackageBundle) -> (r: Result<Vec<u8>, String>)
    ensures
        r matches Ok(b) ==> mls_key_package_parses(b@),
{
    bundle.key_package().tls_serialize_detached().map_err(|e| e.to_string())
}

/// `MlsGroup::new_with_group_id` with the given create configuration; the
/// error's text on failure. On success the new group has been
/// written to the provider's storage under `group_id` (`MlsGroup::store`), so
/// `MlsGroup::load` finds it there.
#[verifier::external_body]
fn mls_new_group(
    provider: &mut openmls_rust_crypto::OpenMlsRustCrypto,
    signer: &openmls_basic_credential::SignatureKeyPair,
    config: &openmls::prelude::MlsGroupCreateConfig,
    group_id: &[u8],
    credential: &openmls::prelude::CredentialWithKey,
) -> (r: Result<(), String>)
    ensures
        r is Ok ==> mls_group_found(*final(provider), group_id@) == Some(true),
{
    openmls::prelude::MlsGroup::new_with_group_id(
        &*provider,
        signer,
        config,
        openmls::prelude::GroupId::from_slice(group_id),
        credential.clone(),
    )
    .map(|_| ())
    .map_err(|e| e.to_string())
}

/// `MlsGroup::load` from the provider's storage; the storage error's text on
/// failure.
#[verifier::external_body]
fn mls_load_group(
    provider: &openmls_rust_crypto::OpenMlsRustCrypto,
    group_id: &[u8],
) -> (r: Result<Option<openmls::prelude::MlsGroup>, String>)
    ensures
        r == mls_load(mls_storage(*provider), group_id@),
{
    openmls::prelude::MlsGroup::load(provider.storage(), &openmls::prelude::GroupId::from_slice(group_id))
        .map_err(|e| e.to_string())
}

/// `KeyPackageIn::tls_deserialize_exact`; the error's text on failure. It
/// succeeds exactly when [`mls_key_package_parses`] holds of the bytes.
#[verifier::external_body]
fn mls_key_package_in(bytes: &[u8]) -> (r: Result<openmls::prelude::KeyPackageIn, String>)
    ensures
        r is Ok <==> mls_key_package_parses(bytes@),
{
    openmls::prelude::KeyPackageIn::tls_deserialize_exact(bytes).map_err(|e| e.to_string())
}

/// `KeyPackageIn::validate` for MLS 1.0; the error's text on failure.
#[verifier::external_body]
fn mls_validate_key_package(
    kp: openmls::prelude::KeyPackageIn,
    provider: &openmls_rust_crypto::OpenMlsRustCrypto,
) -> (r: Result<openmls::prelude::KeyPackage, String>) {
    kp.validate(provider.crypto(), openmls::prelude::ProtocolVersion::Mls10).map_err(|e| e.to_string())
}

/// `MlsGroup::add_members` of one key package: the commit and the welcome
/// (the group info is dropped); the error's text on failure.
#[verifier::external_body]
fn mls_add_members(
    group: &mut openmls::prelude::MlsGroup,
    provider: &mut openmls_rust_crypto::OpenMlsRustCrypto,
    signer: &openmls_basic_credential::SignatureKeyPair,
    kp: openmls::prelude::KeyPackage,
) -> (r: Result<(openmls::prelude::MlsMessageOut, openmls::prelude::MlsMessageOut), String>) {
    match group.add_members(&*provider, signer, &[kp]) {
        Ok((commit, welcome, _group_info)) => Ok((commit, welcome)),
        Err(e) => Err(e.to_string()),
    }
}

/// `MlsGroup::merge_pending_commit`; the error's text on failure.
#[verifier::external_body]
fn mls_merge_pending(
    group: &mut openmls::prelude::MlsGroup,
    provider: &mut openmls_rust_crypto::OpenMlsRustCrypto,
) -> (r: Result<(), String>) {
    group.merge_pending_commit(&*provider).map_err(|e| e.to_string())
}

/// `MlsMessageOut::to_bytes`; the error's text on failure. What it writes is an
/// MLS message's wire form, which `MlsMessageIn::tls_deserialize_exact` reads
/// back.
#[verifier::external_body]
fn mls_out_bytes(m: &openmls::prelude::MlsMessageOut) -> (r: Result<Vec<u8>, String>)
    ensures
        r matches Ok(b) ==> mls_message_parses(b@),
{
    m.to_bytes().map_err(|e| e.to_string())
}

/// `MlsMessageIn::tls_deserialize_exact`; the error's text on failure.
#[verifier::external_body]
fn mls_message_in(bytes: &[u8]) -> (r: Result<openmls::prelude::MlsMessageIn, String>)
    ensures
        r == mls_parse_message(bytes@),
{
    openmls::prelude::MlsMessageIn::tls_deserialize_exact(bytes).map_err(|e| e.to_string())
}

/// For a message that carries a Welcome (`MlsMessageIn::extract`), the
/// result of `StagedWelcome::new_from_welcome` with the given join
/// configuration and ratchet tree (the error's text on failure); `Ok(None)`
/// for any other kind of message.
#[verifier::external_body]
fn mls_stage_welcome(
    provider: &mut openmls_rust_crypto::OpenMlsRustCrypto,
    config: &openmls::prelude::MlsGroupJoinConfig,
    m: openmls::prelude::MlsMessageIn,
    ratchet_tree: Option<openmls::prelude::RatchetTreeIn>,
) -> (r: Result<Option<openmls::prelude::StagedWelcome>, String>) {
    match m.extract() {
        openmls::prelude::MlsMessageBodyIn::Welcome(w) => {
            match openmls::prelude::StagedWelcome::new_from_welcome(&*provider, config, w, ratchet_tree) {
                Ok(s) => Ok(Some(s)),
                Err(e) => Err(e.to_string()),
            }
        },
        _ => Ok(None),
    }
}

/// `StagedWelcome::into_group`, giving the joined group's id; the error's text
/// on failure. On success the group has been written to the provider's
/// storage (`MlsGroup::store`), so `MlsGroup::load` finds it under that id.
#[verifier::external_body]
fn mls_into_group(
    staged: openmls::prelude::StagedWelcome,
    provider: &mut openmls_rust_crypto::OpenMlsRustCrypto,
) -> (r: Result<Vec<u8>, String>)
    ensures
        r matches Ok(id) ==> mls_group_found(*final(provider), id@) == Some(true),
{
    staged
        .into_group(&*provider)
        .map(|g| g.group_id().as_slice().to_vec())
        .map_err(|e| e.to_string())
}

/// `MlsGroup::create_message`; the error's text on failure.
#[verifier::external_body]
fn mls_create_message(
    group: &mut openmls::prelude::MlsGroup,
    provider: &mut openmls_rust_crypto::OpenMlsRustCrypto,
    signer: &openmls_basic_credential::SignatureKeyPair,
    plaintext: &[u8],
) -> (r: Result<openmls::prelude::MlsMessageOut, String>) {
    group.create_message(&*provider, signer, plaintext).map_err(|e| e.to_string())
}

/// `MlsMessageIn::try_into_protocol_message`; the error's text on failure.
#[verifier::external_body]
fn mls_protocol_message(m: openmls::prelude::MlsMessageIn) -> (r: Result<openmls::prelude::ProtocolMessage, String>)
    ensures
        r == mls_protocol_of(m),
{
    m.try_into_protocol_message().map_err(|e| e.to_string())
}

/// `MlsGroup::process_message`, its result told apart by
/// `ProcessedMessage::into_content`: an application message's bytes, a staged
/// commit, or anything else; the error's text on failure.
#[verifier::external_body]
fn mls_process_message(
    group: &mut openmls::prelude::MlsGroup,
    provider: &mut openmls_rust_crypto::OpenMlsRustCrypto,
    message: openmls::prelude::ProtocolMessage,
) -> (r: Result<ProcessedContent, String>)
    ensures
        r == mls_processed(*old(group), mls_storage(*old(provider)), message),
{
    match group.process_message(&*provider, message) {
        Ok(p) => Ok(match p.into_content() {
            openmls::prelude::ProcessedMessageContent::ApplicationMessage(app) => ProcessedContent::Application(app.into_bytes()),
            openmls::prelude::ProcessedMessageContent::StagedCommitMessage(staged) => ProcessedContent::StagedCommit(*staged),
            _ => ProcessedContent::Other,
        }),
        Err(e) => Err(e.to_string()),
    }
}

/// `MlsGroup::merge_staged_commit`; the error's text on failure.
#[verifier::external_body]
fn mls_merge_staged(
    group: &mut openmls::prelude::MlsGroup,
    provider: &mut openmls_rust_crypto::OpenMlsRustCrypto,
    staged: openmls::prelude::StagedCommit,
) -> (r: Result<(), String>) {
    group.merge_staged_commit(&*provider, staged).map_err(|e| e.to_string())
}

/// Each current member of the group (`MlsGroup::members`), in member order, as
/// its basic credential's identity (`BasicCredential::try_from`), `None` for any
/// other credential type.
#[verifier::external_body]
fn mls_member_identities(group: &openmls::prelude::MlsGroup) -> (v: Vec<Option<Vec<u8>>>)
    ensures
        v@.map_values(|o: Option<Vec<u8>>| opt_bytes(o)) == mls_members(*group),
{
    group
        .members()
        .map(|m| openmls::prelude::BasicCredential::try_from(m.credential).ok().map(|b| b.identity().to_vec()))
        .collect()
}

/// An engine's state as persisted: the provider's storage as key/value pairs,
/// the credential identity, and the signer's public key.
pub struct EngineState {
    pub storage: Vec<(Vec<u8>, Vec<u8>)>,
    pub identity: Vec<u8>,
    pub public_key: Vec<u8>,
}

/// The wire code of the engine's ciphersuite,
/// `MLS_128_DHKEMX25519_AES128GCM_SHA256_Ed25519`.
pub const MLS_CIPHERSUITE: u16 = 0x0001;

/// One device's MLS state machine.
pub struct MlsEngine {
    provider: openmls_rust_crypto::OpenMlsRustCrypto,
    suite: openmls::prelude::Ciphersuite,
    signer: openmls_basic_credential::SignatureKeyPair,
    credential_with_key: openmls::prelude::CredentialWithKey,
    /// The credential identity (the signing key's public bytes).
    identity: Vec<u8>,
}

impl View for MlsEngine {
    type V = (Seq<u8>, Seq<u8>);

    /// The credential identity, and the private key the engine signs with.
    closed spec fn view(&self) -> (Seq<u8>, Seq<u8>) {
        (self.identity@, mls_signer_private(self.signer))
    }
}

/// Whether `e` is a protocol error whose message starts with `context`.
pub open spec fn protocol_in(e: MlsError, context: Seq<char>) -> bool {
    e matches MlsError::Protocol(m) && context.len() <= m@.len() && m@.take(context.len() as int) == context
}

/// How an operation on a group ends when the group does not load: with
/// `UnknownGroup` when the storage has no such group, with `State` when the
/// storage cannot be read; when the group loads, with neither.
pub open spec fn loads_group_first<T>(stored: Option<bool>, r: Result<T, MlsError>) -> bool {
    &&& stored == Some(false) ==> (r matches Err(e) && e is UnknownGroup)
    &&& stored is None ==> (r matches Err(e) && e is State)
    &&& stored == Some(true) ==> !(r matches Err(e) && (e is UnknownGroup || e is State))
}

/// A protocol error whose message is `context` followed by `detail`.
fn protocol(context: &str, detail: String) -> (e: MlsError)
    ensures
        e matches MlsError::Protocol(m) && m@ == context@ + detail@,
        protocol_in(e, context@),
{
    proof {
        assert((context@ + detail@).take(context@.len() as int) =~= context@);
    }
    MlsError::Protocol(concat_str(context, detail.as_str()))
}

/// What processing an inbound message gave: an application message's
/// plaintext, a commit with the outcome of merging it, or anything else.
pub enum Processed {
    Application(Vec<u8>),
    Commit(Result<(), String>),
    Other,
}

/// What [`outcome_of`] answers for `p`.
pub open spec fn outcome_matches(p: Processed, r: Result<DecryptOutcome, MlsError>) -> bool {
    match p {
        Processed::Application(b) => r matches Ok(DecryptOutcome::Application(x)) && x@ == b@,
        Processed::Commit(Ok(())) => r matches Ok(DecryptOutcome::CommitApplied),
        Processed::Commit(Err(e)) => r matches Err(MlsError::Protocol(m)) && m@ == "merge staged commit: "@ + e@,
        Processed::Other => r matches Ok(DecryptOutcome::Other),
    }
}

/// The outcome reported for a processed message: the plaintext of an
/// application message, `CommitApplied` for a merged commit (a failed merge is
/// a protocol error), `Other` for anything else.
pub fn outcome_of(p: Processed) -> (r: Result<DecryptOutcome, MlsError>)
    ensures
        outcome_matches(p, r),
{
    match p {
        Processed::Application(b) => Ok(DecryptOutcome::Application(b)),
        Processed::Commit(Ok(())) => Ok(DecryptOutcome::CommitApplied),
        Processed::Commit(Err(e)) => Err(protocol("merge staged commit: ", e)),
        Processed::Other => Ok(DecryptOutcome::Other),
    }
}

/// What [`MlsEngine::process_incoming`] answers for what OpenMLS made of a
/// message (see [`MlsEngine::incoming`]): a message that is no protocol message
/// or that processing rejects is a protocol error carrying OpenMLS's text, an
/// application message gives its plaintext, a commit is merged (`CommitApplied`,
/// or a protocol error when the merge fails), and anything else is `Other`.
pub open spec fn incoming_outcome(
    incoming: Result<Result<ProcessedContent, String>, String>,
    r: Result<DecryptOutcome, MlsError>,
) -> bool {
    match incoming {
        Err(e) => r matches Err(MlsError::Protocol(m)) && m@ == "not a protocol message: "@ + e@,
        Ok(Err(e)) => r matches Err(MlsError::Protocol(m)) && m@ == "process message: "@ + e@,
        Ok(Ok(ProcessedContent::Application(b))) => r matches Ok(DecryptOutcome::Application(x)) && x@ == b@,
        Ok(Ok(ProcessedContent::StagedCommit(_))) => r matches Ok(DecryptOutcome::CommitApplied)
            || (r matches Err(e) && protocol_in(e, "merge staged commit: "@)),
        Ok(Ok(ProcessedContent::Other)) => r matches Ok(DecryptOutcome::Other),
    }
}

/// The identities that are present, in order.
pub open spec fn present_ids(ids: Seq<Option<Seq<u8>>>) -> Seq<Seq<u8>>
    decreases ids.len(),
{
    if ids.len() == 0 {
        Seq::empty()
    } else {
        match ids.last() {
            Some(x) => present_ids(ids.drop_last()).push(x),
            None => present_ids(ids.drop_last()),
        }
    }
}

/// The identities that are present among `ids`, in order.
pub fn present_identities(ids: &Vec<Option<Vec<u8>>>) -> (out: Vec<Vec<u8>>)
    ensures
        out@.map_values(|x: Vec<u8>| x@) == present_ids(ids@.map_values(|o: Option<Vec<u8>>| opt_bytes(o))),
{
    let ghost f = |o: Option<Vec<u8>>| opt_bytes(o);
    let ghost g = |x: Vec<u8>| x@;
    let mut out: Vec<Vec<u8>> = Vec::new();
    let mut i: usize = 0;
    while i < ids.len()
        invariant
            i <= ids@.len(),
            f == (|o: Option<Vec<u8>>| opt_bytes(o)),
            g == (|x: Vec<u8>| x@),
            out@.map_values(g) == present_ids(ids@.map_values(f).take(i as int)),
        decreases ids@.len() - i,
    {
        let ghost before = out@;
        proof {
            assert(ids@.map_values(f).take(i + 1).drop_last() =~= ids@.map_values(f).take(i as int));
            assert(ids@.map_values(f).take(i + 1).last() == opt_bytes(ids@[i as int]));
        }
        match &ids[i] {
            Some(v) => {
                let c = copy_range(v.as_slice(), 0, v.len());
                proof {
                    assert(v@.subrange(0, v@.len() as int) =~= v@);
                }
                out.push(c);
                proof {
                    assert(out@.map_values(g) =~= before.map_values(g).push(v@));
                }
            },
            None => {},
        }
        i = i + 1;
    }
    proof {
        assert(ids@.map_values(f).take(ids@.len() as int) =~= ids@.map_values(f));
    }
    out
}

impl MlsEngine {
    /// What this engine's storage holds for group `group_id`: `Some(true)` the
    /// group, `Some(false)` no such group, `None` a storage that cannot be read.
    pub closed spec fn stored_group(&self, group_id: Seq<u8>) -> Option<bool> {
        mls_group_found(self.provider, group_id)
    }

    /// The identities of the members of the stored group `group_id`, in member
    /// order (`None` for a member without a basic credential).
    pub closed spec fn stored_members(&self, group_id: Seq<u8>) -> Seq<Option<Seq<u8>>> {
        mls_stored_members(self.provider, group_id)
    }

    /// The key/value pairs in this engine's storage.
    pub closed spec fn storage(&self) -> Map<Seq<u8>, Seq<u8>> {
        mls_storage(self.provider)
    }

    /// What OpenMLS makes of `message` for the group `group_id` held in this
    /// engine's storage, before any commit is merged: the text of
    /// `try_into_protocol_message`'s error, or what processing the protocol
    /// message gives. It speaks of a group that loads and of bytes that parse
    /// as an MLS message; of anything else it says nothing.
    pub closed spec fn incoming(&self, group_id: Seq<u8>, message: Seq<u8>) -> Result<Result<ProcessedContent, String>, String> {
        match (mls_load(mls_storage(self.provider), group_id), mls_parse_message(message)) {
            (Ok(Some(g)), Ok(m)) => match mls_protocol_of(m) {
                Ok(pm) => Ok(mls_processed(g, mls_storage(self.provider), pm)),
                Err(e) => Err(e),
            },
            _ => vstd::pervasive::arbitrary(),
        }
    }

    /// The public key of the engine's signing key pair.
    pub closed spec fn signer_public(&self) -> Seq<u8> {
        mls_signer_public_key(self.signer)
    }

    /// A fresh engine whose signing key is the device's Ed25519 identity key
    /// and whose leaf credential is that key's public bytes.
    pub fn new(signing: &IdentityKeyPair) -> (r: Result<Self, MlsError>)
        ensures
            r is Ok,
            r matches Ok(e) ==> e@ == (ed25519_public_spec(signing@), signing@)
                && e.signer_public() == ed25519_public_spec(signing@),
    {
        let suite = match mls_ciphersuite(MLS_CIPHERSUITE) {
            Some(c) => c,
            None => return Err(MlsError::State("store signer: unsupported ciphersuite".to_owned())),
        };
        let mut provider = mls_provider();
        let public = signing.public().to_bytes();
        let secret = signing.secret_bytes();
        let signer = mls_signer_from_raw(suite, &secret, &public);
        if let Err(e) = mls_store_signer(&signer, &mut provider) {
            return Err(MlsError::State(concat_str("store signer: ", e.as_str())));
        }
        let credential_with_key = mls_credential(&public, &public);
        let mut identity: Vec<u8> = Vec::new();
        crate::bytes::append_bytes(&mut identity, &public);
        Ok(MlsEngine { provider, suite, signer, credential_with_key, identity })
    }

    /// The leaf credential identity (the signing key's public bytes).
    pub fn credential_identity(&self) -> (id: &[u8])
        ensures
            id@ == self@.0,
    {
        self.identity.as_slice()
    }

    /// The engine's whole state, for local storage or the vault.
    pub fn export_state(&self) -> (r: Result<EngineState, MlsError>)
        ensures
            r matches Ok(s) ==> s.identity@ == self@.0 && s.public_key@ == self.signer_public()
                && entries_map(pair_views(s.storage@)) == self.storage(),
            r matches Err(e) ==> (e matches MlsError::State(m) && m@ == "storage lock poisoned"@),
    {
        let storage = match mls_storage_entries(&self.provider) {
            Some(s) => s,
            None => return Err(MlsError::State("storage lock poisoned".to_owned())),
        };
        let mut identity: Vec<u8> = Vec::new();
        crate::bytes::append_bytes(&mut identity, self.identity.as_slice());
        Ok(EngineState { storage, identity, public_key: mls_signer_public(&self.signer) })
    }

    /// Restore an engine from an exported state; the signer must be found in
    /// the restored storage.
    pub fn import_state(state: EngineState) -> (r: Result<Self, MlsError>)
        ensures
            r matches Ok(e) ==> e@.0 == state.identity@ && e.storage() == entries_map(pair_views(state.storage@)),
            r matches Err(e) ==> (e matches MlsError::State(m) && (m@ == "storage lock poisoned"@
                || m@ == "signer not found in restored storage"@)),
    {
        let suite = match mls_ciphersuite(MLS_CIPHERSUITE) {
            Some(c) => c,
            None => return Err(MlsError::State("storage lock poisoned".to_owned())),
        };
        let provider = match mls_provider_with(state.storage) {
            Some(p) => p,
            None => return Err(MlsError::State("storage lock poisoned".to_owned())),
        };
        let signer = match mls_read_signer(&provider, state.public_key.as_slice(), suite) {
            Some(s) => s,
            None => return Err(MlsError::State("signer not found in restored storage".to_owned())),
        };
        let credential_with_key = mls_credential(state.identity.as_slice(), state.public_key.as_slice());
        Ok(MlsEngine { provider, suite, signer, credential_with_key, identity: state.identity })
    }

    /// `count` freshly built key packages (wire bytes) to publish; their private
    /// halves stay in this engine's storage.
    pub fn generate_key_packages(&mut self, count: usize) -> (r: Result<Vec<Vec<u8>>, MlsError>)
        ensures
            final(self)@ == old(self)@,
            r matches Ok(v) ==> v@.len() == count,
            r matches Ok(v) ==> forall|i: int| 0 <= i < v@.len() ==> mls_key_package_parses(#[trigger] v@[i]@),
            r matches Err(e) ==> protocol_in(e, "build key package: "@) || e is Codec,
    {
        let mut out: Vec<Vec<u8>> = Vec::new();
        let mut i: usize = 0;
        while i < count
            invariant
                i <= count,
                out@.len() == i,
                self@ == old(self)@,
                forall|j: int| 0 <= j < out@.len() ==> mls_key_package_parses(#[trigger] out@[j]@),
            decreases count - i,
        {
            let bundle = match mls_build_key_package(&mut self.provider, self.suite, &self.signer, &self.credential_with_key) {
                Ok(b) => b,
                Err(e) => return Err(protocol("build key package: ", e)),
            };
            let bytes = match mls_key_package_bytes(&bundle) {
                Ok(b) => b,
                Err(e) => return Err(MlsError::Codec(e)),
            };
            out.push(bytes);
            i = i + 1;
        }
        Ok(out)
    }

    /// Create group `group_id` with this device as its only member, using the
    /// ratchet-tree extension so joiners need no separate tree.
    pub fn create_group(&mut self, group_id: &[u8]) -> (r: Result<(), MlsError>)
        ensures
            final(self)@ == old(self)@,
            r is Ok ==> final(self).stored_group(group_id@) == Some(true),
            r matches Err(e) ==> protocol_in(e, "create group: "@),
    {
        let config = mls_create_config(self.suite, true);
        match mls_new_group(&mut self.provider, &self.signer, &config, group_id, &self.credential_with_key) {
            Ok(()) => Ok(()),
            Err(e) => Err(protocol("create group: ", e)),
        }
    }

    /// The group `group_id` from this engine's storage; `UnknownGroup` when it
    /// has none, `State` when the storage cannot be read.
    fn load_group(&self, group_id: &[u8]) -> (r: Result<openmls::prelude::MlsGroup, MlsError>)
        ensures
            r is Ok <==> self.stored_group(group_id@) == Some(true),
            (r matches Err(e) && e is UnknownGroup) <==> self.stored_group(group_id@) == Some(false),
            (r matches Err(e) && e is State) <==> self.stored_group(group_id@) is None,
            r matches Err(e) ==> e is UnknownGroup || e is State,
            r matches Ok(g) ==> mls_members(g) == self.stored_members(group_id@),
            r matches Ok(g) ==> (mls_load(mls_storage(self.provider), group_id@) matches Ok(Some(x)) && x == g),
    {
        match mls_load_group(&self.provider, group_id) {
            Ok(Some(g)) => Ok(g),
            Ok(None) => Err(MlsError::UnknownGroup),
            Err(e) => Err(MlsError::State(e)),
        }
    }

    /// Add the member whose key package is `key_package` to group `group_id`:
    /// the commit for existing members and the welcome for the new one.
    pub fn add_member(&mut self, group_id: &[u8], key_package: &[u8]) -> (r: Result<(Vec<u8>, Vec<u8>), MlsError>)
        ensures
            final(self)@ == old(self)@,
            loads_group_first(old(self).stored_group(group_id@), r),
            old(self).stored_group(group_id@) == Some(true) && !mls_key_package_parses(key_package@)
                ==> (r matches Err(e) && e is Codec),
            r is Ok ==> mls_key_package_parses(key_package@),
            r matches Ok((c, w)) ==> mls_message_parses(c@) && mls_message_parses(w@),
            r matches Err(e) ==> e is State || e is UnknownGroup || e is Codec
                || protocol_in(e, "invalid key package: "@) || protocol_in(e, "add member: "@)
                || protocol_in(e, "merge commit: "@),
    {
        let mut group = match self.load_group(group_id) {
            Ok(g) => g,
            Err(e) => return Err(e),
        };
        let kp_in = match mls_key_package_in(key_package) {
            Ok(k) => k,
            Err(e) => return Err(MlsError::Codec(e)),
        };
        let kp = match mls_validate_key_package(kp_in, &self.provider) {
            Ok(k) => k,
            Err(e) => return Err(protocol("invalid key package: ", e)),
        };
        let (commit, welcome) = match mls_add_members(&mut group, &mut self.provider, &self.signer, kp) {
            Ok(p) => p,
            Err(e) => return Err(protocol("add member: ", e)),
        };
        if let Err(e) = mls_merge_pending(&mut group, &mut self.provider) {
            return Err(protocol("merge commit: ", e));
        }
        let commit_bytes = match mls_out_bytes(&commit) {
            Ok(b) => b,
            Err(e) => return Err(MlsError::Codec(e)),
        };
        let welcome_bytes = match mls_out_bytes(&welcome) {
            Ok(b) => b,
            Err(e) => return Err(MlsError::Codec(e)),
        };
        Ok((commit_bytes, welcome_bytes))
    }

    /// Join a group from a received Welcome, returning the group's id.
    pub fn join_from_welcome(&mut self, welcome: &[u8]) -> (r: Result<Vec<u8>, MlsError>)
        ensures
            final(self)@ == old(self)@,
            r matches Ok(id) ==> final(self).stored_group(id@) == Some(true),
            (r matches Err(e) && e is Codec) <==> !mls_message_parses(welcome@),
            r matches Err(e) ==> e is Codec || (e matches MlsError::Protocol(m) && m@ == "message was not a Welcome"@)
                || protocol_in(e, "staged welcome: "@) || protocol_in(e, "join group: "@),
    {
        let msg = match mls_message_in(welcome) {
            Ok(m) => m,
            Err(e) => return Err(MlsError::Codec(e)),
        };
        let config = mls_default_join_config();
        let staged = match mls_stage_welcome(&mut self.provider, &config, msg, None) {
            Ok(Some(s)) => s,
            Ok(None) => return Err(MlsError::Protocol("message was not a Welcome".to_owned())),
            Err(e) => return Err(protocol("staged welcome: ", e)),
        };
        match mls_into_group(staged, &mut self.provider) {
            Ok(id) => Ok(id),
            Err(e) => Err(protocol("join group: ", e)),
        }
    }

    /// Encrypt an application message for the group's current epoch.
    pub fn encrypt(&mut self, group_id: &[u8], plaintext: &[u8]) -> (r: Result<Vec<u8>, MlsError>)
        ensures
            final(self)@ == old(self)@,
            loads_group_first(old(self).stored_group(group_id@), r),
            r matches Ok(ct) ==> mls_message_parses(ct@),
            r matches Err(e) ==> e is State || e is UnknownGroup || e is Codec || protocol_in(e, "encrypt: "@),
    {
        let mut group = match self.load_group(group_id) {
            Ok(g) => g,
            Err(e) => return Err(e),
        };
        let out = match mls_create_message(&mut group, &mut self.provider, &self.signer, plaintext) {
            Ok(o) => o,
            Err(e) => return Err(protocol("encrypt: ", e)),
        };
        match mls_out_bytes(&out) {
            Ok(b) => Ok(b),
            Err(e) => Err(MlsError::Codec(e)),
        }
    }

    /// Process an inbound MLS message for a group: an application message gives
    /// its plaintext; a commit is merged, advancing the epoch. Once the message
    /// is processed, the outcome is what [`outcome_of`] answers for it.
    pub fn process_incoming(&mut self, group_id: &[u8], message: &[u8]) -> (r: Result<DecryptOutcome, MlsError>)
        ensures
            final(self)@ == old(self)@,
            loads_group_first(old(self).stored_group(group_id@), r),
            old(self).stored_group(group_id@) == Some(true) && !mls_message_parses(message@)
                ==> (r matches Err(e) && e is Codec),
            r is Ok ==> mls_message_parses(message@),
            old(self).stored_group(group_id@) == Some(true) && mls_message_parses(message@)
                ==> incoming_outcome(old(self).incoming(group_id@, message@), r),
            r matches Err(e) ==> e is State || e is UnknownGroup || e is Codec
                || protocol_in(e, "not a protocol message: "@) || protocol_in(e, "process message: "@)
                || protocol_in(e, "merge staged commit: "@),
    {
        let mut group = match self.load_group(group_id) {
            Ok(g) => g,
            Err(e) => return Err(e),
        };
        let msg = match mls_message_in(message) {
            Ok(m) => m,
            Err(e) => return Err(MlsError::Codec(e)),
        };
        let protocol_msg = match mls_protocol_message(msg) {
            Ok(p) => p,
            Err(e) => return Err(protocol("not a protocol message: ", e)),
        };
        let processed = match mls_process_message(&mut group, &mut self.provider, protocol_msg) {
            Ok(p) => p,
            Err(e) => return Err(protocol("process message: ", e)),
        };
        let p = match processed {
            ProcessedContent::Application(bytes) => Processed::Application(bytes),
            ProcessedContent::StagedCommit(staged) => Processed::Commit(
                mls_merge_staged(&mut group, &mut self.provider, staged),
            ),
            ProcessedContent::Other => Processed::Other,
        };
        let ghost p0 = p;
        let r = outcome_of(p);
        proof {
            if let Processed::Commit(Err(e)) = p0 {
                assert(("merge staged commit: "@ + e@).take("merge staged commit: "@.len() as int)
                    =~= "merge staged commit: "@);
            }
        }
        r
    }

    /// The credential identities of every current member of a group that
    /// carries a basic credential, in member order (this device included).
    pub fn group_member_identities(&self, group_id: &[u8]) -> (r: Result<Vec<Vec<u8>>, MlsError>)
        ensures
            self.stored_group(group_id@) == Some(true) <==> r is Ok,
            loads_group_first(self.stored_group(group_id@), r),
            r matches Ok(v) ==> v@.map_values(|x: Vec<u8>| x@) == present_ids(self.stored_members(group_id@)),
    {
        let group = match self.load_group(group_id) {
            Ok(g) => g,
            Err(e) => return Err(e),
        };
        let ids = mls_member_identities(&group);
        Ok(present_identities(&ids))
    }
}

/// Restoring an engine from what it exported gives an engine with the same
/// credential identity and exactly the same stored key/value pairs (every
/// group, key package and signing key it held).
pub proof fn lemma_export_import_round_trip(e: MlsEngine, s: EngineState, restored: MlsEngine)
    requires
        s.identity@ == e@.0,
        entries_map(pair_views(s.storage@)) == e.storage(),
        restored@.0 == s.identity@,
        restored.storage() == entries_map(pair_views(s.storage@)),
    ensures
        restored@.0 == e@.0,
        restored.storage() == e.storage(),
{
}

} // verus!
