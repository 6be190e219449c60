use accord::identity::IdentityKeyPair;
use accord::mls::{DecryptOutcome, MlsError};
use accord::mls_engine::MlsEngine;

/// Full two-party flow: Alice creates a group, adds Bob (via his KeyPackage),
/// Bob joins from the Welcome, and they exchange an encrypted message each way.
#[test]
fn alice_and_bob_exchange_encrypted_messages() {
    let alice_key = IdentityKeyPair::generate();
    let bob_key = IdentityKeyPair::generate();
    let mut alice = MlsEngine::new(&alice_key).ok().expect("alice engine");
    let mut bob = MlsEngine::new(&bob_key).ok().expect("bob engine");

    // The MLS credential identity is bound to the signing key's public bytes.
    assert_eq!(alice.credential_identity(), alice_key.public().to_bytes());

    // Bob publishes a KeyPackage; Alice fetches it (here, directly).
    let bob_kp = bob.generate_key_packages(1).ok().expect("bob kp").remove(0);

    // Alice creates the group and adds Bob.
    let group_id = b"test-group-id";
    assert!(alice.create_group(group_id).is_ok(), "create group");
    let (_commit, welcome) = alice.add_member(group_id, &bob_kp).ok().expect("add bob");

    // Bob joins from the Welcome; he should learn the same group id.
    let bob_group_id = bob.join_from_welcome(&welcome).ok().expect("bob joins");
    assert_eq!(bob_group_id, group_id);

    // Alice -> Bob.
    let ct = alice.encrypt(group_id, b"hello bob").ok().expect("alice encrypts");
    match bob.process_incoming(group_id, &ct).ok().expect("bob decrypts") {
        DecryptOutcome::Application(pt) => assert_eq!(pt, b"hello bob"),
        _ => panic!("expected application message"),
    }

    // Bob -> Alice.
    let ct = bob.encrypt(group_id, b"hi alice").ok().expect("bob encrypts");
    match alice.process_incoming(group_id, &ct).ok().expect("alice decrypts") {
        DecryptOutcome::Application(pt) => assert_eq!(pt, b"hi alice"),
        _ => panic!("expected application message"),
    }

    // Both see both identities as members.
    let members = alice.group_member_identities(group_id).ok().expect("members");
    assert_eq!(members.len(), 2);
    assert!(members.contains(&bob_key.public().to_bytes().to_vec()));
}

/// An engine survives an export -> restore round-trip and can still decrypt
/// messages for a group it was a member of.
#[test]
fn engine_persists_and_restores() {
    let alice_key = IdentityKeyPair::generate();
    let bob_key = IdentityKeyPair::generate();
    let mut alice = MlsEngine::new(&alice_key).ok().expect("alice");
    let mut bob = MlsEngine::new(&bob_key).ok().expect("bob");

    let bob_kp = bob.generate_key_packages(1).ok().expect("kp").remove(0);
    let group_id = b"persist-group";
    assert!(alice.create_group(group_id).is_ok(), "create");
    let (_commit, welcome) = alice.add_member(group_id, &bob_kp).ok().expect("add");
    assert!(bob.join_from_welcome(&welcome).is_ok(), "join");

    // Round-trip Bob through his exported state.
    let saved = bob.export_state().ok().expect("export");
    let mut bob_restored = MlsEngine::import_state(saved).ok().expect("restore");
    assert_eq!(bob_restored.credential_identity(), bob_key.public().to_bytes());

    // Restored Bob can still decrypt a new message from Alice.
    let ct = alice.encrypt(group_id, b"after restart").ok().expect("encrypt");
    match bob_restored.process_incoming(group_id, &ct).ok().expect("decrypt") {
        DecryptOutcome::Application(pt) => assert_eq!(pt, b"after restart"),
        _ => panic!("expected application message"),
    }
}

#[test]
fn unknown_groups_and_bad_messages_are_errors() {
    let mut e = MlsEngine::new(&IdentityKeyPair::generate()).ok().expect("engine");
    match e.encrypt(b"nope", b"x") {
        Err(err) => assert_eq!(err.message(), "unknown group"),
        Ok(_) => panic!("no such group"),
    }
    match e.join_from_welcome(b"not a message") {
        Err(err) => assert!(err.message().starts_with("mls codec error: ")),
        Ok(_) => panic!("garbage is not a welcome"),
    }
    assert_eq!(e.generate_key_packages(3).ok().expect("kps").len(), 3);
}

#[test]
fn operations_on_a_group_that_is_not_stored_report_unknown_group() {
    let key = IdentityKeyPair::generate();
    let mut engine = MlsEngine::new(&key).ok().expect("engine");
    assert!(matches!(engine.encrypt(b"no-such-group", b"x"), Err(MlsError::UnknownGroup)));
    assert!(matches!(engine.process_incoming(b"no-such-group", b"x"), Err(MlsError::UnknownGroup)));
    assert!(matches!(engine.add_member(b"no-such-group", b"x"), Err(MlsError::UnknownGroup)));
    assert!(matches!(engine.group_member_identities(b"no-such-group"), Err(MlsError::UnknownGroup)));
    assert!(engine.create_group(b"g").is_ok());
    let ids = engine.group_member_identities(b"g").ok().expect("stored after create");
    assert_eq!(ids, vec![key.public().to_bytes().to_vec()]);
}

#[test]
fn bytes_that_are_not_a_key_package_or_message_are_codec_errors() {
    let key = IdentityKeyPair::generate();
    let mut engine = MlsEngine::new(&key).ok().expect("engine");
    assert!(engine.create_group(b"g").is_ok());
    assert!(matches!(engine.add_member(b"g", b"not a key package"), Err(MlsError::Codec(_))));
    assert!(matches!(engine.process_incoming(b"g", b"not a message"), Err(MlsError::Codec(_))));
    let ct = engine.encrypt(b"g", b"hello").ok().expect("encrypt");
    assert!(!ct.is_empty());
}
