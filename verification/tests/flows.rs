use accord::contacts::{ContactCodeParts, StoredContact};
use accord::dm::{dm_target, dm_welcomes, DevicePackage};
use accord::friends::{sync_parked, OutboxEntry, ParkedRequest};
use accord::hex::to_hex;
use accord::hosting::{start_step, HostStart, LocalServer};
use accord::identity::IdentityKeyPair;
use accord::messaging::{keeps_reading, ready_step, Routed, StreamEvent};
use accord::mls_engine::MlsEngine;
use accord::settings::FriendRequestPolicy;
use accord::vault::{engine_source, EngineSource};

fn key(seed: u8) -> Vec<u8> {
    vec![seed; 32]
}

fn parts(seed: u8) -> ContactCodeParts {
    ContactCodeParts {
        identity_pubkey: key(seed),
        name: Some(format!("peer-{seed}")),
        addresses: vec![],
        cert: None,
        host_user_id: Some("host".to_owned()),
    }
}

fn row(id: &str, kind: &str) -> ParkedRequest {
    ParkedRequest { id: id.to_owned(), contact_code: format!("code-{id}"), kind: kind.to_owned(), created_at_ms: 5 }
}

fn pending_request(peer: &str) -> OutboxEntry {
    OutboxEntry {
        peer_id: peer.to_owned(),
        peer_code: "c".to_owned(),
        peer_name: "n".to_owned(),
        kind: "request".to_owned(),
        my_display: String::new(),
        sent_at_ms: 1,
        delivered: true,
    }
}

#[test]
fn a_sync_goes_through_every_parked_row_in_order() {
    let rows = vec![
        (row("garbage", "request"), None),
        (row("acc", "accept"), Some(parts(2))),
        (row("req1", "request"), Some(parts(3))),
        (row("req2", "request"), Some(parts(4))),
    ];
    let mut outbox = vec![pending_request(&to_hex(&key(2))), pending_request(&to_hex(&key(9)))];
    let s = sync_parked(rows, FriendRequestPolicy::Everyone, &mut outbox);
    assert_eq!(s.delete, vec!["garbage".to_owned(), "acc".to_owned()]);
    assert_eq!(s.accepted, vec!["code-acc".to_owned()]);
    assert_eq!(s.incoming.len(), 2);
    assert_eq!(s.incoming[0].id, "req1");
    assert_eq!(s.incoming[1].id, "req2");
    assert_eq!(outbox.len(), 1);
    assert_eq!(outbox[0].peer_id, to_hex(&key(9)));
}

#[test]
fn with_no_one_allowed_every_request_row_is_deleted_silently() {
    let rows = vec![(row("req1", "request"), Some(parts(3))), (row("req2", "request"), Some(parts(4)))];
    let mut outbox = Vec::new();
    let s = sync_parked(rows, FriendRequestPolicy::NoOne, &mut outbox);
    assert!(s.incoming.is_empty());
    assert_eq!(s.delete, vec!["req1".to_owned(), "req2".to_owned()]);
}

#[test]
fn readiness_is_signalled_once_on_the_first_open() {
    let events = vec![
        StreamEvent::NoToken,
        StreamEvent::OpenFailed { unauthenticated: false },
        StreamEvent::Opened,
        StreamEvent::Ended { closed_by_ui: false },
        StreamEvent::Opened,
    ];
    let mut pending = true;
    let mut sends = Vec::new();
    for e in &events {
        let (send, still) = ready_step(pending, e);
        sends.push(send);
        pending = still;
    }
    assert_eq!(sends, vec![false, false, true, false, false]);
}

#[test]
fn reading_stops_only_when_a_required_event_is_not_delivered() {
    assert!(!keeps_reading(&Routed::Alert(accord::messaging::ModAlertDto {
        server_id: String::new(),
        actor_id: String::new(),
        action: String::new(),
        target: String::new(),
        reason: String::new(),
        severity: "info".to_owned(),
        timestamp_ms: 0,
    }), true));
    assert!(keeps_reading(&Routed::Join { group_id: "g".to_owned(), welcome: vec![] }, true));
    assert!(keeps_reading(&Routed::Ignore, false));
}

#[test]
fn a_running_server_is_returned_unchanged() {
    assert!(matches!(start_step(&Some("https://10.0.0.2:50051".to_owned()), false, 1), HostStart::AlreadyRunning(a) if a == "https://10.0.0.2:50051"));
    match start_step(&None, false, 50051) {
        HostStart::PortTaken(e) => assert!(e.starts_with("port 50051 is already in use")),
        _ => panic!("taken"),
    }
    assert!(matches!(start_step(&None, true, 50051), HostStart::Launch));
}

#[test]
fn a_dm_needs_a_known_contact_with_a_host() {
    assert_eq!(dm_target(&[], "abcd").err(), Some("unknown contact".to_owned()));
    let c = StoredContact {
        pubkey: key(1),
        name: "Bob".to_owned(),
        addresses: vec![],
        cert: None,
        host_user_id: None,
        verified: false,
    };
    let id = to_hex(&key(1));
    assert_eq!(
        dm_target(&[c], &id).err(),
        Some("this contact code has no host info - ask them for an updated code".to_owned())
    );
}

#[test]
fn a_dm_gets_one_welcome_per_device() {
    let alice_key = IdentityKeyPair::generate();
    let mut alice = MlsEngine::new(&alice_key).ok().expect("alice");
    assert_eq!(
        dm_welcomes(&mut alice, b"g", None).err(),
        Some("peer has no published KeyPackages (have they logged in?)".to_owned())
    );
    assert_eq!(dm_welcomes(&mut alice, b"g", Some(vec![])).err(), Some("peer has no devices to add".to_owned()));
    let mut bob1 = MlsEngine::new(&IdentityKeyPair::generate()).ok().expect("bob1");
    let mut bob2 = MlsEngine::new(&IdentityKeyPair::generate()).ok().expect("bob2");
    let kp1 = bob1.generate_key_packages(1).ok().expect("kp1").remove(0);
    let kp2 = bob2.generate_key_packages(1).ok().expect("kp2").remove(0);
    let (ws, commit) = dm_welcomes(
        &mut alice,
        b"dm-group",
        Some(vec![
            DevicePackage { device_id: "d1".to_owned(), key_package: kp1 },
            DevicePackage { device_id: "d2".to_owned(), key_package: kp2 },
        ]),
    )
    .ok()
    .expect("dm");
    assert_eq!(ws.len(), 2);
    assert_eq!(ws[0].device_id, "d1");
    assert_eq!(ws[1].device_id, "d2");
    assert!(!commit.is_empty());
    assert_eq!(bob2.join_from_welcome(&ws[1].welcome).ok().expect("bob2 joins"), b"dm-group".to_vec());
}

#[test]
fn the_local_engine_is_preferred_then_the_vault() {
    assert!(matches!(engine_source(true, true), EngineSource::Local));
    assert!(matches!(engine_source(false, true), EngineSource::Vault));
    assert!(matches!(engine_source(false, false), EngineSource::Fresh));
}

#[test]
fn a_second_start_answers_the_first_launch_and_stop_clears_it() {
    let mut server = LocalServer::new();
    assert!(matches!(server.begin_start(true, 50051), HostStart::Launch));
    assert_eq!(server.shareable(), None);
    assert_eq!(server.local_connect_info(), None);
    let url = server.record_started(Some("192.168.1.4".to_owned()), 50051, true, true, Some("PEM".to_owned()));
    assert_eq!(url, "https://192.168.1.4:50051");
    match server.begin_start(false, 6000) {
        HostStart::AlreadyRunning(a) => assert_eq!(a, url),
        _ => panic!("a running server is reused"),
    }
    assert_eq!(server.shareable(), Some(("192.168.1.4".to_owned(), 50051, true)));
    assert_eq!(
        server.local_connect_info(),
        Some(("https://127.0.0.1:50051".to_owned(), Some("PEM".to_owned())))
    );
    server.stop();
    assert_eq!(server.shareable(), None);
    assert!(server.addr.is_none());
    assert!(matches!(server.begin_start(true, 50051), HostStart::Launch));
    let url = server.record_started(None, 8080, false, false, None);
    assert_eq!(url, "http://<your-LAN-ip>:8080");
    assert_eq!(server.shareable(), Some(("<your-LAN-ip>".to_owned(), 8080, false)));
    assert_eq!(server.local_connect_info(), Some(("http://127.0.0.1:8080".to_owned(), None)));
}
