use accord::contacts::{
    add_contact, fingerprint, list_contacts, lookup, remove_contact, set_contact_verified, to_dto,
    ContactCodeParts, StoredContact,
};
use accord::dm::{
    dm_conversation, dm_group, dm_session_id, existing_dm, guest_password, guest_username,
    hex16, hex_decode, hex_full, holds_dms, holds_member, record_target, DmCandidate,
};
use accord::friends::{
    drop_delivered_accepts, hex_fingerprint, mark_delivered, parked_action, pending_view,
    prepare_retry, queue_accept, queue_request, target_from_code, withdraw_request, OutboxEntry,
    ParkedAction, ParkedRequest,
};
use accord::hex::to_hex;
use accord::identity::IdentityKeyPair;
use accord::settings::FriendRequestPolicy;

fn key(seed: u8) -> Vec<u8> {
    IdentityKeyPair::from_secret_bytes(&[seed; 32]).public().to_bytes().to_vec()
}

fn code(seed: u8, name: Option<&str>) -> ContactCodeParts {
    ContactCodeParts {
        identity_pubkey: key(seed),
        name: name.map(|n| n.to_owned()),
        addresses: vec!["https://10.0.0.2:50051".to_owned()],
        cert: Some("PEM".to_owned()),
        host_user_id: Some("host-user".to_owned()),
    }
}

fn entry(peer: &str, kind: &str, delivered: bool) -> OutboxEntry {
    OutboxEntry {
        peer_id: peer.to_owned(),
        peer_code: format!("code-{peer}"),
        peer_name: format!("name-{peer}"),
        kind: kind.to_owned(),
        my_display: String::new(),
        sent_at_ms: 7,
        delivered,
    }
}

#[test]
fn contacts_add_update_lookup_and_remove() {
    let mut contacts: Vec<StoredContact> = Vec::new();
    let dto = add_contact(&mut contacts, code(1, Some("Alice"))).unwrap();
    assert_eq!(dto.id, to_hex(&key(1)));
    assert_eq!(dto.name, "Alice");
    assert_eq!(dto.fingerprint.len(), 16);
    assert!(!dto.verified);
    add_contact(&mut contacts, code(2, None)).unwrap();
    assert_eq!(contacts.len(), 2);
    assert_eq!(contacts[1].name, "Unknown");

    set_contact_verified(&mut contacts, &to_hex(&key(1)), true);
    // Re-adding the same key updates in place and keeps the verified flag.
    add_contact(&mut contacts, code(1, Some("Alice B"))).unwrap();
    assert_eq!(contacts.len(), 2);
    assert_eq!(contacts[0].name, "Alice B");
    assert!(contacts[0].verified);

    let t = lookup(&contacts, &to_hex(&key(2))).unwrap();
    assert_eq!(t.name, "Unknown");
    assert_eq!(t.host_user_id.as_deref(), Some("host-user"));
    assert!(lookup(&contacts, "00").is_none());

    remove_contact(&mut contacts, &to_hex(&key(1)));
    assert_eq!(contacts.len(), 1);
    assert!(lookup(&contacts, &to_hex(&key(1))).is_none());
    let listed = list_contacts(contacts);
    assert_eq!(listed.len(), 1);
    assert_eq!(listed[0].name, "Unknown");
}

#[test]
fn contact_with_a_short_key_is_refused() {
    let mut contacts: Vec<StoredContact> = Vec::new();
    let mut bad = code(1, Some("x"));
    bad.identity_pubkey.truncate(31);
    assert!(add_contact(&mut contacts, bad).is_err());
    assert!(contacts.is_empty());
}

#[test]
fn contact_fingerprints() {
    let k = key(3);
    assert_eq!(fingerprint(&k), IdentityKeyPair::from_secret_bytes(&[3; 32]).public().fingerprint());
    assert_eq!(fingerprint(&k[..31]), "");
    let stored = StoredContact {
        pubkey: k.clone(),
        name: "N".to_owned(),
        addresses: vec![],
        cert: None,
        host_user_id: None,
        verified: true,
    };
    let dto = to_dto(stored);
    assert_eq!(dto.id, to_hex(&k));
    assert!(dto.verified);
}

#[test]
fn hex_fingerprint_matches_the_key_fingerprint() {
    let k = key(4);
    assert_eq!(hex_fingerprint(&to_hex(&k)), fingerprint(&k));
    assert_eq!(hex_fingerprint("abc"), "");
    assert_eq!(hex_fingerprint("zz"), "");
}

#[test]
fn delivery_target_from_a_code() {
    let (t, id) = target_from_code(code(5, None)).unwrap();
    assert_eq!(t.name, "Unknown");
    assert_eq!(id, key(5));
    let mut bad = code(5, None);
    bad.identity_pubkey = vec![1, 2, 3];
    assert_eq!(
        target_from_code(bad).err().unwrap(),
        "contact code has an invalid identity key"
    );
}

#[test]
fn a_new_request_replaces_the_old_one_to_the_same_peer() {
    let mut outbox = vec![entry("p1", "request", false), entry("p2", "accept", false)];
    let mut newer = entry("p1", "request", true);
    newer.sent_at_ms = 99;
    queue_request(&mut outbox, newer);
    assert_eq!(outbox.len(), 2);
    assert_eq!(outbox[0].peer_id, "p2");
    assert_eq!(outbox[1].peer_id, "p1");
    assert_eq!(outbox[1].sent_at_ms, 99);
}

#[test]
fn acceptances_are_kept_only_until_delivered() {
    let mut outbox = vec![entry("p1", "accept", false)];
    queue_accept(&mut outbox, entry("p1", "accept", true));
    assert!(outbox.is_empty());
    queue_accept(&mut outbox, entry("p2", "accept", false));
    assert_eq!(outbox.len(), 1);
    outbox.push(entry("p3", "accept", true));
    outbox.push(entry("p3", "request", true));
    assert!(drop_delivered_accepts(&mut outbox));
    assert_eq!(outbox.len(), 2);
    assert!(!drop_delivered_accepts(&mut outbox));
}

#[test]
fn withdrawing_a_request_removes_only_that_peers_request() {
    let mut outbox = vec![
        entry("p1", "request", false),
        entry("p1", "accept", false),
        entry("p2", "request", false),
    ];
    withdraw_request(&mut outbox, "p1");
    let kinds: Vec<(&str, &str)> =
        outbox.iter().map(|e| (e.peer_id.as_str(), e.kind.as_str())).collect();
    assert_eq!(kinds, vec![("p1", "accept"), ("p2", "request")]);
}

#[test]
fn retry_round_fills_missing_display_names() {
    let mut outbox = vec![
        entry("p1", "request", true),
        entry("p2", "request", false),
        entry("p3", "accept", false),
    ];
    outbox[2].my_display = "Old Name".to_owned();
    let due = prepare_retry(&mut outbox, "Me");
    assert_eq!(due, vec![1, 2]);
    assert_eq!(outbox[0].my_display, "");
    assert_eq!(outbox[1].my_display, "Me");
    assert_eq!(outbox[2].my_display, "Old Name");
    mark_delivered(&mut outbox, 1);
    assert!(outbox[1].delivered);
    assert!(!outbox[2].delivered);
}

#[test]
fn pending_view_lists_requests_with_fingerprints() {
    let k = key(6);
    let mut outbox = vec![entry("x", "accept", false), entry(&to_hex(&k), "request", false)];
    outbox[1].peer_name = "Bob".to_owned();
    let view = pending_view(&outbox);
    assert_eq!(view.len(), 1);
    assert_eq!(view[0].name, "Bob");
    assert_eq!(view[0].fingerprint, fingerprint(&k));
}

#[test]
fn parked_rows_are_discarded_accepted_refused_or_shown() {
    let row = |kind: &str| ParkedRequest {
        id: "row-1".to_owned(),
        contact_code: "their-code".to_owned(),
        kind: kind.to_owned(),
        created_at_ms: 42,
    };
    assert!(matches!(
        parked_action(row("request"), None, FriendRequestPolicy::Everyone),
        ParkedAction::Discard
    ));
    match parked_action(row("accept"), Some(code(7, None)), FriendRequestPolicy::NoOne) {
        ParkedAction::Accepted { peer_id, code } => {
            assert_eq!(peer_id, to_hex(&key(7)));
            assert_eq!(code, "their-code");
        }
        _ => panic!("expected an acceptance"),
    }
    assert!(matches!(
        parked_action(row("request"), Some(code(7, None)), FriendRequestPolicy::NoOne),
        ParkedAction::Refuse
    ));
    match parked_action(row("request"), Some(code(7, Some("Zed"))), FriendRequestPolicy::TavernMembers) {
        ParkedAction::Show(d) => {
            assert_eq!(d.id, "row-1");
            assert_eq!(d.name, "Zed");
            assert_eq!(d.fingerprint, fingerprint(&key(7)));
            assert_eq!(d.created_at_ms, 42);
        }
        _ => panic!("expected the request to be shown"),
    }
}

#[test]
fn hex_helpers() {
    assert_eq!(hex16(&[0xab; 10]), "abababababababab");
    assert_eq!(hex16(&[1, 2]), "0102");
    assert_eq!(hex_full(&[0, 255]), "00ff");
    assert_eq!(hex_decode("00ff"), Some(vec![0, 255]));
    assert_eq!(hex_decode("0"), None);
    assert_eq!(hex_decode("zz"), None);
    assert_eq!(hex_decode("zzz\u{e9}a"), None);
    assert_eq!(hex_decode("+f0F"), Some(vec![15, 15]));
    assert_eq!(hex_decode(&to_hex(&key(8))), Some(key(8)));
}

#[test]
fn guest_account_on_a_contacts_host() {
    let pk = key(9);
    assert_eq!(guest_username(&pk), format!("dm-{}", hex16(&pk)));
    let master = IdentityKeyPair::from_secret_bytes(&[10; 32]);
    let with_cert = guest_password(&master, Some("PEM".to_owned()), "host-1");
    let with_id = guest_password(&master, None, "host-1");
    assert_eq!(with_cert.len(), 64);
    assert_ne!(with_cert, with_id);
    let expected = master.derive_for_context(b"accord:dm-guest-pw:host-1").secret_bytes();
    assert_eq!(with_id, hex_full(&expected));
    assert_eq!(dm_session_id("abcd"), "dm:abcd");
    assert!(holds_dms("home"));
    assert!(holds_dms("dm:abcd"));
    assert!(!holds_dms("tavern-1"));
}

#[test]
fn dm_listing_and_lookup() {
    let own = key(11);
    let peer = key(12);
    let mut contacts: Vec<StoredContact> = Vec::new();
    add_contact(&mut contacts, code(12, Some("Pat"))).unwrap();
    let members = vec![own.clone(), peer.clone()];
    let conv = dm_conversation("home", "g-1".to_owned(), 2, &members, &own, &contacts).unwrap();
    assert_eq!(conv.peer_id, to_hex(&peer));
    assert_eq!(conv.peer_name, "Pat");
    assert_eq!(conv.fingerprint, fingerprint(&peer));
    assert!(dm_conversation("home", "g-1".to_owned(), 1, &members, &own, &contacts).is_none());
    let only_me = vec![own.clone()];
    assert!(dm_conversation("home", "g-1".to_owned(), 2, &only_me, &own, &contacts).is_none());
    let stranger = dm_conversation("home", "g".to_owned(), 2, &[key(13)], &own, &contacts).unwrap();
    assert_eq!(stranger.peer_name, "Unknown");

    assert!(holds_member(&members, &peer));
    let groups = vec![
        DmCandidate { kind: 1, group_id: "pub".to_owned(), members: Some(members.clone()) },
        DmCandidate { kind: 2, group_id: "lost".to_owned(), members: None },
        DmCandidate { kind: 2, group_id: "dm".to_owned(), members: Some(members.clone()) },
    ];
    let g = existing_dm(groups, &peer, "Pat").unwrap();
    assert_eq!(g.id, "dm");
    assert_eq!(g.kind, "private");
    assert_eq!(g.channel_kind, "text");
    assert_eq!(g.member_count, 2);
    let d = dm_group("x".to_owned(), "Y");
    assert_eq!(d.name, "Y");
}

#[test]
fn dm_targets_are_recorded_once() {
    let mut targets = vec!["a".to_owned()];
    assert!(!record_target(&mut targets, "a"));
    assert!(record_target(&mut targets, "b"));
    assert_eq!(targets, vec!["a".to_owned(), "b".to_owned()]);
}
