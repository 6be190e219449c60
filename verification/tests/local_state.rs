use accord::accounts::{
    account_pills, block_contact, block_list, record_account, set_avatar, unblock_contact,
    StoredAccount, StoredBlock,
};
use accord::device::{
    contact_identity, derive_for, derived_pubkey_for, device_name, install_id_from_file,
    install_id_from_random, master_from_file,
};
use accord::at_rest::seal_bytes;
use accord::history::{
    decode_entry, encode_record, frame, parse_records, plaintext_jsonl, should_encrypt,
    split_jsonl, tail_raw,
};
use accord::hosting::{dial_candidates, local_endpoint, mesh_status, unreachable_error};
use accord::identity::IdentityKeyPair;
use accord::settings::{default_max_hosted_taverns, FriendRequestPolicy, Settings, YggPeerMode};
use accord::sync_state::{mark_group, mark_mls, new_sync, start_flusher, take_dirty};
use accord::vault::{
    history_blob_name, mls_signer, recover_master, stored_engine_bytes, vault_open,
    vault_seal, MLS_STATE,
};
use accord::hosting::{jwt_secret_from_file, lan_address, new_jwt_secret, port_taken_error};
use accord::history::{archive_file_name, archive_group_of};
use accord::vault::history_group_of;
use accord::contacts::{contact_addresses, my_contact_parts};
use accord::history::{history_slots, HistorySlot, RawEntry};

#[test]
fn first_account_is_main_and_accounts_are_recorded_once() {
    let mut accounts: Vec<StoredAccount> = Vec::new();
    assert!(record_account(&mut accounts, "alice", 10));
    assert!(record_account(&mut accounts, "alt", 20));
    assert!(!record_account(&mut accounts, "alice", 30));
    assert_eq!(accounts.len(), 2);
    assert!(accounts[0].main);
    assert!(!accounts[1].main);
    assert!(set_avatar(&mut accounts, "alt", "data:image/png;base64,AA".to_owned()));
    assert!(!set_avatar(&mut accounts, "alt", "data:image/png;base64,AA".to_owned()));
    assert!(!set_avatar(&mut accounts, "nobody", "x".to_owned()));
    let pills = account_pills(&accounts);
    assert_eq!(pills[0].username, "alice");
    assert!(pills[0].is_main);
    assert_eq!(pills[1].avatar, "data:image/png;base64,AA");
}

#[test]
fn blocking_and_unblocking() {
    let mut blocks: Vec<StoredBlock> = Vec::new();
    assert!(block_contact(&mut blocks, "aa".to_owned(), "A".to_owned(), 1));
    assert!(!block_contact(&mut blocks, "aa".to_owned(), "A again".to_owned(), 2));
    assert!(block_contact(&mut blocks, "bb".to_owned(), "B".to_owned(), 3));
    unblock_contact(&mut blocks, "aa");
    let list = block_list(&blocks);
    assert_eq!(list.len(), 1);
    assert_eq!(list[0].id, "bb");
    assert_eq!(list[0].name, "B");
}

#[test]
fn dirty_state_keeps_the_latest_snapshot_per_user() {
    let mut s = new_sync();
    mark_mls(&mut s, "u1", vec![1]);
    mark_mls(&mut s, "u2", vec![2]);
    mark_mls(&mut s, "u1", vec![3]);
    mark_group(&mut s, "u1", "g1");
    mark_group(&mut s, "u1", "g1");
    mark_group(&mut s, "u1", "g2");
    assert!(start_flusher(&mut s));
    assert!(!start_flusher(&mut s));
    let (mls, groups) = take_dirty(&mut s);
    assert_eq!(mls, vec![("u1".to_owned(), vec![3]), ("u2".to_owned(), vec![2])]);
    assert_eq!(groups, vec![("u1".to_owned(), vec!["g1".to_owned(), "g2".to_owned()])]);
    let (mls, groups) = take_dirty(&mut s);
    assert!(mls.is_empty() && groups.is_empty());
    assert!(s.started);
}

#[test]
fn history_records_frame_and_parse_back() {
    let a = frame(0, b"{\"a\":1}");
    assert_eq!(&a[..5], &[0, 7, 0, 0, 0]);
    let mut log = a.clone();
    log.extend(frame(1, b"xyz"));
    let records = parse_records(&log);
    assert_eq!(records, vec![(0u8, b"{\"a\":1}".to_vec()), (1u8, b"xyz".to_vec())]);
    // A truncated trailing record is dropped.
    log.extend_from_slice(&[0, 9, 0]);
    assert_eq!(parse_records(&log).len(), 2);
}

#[test]
fn own_messages_are_plaintext_unless_encryption_is_on() {
    assert!(!should_encrypt("me", "me", false));
    assert!(should_encrypt("me", "me", true));
    assert!(should_encrypt("them", "me", false));
    let key = [3u8; 32];
    let plain = encode_record(&key, "me", "me", b"{}", false).unwrap();
    assert_eq!(plain, frame(0, b"{}"));
    let sealed = encode_record(&key, "me", "them", b"{}", false).unwrap();
    assert_eq!(sealed[0], 1);
    let records = parse_records(&sealed);
    assert_eq!(decode_entry(&key, records[0].0, &records[0].1), Some(b"{}".to_vec()));
    assert_eq!(decode_entry(&[4u8; 32], records[0].0, &records[0].1), None);
    assert_eq!(decode_entry(&key, 0, b"raw"), Some(b"raw".to_vec()));
}

#[test]
fn tail_ids_are_stable_record_indexes() {
    let records = vec![(0u8, b"a".to_vec()), (1u8, b"b".to_vec()), (0u8, b"c".to_vec())];
    let tail = tail_raw(&records, "g", 2);
    assert_eq!(tail.len(), 2);
    assert_eq!(tail[0].id, "g#1");
    assert_eq!(tail[0].flag, 1);
    assert_eq!(tail[1].id, "g#2");
    assert_eq!(tail[1].payload, b"c".to_vec());
    assert_eq!(tail_raw(&records, "g", 10).len(), 3);
}

#[test]
fn jsonl_export_and_split_round_trip() {
    let lines = vec![b"{\"a\":1}".to_vec(), b"{\"b\":2}".to_vec()];
    let doc = plaintext_jsonl(&lines).unwrap();
    assert_eq!(doc, b"{\"a\":1}\n{\"b\":2}\n".to_vec());
    assert_eq!(split_jsonl(&doc), lines);
    assert!(plaintext_jsonl(&[]).is_none());
}

#[test]
fn settings_defaults_and_clamping() {
    let mut s = Settings::default();
    assert!(!s.encrypt_at_rest);
    assert_eq!(s.friend_request_policy, FriendRequestPolicy::Everyone);
    assert_eq!(s.max_hosted_taverns, default_max_hosted_taverns());
    s.set_max_hosted_taverns(0);
    assert_eq!(s.max_hosted_taverns, 1);
    s.set_max_hosted_taverns(1000);
    assert_eq!(s.max_hosted_taverns, 200);
    s.store_ygg_config(YggPeerMode::Private, vec!["tls://p:1".to_owned()]);
    let (mode, peers) = s.ygg_config();
    assert_eq!(mode, YggPeerMode::Private);
    assert_eq!(peers, vec!["tls://p:1".to_owned()]);
    s.set_friend_request_policy(FriendRequestPolicy::NoOne);
    assert_eq!(s.friend_request_policy, FriendRequestPolicy::NoOne);
}

#[test]
fn device_identity_derivations() {
    let master = IdentityKeyPair::from_secret_bytes(&[1u8; 32]);
    assert_eq!(
        contact_identity(&master).secret_bytes(),
        master.derive_for_context(b"accord:contact-identity").secret_bytes()
    );
    let by_cert = derive_for(&master, Some("CERT"), "https://h:1");
    let by_endpoint = derive_for(&master, None, "https://h:1");
    assert_eq!(by_cert.secret_bytes(), master.derive_for_context(b"CERT").secret_bytes());
    assert_eq!(by_endpoint.secret_bytes(), master.derive_for_context(b"https://h:1").secret_bytes());
    assert_eq!(
        derived_pubkey_for(&master, None, "https://h:1"),
        by_endpoint.public().to_bytes().to_vec()
    );
}

#[test]
fn device_names_and_install_ids() {
    assert_eq!(device_name("Desktop", Some("3fa2bc01".to_owned())), "Desktop-3fa2bc01");
    assert_eq!(device_name("Desktop", None), "Desktop-00000000");
    assert_eq!(install_id_from_file("  3fa2bc01\n").as_deref(), Some("3fa2bc01"));
    assert!(install_id_from_file(" \n ").is_none());
    let mut secret = [0u8; 32];
    secret[..4].copy_from_slice(&[0x3f, 0xa2, 0xbc, 0x01]);
    assert_eq!(install_id_from_random(&secret), "3fa2bc01");
}

#[test]
fn master_key_file_forms() {
    let dek = [8u8; 32];
    let secret = [6u8; 32];
    let sealed = seal_bytes(&dek, &secret).unwrap();
    let (kp, migrate) = master_from_file(&dek, &sealed).unwrap();
    assert_eq!(kp.secret_bytes(), secret);
    assert!(!migrate);
    let (kp, migrate) = master_from_file(&dek, &secret).unwrap();
    assert_eq!(kp.secret_bytes(), secret);
    assert!(migrate);
    assert!(master_from_file(&dek, &[1, 2, 3]).is_none());
}

#[test]
fn hosting_endpoints_and_dialing() {
    assert_eq!(local_endpoint(50051, true), "https://127.0.0.1:50051");
    assert_eq!(local_endpoint(8, false), "http://127.0.0.1:8");
    let addrs = vec![
        "https://10.0.0.2:50051".to_owned(),
        "tls://ygg:1".to_owned(),
        "http://[200::1]:50051".to_owned(),
    ];
    assert_eq!(
        dial_candidates(&addrs),
        vec!["https://10.0.0.2:50051".to_owned(), "http://[200::1]:50051".to_owned()]
    );
    assert_eq!(unreachable_error(0, ""), "this contact has no reachable address yet");
    assert_eq!(
        unreachable_error(2, "timeout"),
        "could not reach this contact (are you both online; is the mesh running?): timeout"
    );
    let m = mesh_status(Some("200::1".to_owned()), false, true);
    assert!(m.running && m.enabled && !m.available);
    assert!(!mesh_status(None, true, true).running);
}

#[test]
fn vault_blobs_open_only_under_their_own_name() {
    let master = IdentityKeyPair::from_secret_bytes(&[2u8; 32]);
    let blob = vault_seal(&master, MLS_STATE, b"engine").unwrap();
    assert_eq!(vault_open(&master, MLS_STATE, &blob), Some(b"engine".to_vec()));
    assert_eq!(vault_open(&master, "hist/g", &blob), None);
    let other = IdentityKeyPair::from_secret_bytes(&[3u8; 32]);
    assert_eq!(vault_open(&other, MLS_STATE, &blob), None);
    assert_eq!(history_blob_name("g-1"), "hist/g-1");
    // The vault key is the symmetric derivation for the blob's name.
    let key = master.derive_symmetric(MLS_STATE.as_bytes());
    assert_eq!(accord::backup::open(&key, &blob).unwrap(), b"engine".to_vec());
}

#[test]
fn master_key_backup_restores_the_same_key() {
    // Cheap KDF parameters (the defaults take seconds per derivation).
    let params = accord::backup::Argon2Params { memory_kib: 8, iterations: 1, parallelism: 1 };
    let master = IdentityKeyPair::from_secret_bytes(&[4u8; 32]);
    let enc = accord::backup::encrypt_backup(b"pw", &master.secret_bytes(), params).unwrap();
    let wire = params.to_bytes();
    let back = recover_master(b"pw", &enc.blob, &enc.salt, &wire).unwrap();
    assert_eq!(back.secret_bytes(), master.secret_bytes());
    assert_eq!(
        recover_master(b"wrong", &enc.blob, &enc.salt, &wire).err().unwrap(),
        "could not decrypt key backup (wrong password?)"
    );
    assert_eq!(
        recover_master(b"pw", &enc.blob, &enc.salt, &[1, 2]).err().unwrap(),
        "key derivation failed: argon2_params must be 12 bytes, got 2"
    );
    // A backup of something that is not a 32-byte secret is refused.
    let short = accord::backup::encrypt_backup(b"pw", b"short", params).unwrap();
    assert_eq!(
        recover_master(b"pw", &short.blob, &short.salt, &wire).err().unwrap(),
        "corrupt key backup"
    );
}

#[test]
fn mls_signers_and_stored_engine_bytes() {
    let master = IdentityKeyPair::from_secret_bytes(&[5u8; 32]);
    assert_eq!(
        mls_signer(&master, true, None, "x").secret_bytes(),
        contact_identity(&master).secret_bytes()
    );
    assert_eq!(
        mls_signer(&master, false, Some("C"), "x").secret_bytes(),
        derive_for(&master, Some("C"), "x").secret_bytes()
    );
    let dek = [1u8; 32];
    let sealed = seal_bytes(&dek, b"state").unwrap();
    assert_eq!(stored_engine_bytes(&dek, sealed), b"state".to_vec());
    assert_eq!(stored_engine_bytes(&dek, b"legacy".to_vec()), b"legacy".to_vec());
}

#[test]
fn embedded_server_addresses_and_secrets() {
    assert_eq!(lan_address(Some("192.168.1.4".to_owned()), 50051, true), "https://192.168.1.4:50051");
    assert_eq!(lan_address(None, 8080, false), "http://<your-LAN-ip>:8080");
    assert!(port_taken_error(50051).starts_with("port 50051 is already in use - "));
    let dek = [9u8; 32];
    let secret = new_jwt_secret(&[0xab; 32]);
    assert_eq!(secret.len(), 64);
    let sealed = seal_bytes(&dek, secret.as_bytes()).unwrap();
    assert_eq!(jwt_secret_from_file(&dek, &sealed), Some(secret));
    let empty = seal_bytes(&dek, b"").unwrap();
    assert_eq!(jwt_secret_from_file(&dek, &empty), None);
    let not_text = seal_bytes(&dek, &[0xff, 0xfe]).unwrap();
    assert_eq!(jwt_secret_from_file(&dek, &not_text), None);
    assert_eq!(jwt_secret_from_file(&dek, b"unsealed"), None);
}

#[test]
fn archive_and_vault_names_read_back() {
    assert_eq!(archive_file_name("g-1"), "g-1.dmlog");
    assert_eq!(archive_group_of(&archive_file_name("g-1")).as_deref(), Some("g-1"));
    assert_eq!(archive_group_of("x.tar.dmlog").as_deref(), Some("x.tar"));
    assert_eq!(archive_group_of(".dmlog"), None);
    assert_eq!(archive_group_of("notes.txt"), None);
    assert_eq!(history_group_of(&history_blob_name("g-2")).as_deref(), Some("g-2"));
    assert_eq!(history_group_of("mls-state"), None);
}

#[test]
fn own_contact_code_parts() {
    assert_eq!(
        contact_addresses(true, Some(("10.0.0.5".to_owned(), 50051)), Some("200:abcd::1".to_owned())),
        vec!["https://10.0.0.5:50051".to_owned(), "https://[200:abcd::1]:50051".to_owned()]
    );
    assert_eq!(
        contact_addresses(false, None, Some("200::1".to_owned())),
        vec!["http://[200::1]:50051".to_owned()]
    );
    assert!(contact_addresses(true, None, None).is_empty());
    let master = IdentityKeyPair::from_secret_bytes(&[7u8; 32]);
    let parts = my_contact_parts(&master, Some("Me".to_owned()), vec![], None, Some("u1".to_owned()));
    assert_eq!(parts.identity_pubkey, contact_identity(&master).public().to_bytes().to_vec());
    assert_eq!(parts.host_user_id.as_deref(), Some("u1"));
}

#[test]
fn plaintext_records_show_at_once_and_sealed_ones_wait() {
    let raws = vec![
        RawEntry { id: "g#0".to_owned(), flag: 0, payload: b"{}".to_vec() },
        RawEntry { id: "g#1".to_owned(), flag: 1, payload: vec![9, 9, 9] },
        RawEntry { id: "g#2".to_owned(), flag: 0, payload: b"[]".to_vec() },
        RawEntry { id: "g#3".to_owned(), flag: 1, payload: vec![7] },
    ];
    let (slots, pending) = history_slots(&raws);
    assert_eq!(slots.len(), 4);
    assert!(matches!(&slots[0], HistorySlot::Ready { id, payload } if id == "g#0" && payload == b"{}"));
    assert!(matches!(&slots[1], HistorySlot::Sealed(id) if id == "g#1"));
    assert!(matches!(&slots[2], HistorySlot::Ready { id, payload } if id == "g#2" && payload == b"[]"));
    assert!(matches!(&slots[3], HistorySlot::Sealed(id) if id == "g#3"));
    assert_eq!(pending, vec![("g#1".to_owned(), vec![9, 9, 9]), ("g#3".to_owned(), vec![7])]);
}
