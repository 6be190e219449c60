use accord::dto::{
    id_value, timestamp_ms, to_private_dto, GroupDto, GroupSummary, IncomingPublicMessage,
    MessageDto, Timestamp,
};
use accord::groups::{mls_id, new_group_id};
use accord::history::ArchivedMessage;
use accord::messaging::{
    received_private, reconnect_delay_secs, route, severity_label, signal_kind,
    signal_kind_from_name, supervisor_step, Routed, ServerPayload, StreamAction, StreamEvent,
};
use accord::mls::MlsError;

#[test]
fn reconnect_backoff_doubles_to_a_thirty_second_cap() {
    let delays: Vec<u64> = (0..8).map(reconnect_delay_secs).collect();
    assert_eq!(delays, vec![1, 2, 4, 8, 16, 30, 30, 30]);
    assert_eq!(reconnect_delay_secs(u32::MAX), 30);
}

#[test]
fn supervisor_resets_on_connect_and_backs_off_on_failure() {
    let (a, act) = supervisor_step(3, StreamEvent::NoToken);
    assert_eq!(a, 3);
    assert!(matches!(act, StreamAction::WaitThenRetry { secs: 2 }));
    let (a, act) = supervisor_step(3, StreamEvent::Opened);
    assert_eq!(a, 0);
    assert!(matches!(act, StreamAction::AnnounceConnected));
    let (a, act) = supervisor_step(a, StreamEvent::Ended { closed_by_ui: false });
    assert_eq!(a, 1);
    assert!(matches!(act, StreamAction::Reconnect { refresh_token: false, secs: 2 }));
    let (a, act) = supervisor_step(a, StreamEvent::OpenFailed { unauthenticated: true });
    assert_eq!(a, 2);
    assert!(matches!(act, StreamAction::Reconnect { refresh_token: true, secs: 4 }));
    let (_, act) = supervisor_step(a, StreamEvent::Ended { closed_by_ui: true });
    assert!(matches!(act, StreamAction::Stop));
    let (a, _) = supervisor_step(u32::MAX, StreamEvent::OpenFailed { unauthenticated: false });
    assert_eq!(a, u32::MAX);
    assert!(matches!(supervisor_step(0, StreamEvent::BadToken).1, StreamAction::Stop));
}

#[test]
fn signal_kinds_and_severities() {
    assert_eq!(signal_kind(1), "offer");
    assert_eq!(signal_kind(2), "answer");
    assert_eq!(signal_kind(3), "ice");
    assert_eq!(signal_kind(9), "unknown");
    for k in 1..=3 {
        assert_eq!(signal_kind_from_name(&signal_kind(k)), k);
    }
    assert_eq!(signal_kind_from_name("bogus"), 0);
    assert_eq!(severity_label(1), "info");
    assert_eq!(severity_label(2), "warn");
    assert_eq!(severity_label(3), "hostile");
    assert_eq!(severity_label(0), "info");
}

#[test]
fn timestamps_become_epoch_milliseconds() {
    assert_eq!(timestamp_ms(None), 0);
    assert_eq!(timestamp_ms(Some(Timestamp { seconds: 2, nanos: 5_999_999 })), 2005);
    assert_eq!(timestamp_ms(Some(Timestamp { seconds: 2, nanos: -1_500_000 })), 1999);
}

#[test]
fn group_summaries_map_chat_kinds() {
    let g = GroupDto::from_summary(GroupSummary {
        group_id: Some("id-1".to_owned()),
        name: "general".to_owned(),
        kind: 1,
        channel_kind: "voice".to_owned(),
        member_count: 3,
    });
    assert_eq!(g.id, "id-1");
    assert_eq!(g.kind, "public");
    assert_eq!(g.channel_kind, "voice");
    let p = GroupDto::from_summary(GroupSummary {
        group_id: None,
        name: String::new(),
        kind: 2,
        channel_kind: "text".to_owned(),
        member_count: 2,
    });
    assert_eq!(p.id, "");
    assert_eq!(p.kind, "private");
    let u = GroupDto::from_summary(GroupSummary {
        group_id: None,
        name: String::new(),
        kind: 7,
        channel_kind: String::new(),
        member_count: 0,
    });
    assert_eq!(u.kind, "unknown");
    assert_eq!(id_value(None), "");
}

fn public(ts: Option<Timestamp>) -> IncomingPublicMessage {
    IncomingPublicMessage {
        message_id: Some("m1".to_owned()),
        group_id: Some("g1".to_owned()),
        sender_id: None,
        sender_display_name: "Ann".to_owned(),
        content: "hello".to_owned(),
        timestamp: ts,
        sequence_number: 9,
    }
}

#[test]
fn public_messages_are_tagged_with_their_server() {
    let m: MessageDto = MessageDto::from_incoming_public(public(Some(Timestamp { seconds: 1, nanos: 0 })));
    assert_eq!(m.server_id, "");
    assert_eq!(m.id, "m1");
    assert_eq!(m.sender_id, "");
    assert_eq!(m.timestamp_ms, 1000);
    match route("srv", ServerPayload::PublicMessage(public(None))) {
        Routed::Public(d) => {
            assert_eq!(d.server_id, "srv");
            assert_eq!(d.content, "hello");
            assert_eq!(d.sequence_number, 9);
        }
        _ => panic!("expected a public message"),
    }
}

#[test]
fn private_messages_are_decrypted_in_their_mls_group() {
    let gid = "550e8400-e29b-41d4-a716-446655440000";
    match route(
        "home",
        ServerPayload::PrivateMessage {
            group_id: Some(gid.to_owned()),
            sender_id: Some("u2".to_owned()),
            mls_ciphertext: vec![1, 2, 3],
            timestamp: Some(Timestamp { seconds: 3, nanos: 0 }),
        },
    ) {
        Routed::Decrypt { group_id, mls_group, sender_id, ciphertext, timestamp_ms } => {
            assert_eq!(group_id, gid);
            assert_eq!(mls_group, mls_id(gid));
            assert_eq!(mls_group.len(), 16);
            assert_eq!(sender_id, "u2");
            assert_eq!(ciphertext, vec![1, 2, 3]);
            assert_eq!(timestamp_ms, 3000);
        }
        _ => panic!("expected a decrypt step"),
    }
    assert!(matches!(route("home", ServerPayload::Typing), Routed::Ignore));
    match route("home", ServerPayload::VoiceSignal {
        group_id: None,
        from_device: Some("d".to_owned()),
        kind: 2,
        data: "sdp".to_owned(),
    }) {
        Routed::Signal(s) => {
            assert_eq!(s.kind, "answer");
            assert_eq!(s.from_device, "d");
        }
        _ => panic!("expected a signal"),
    }
    match route("home", ServerPayload::ModAlert {
        actor_id: None,
        action: "kick".to_owned(),
        target: "t".to_owned(),
        reason: "r".to_owned(),
        severity: 3,
        timestamp: None,
    }) {
        Routed::Alert(a) => {
            assert_eq!(a.severity, "hostile");
            assert_eq!(a.server_id, "home");
        }
        _ => panic!("expected an alert"),
    }
}

#[test]
fn decrypted_messages_show_their_text_and_owner() {
    let d = received_private("home", "g".to_owned(), "me".to_owned(), "me", "héllo".as_bytes(), 5);
    assert_eq!(d.content, "héllo");
    assert!(d.mine);
    let lossy = received_private("home", "g".to_owned(), "you".to_owned(), "me", &[0x66, 0xff], 5);
    assert_eq!(lossy.content, "f\u{fffd}");
    assert!(!lossy.mine);
    let arch = ArchivedMessage {
        group_id: "g".to_owned(),
        sender_id: "me".to_owned(),
        content: "c".to_owned(),
        timestamp_ms: 1,
    };
    let dto = to_private_dto(arch, "srv", "me");
    assert!(dto.mine);
    assert_eq!(dto.server_id, "srv");
}

#[test]
fn mls_ids_of_group_texts() {
    let gid = "550e8400-e29b-41d4-a716-446655440000";
    let bytes = mls_id(gid);
    assert_eq!(bytes[0], 0x55);
    assert_eq!(bytes[15], 0x00);
    assert_eq!(mls_id(&gid.to_uppercase()), bytes);
    assert!(mls_id("not a uuid").is_empty());
}

#[test]
fn a_minted_group_id_reads_back_to_its_bytes() {
    let (bytes, text) = new_group_id();
    assert_eq!(text.len(), 36);
    assert_eq!(mls_id(&text), bytes.to_vec());
    assert_eq!(text, text.to_lowercase());
    assert_eq!(text, uuid::Uuid::from_bytes(bytes).to_string());
    assert_eq!(&text[8..9], "-");
    assert_eq!(&text[23..24], "-");
}

#[test]
fn mls_error_messages() {
    assert_eq!(MlsError::UnknownGroup.message(), "unknown group");
    assert_eq!(MlsError::Codec("x".to_owned()).message(), "mls codec error: x");
    assert_eq!(MlsError::Protocol("y".to_owned()).message(), "mls protocol error: y");
    assert_eq!(
        MlsError::State("z".to_owned()).message(),
        "engine state (de)serialization failed: z"
    );
}

#[test]
fn only_an_application_message_is_archived_and_shown() {
    use_after_decrypt();
}

fn use_after_decrypt() {
    let shown = accord::messaging::after_decrypt(
        "home",
        "g1".to_owned(),
        "alice".to_owned(),
        "me",
        Ok(accord::mls::DecryptOutcome::Application(b"hi".to_vec())),
        42,
    )
    .unwrap();
    assert_eq!(shown.content, "hi");
    assert!(!shown.mine);
    assert_eq!(shown.timestamp_ms, 42);
    assert!(accord::messaging::after_decrypt(
        "home",
        "g1".to_owned(),
        "alice".to_owned(),
        "me",
        Ok(accord::mls::DecryptOutcome::CommitApplied),
        42,
    )
    .is_none());
    assert!(accord::messaging::after_decrypt(
        "home",
        "g1".to_owned(),
        "alice".to_owned(),
        "me",
        Err(accord::mls::MlsError::UnknownGroup),
        42,
    )
    .is_none());
}
