use std::collections::HashSet;

use accord::taverns::{first_free_port, tavern_name, under_tavern_cap, FIRST_TAVERN_PORT, LAST_TAVERN_PORT};
use accord::voice::{
    add_peer, bundled, device_entry, find_ringtone, ice_arrived, is_offerer, list, list_from,
    new_ice_gate, participant_action, remote_applied, remove_peer, signal_action, start_call,
    BundledRingtone, ParticipantAction, SignalAction, FRAME_SAMPLES, SAMPLE_RATE,
};
use accord::taverns::{cap_reached_error, known_tavern_count, port_in_use_error, sqlite_url, taken_ports, tavern_connect, to_resume, TavernMeta,};

#[test]
fn picks_first_free_port_skipping_taken() {
    let taken: HashSet<u16> = [FIRST_TAVERN_PORT, FIRST_TAVERN_PORT + 1].into_iter().collect();
    // Everything "free" at the OS level: should skip the two taken ports.
    let picked = first_free_port(&taken, |_| true);
    assert_eq!(picked, Some(FIRST_TAVERN_PORT + 2));
}

#[test]
fn respects_os_level_busy_ports() {
    let taken = HashSet::new();
    // Pretend only the 5th port in range binds.
    let target = FIRST_TAVERN_PORT + 4;
    let picked = first_free_port(&taken, |p| p == target);
    assert_eq!(picked, Some(target));
}

#[test]
fn none_when_range_exhausted() {
    let taken = HashSet::new();
    assert_eq!(first_free_port(&taken, |_| false), None);
}

#[test]
fn last_port_of_the_window_is_still_offered() {
    let taken: HashSet<u16> = (FIRST_TAVERN_PORT..LAST_TAVERN_PORT).collect();
    assert_eq!(first_free_port(&taken, |_| true), Some(LAST_TAVERN_PORT));
}

#[test]
fn tavern_names_are_trimmed_and_required() {
    assert_eq!(tavern_name("  Lounge \n").unwrap(), "Lounge");
    assert!(tavern_name("   ").is_err());
    assert!(under_tavern_cap(15, 16));
    assert!(!under_tavern_cap(16, 16));
}

#[test]
fn frame_is_twenty_milliseconds() {
    assert_eq!(FRAME_SAMPLES, 960, "Opus/WebRTC standard frame at 48 kHz");
    assert_eq!(SAMPLE_RATE, 48_000);
}

#[test]
fn offerer_election_is_deterministic_and_asymmetric() {
    // The rule both sides apply independently: smaller device id offers.
    let (a, b) = ("11111111-aaaa", "22222222-bbbb");
    assert!(a < b, "one side offers");
    assert!(!(b < a), "and the other answers - never both");
    assert!(is_offerer(a, b));
    assert!(!is_offerer(b, a));
    assert!(!is_offerer(a, a));
}

#[test]
fn the_built_in_ringtone_is_always_offered_first() {
    let all = list();
    assert_eq!(all[0].id, "classic");
    assert_eq!(all[0].name, "Classic");
    assert_eq!(all.len(), 1 + bundled().len());
}

#[test]
fn bundled_ids_are_unique_so_a_saved_choice_is_unambiguous() {
    let mut ids: Vec<String> = bundled().into_iter().map(|r| r.id).collect();
    ids.push("classic".to_owned());
    let count = ids.len();
    ids.sort_unstable();
    ids.dedup();
    assert_eq!(ids.len(), count, "ringtone ids collide: {ids:?}");
}

#[test]
fn ringtone_catalogue_lists_bundled_files_after_the_built_in() {
    let files = vec![
        BundledRingtone { id: "chime".to_owned(), name: "Chime".to_owned(), bytes: vec![1, 2] },
        BundledRingtone { id: "bell".to_owned(), name: "Bell".to_owned(), bytes: vec![3] },
    ];
    let all = list_from(&files);
    let ids: Vec<&str> = all.iter().map(|r| r.id.as_str()).collect();
    assert_eq!(ids, vec!["classic", "chime", "bell"]);
    assert_eq!(all[0].name, "Classic");
    assert_eq!(find_ringtone(&files, "bell"), Some(1));
    assert_eq!(find_ringtone(&files, "no-such-ringtone"), None);
}

#[test]
fn an_unknown_id_falls_back_rather_than_going_silent() {
    // No bundled file answers an unknown id, so the caller plays the
    // synthesised ring, which is always in the catalogue.
    assert_eq!(find_ringtone(&bundled(), "no-such-ringtone"), None);
    let files = vec![BundledRingtone { id: "chime".to_owned(), name: "Chime".to_owned(), bytes: vec![1] }];
    assert_eq!(find_ringtone(&files, "no-such-ringtone"), None);
    assert_eq!(list()[0].id, "classic");
}

#[test]
fn audio_device_entries() {
    let d = device_entry(Some("alsa:hw:1,0".to_owned()), None, Some("alsa:hw:1,0")).unwrap();
    assert_eq!(d.name, "alsa:hw:1,0");
    assert!(d.is_default);
    let e = device_entry(Some("x".to_owned()), Some("Speakers".to_owned()), None).unwrap();
    assert_eq!(e.name, "Speakers");
    assert!(!e.is_default);
    assert!(device_entry(None, Some("n".to_owned()), None).is_none());
}

#[test]
fn a_call_needs_a_device_id() {
    let err = start_call("home".to_owned(), "g".to_owned(), String::new()).err().unwrap();
    assert_eq!(err, "this session has no device id - reconnect and try again");
}

#[test]
fn participants_join_and_leave_the_call() {
    let mut call = start_call("home".to_owned(), "g1".to_owned(), "bbbb".to_owned()).unwrap();
    // A larger id joins: we are smaller, so we offer.
    match participant_action(&call, "home", "g1", "cccc", true) {
        ParticipantAction::Connect { offer } => assert!(offer),
        _ => panic!("expected a connection"),
    }
    // A smaller id joins: they offer, we answer.
    match participant_action(&call, "home", "g1", "aaaa", true) {
        ParticipantAction::Connect { offer } => assert!(!offer),
        _ => panic!("expected a connection"),
    }
    add_peer(&mut call, "cccc".to_owned());
    // Not twice.
    assert!(matches!(participant_action(&call, "home", "g1", "cccc", true), ParticipantAction::Ignore));
    // Our own device, an empty id, another group: ignored.
    assert!(matches!(participant_action(&call, "home", "g1", "bbbb", true), ParticipantAction::Ignore));
    assert!(matches!(participant_action(&call, "home", "g1", "", true), ParticipantAction::Ignore));
    assert!(matches!(participant_action(&call, "home", "g2", "dddd", true), ParticipantAction::Ignore));
    // Leaving.
    match participant_action(&call, "home", "g1", "cccc", false) {
        ParticipantAction::Disconnect(i) => {
            assert_eq!(i, 0);
            remove_peer(&mut call, i);
        }
        _ => panic!("expected a disconnect"),
    }
    assert!(call.peers.is_empty());
}

#[test]
fn signals_reach_known_peers_and_offers_open_new_ones() {
    let mut call = start_call("dm:abc".to_owned(), "g".to_owned(), "mine".to_owned()).unwrap();
    add_peer(&mut call, "peer-1".to_owned());
    assert!(matches!(signal_action(&call, "dm:abc", "g", "peer-1", "ice"), SignalAction::Deliver(0)));
    assert!(matches!(signal_action(&call, "dm:abc", "g", "peer-2", "offer"), SignalAction::AnswerNew));
    assert!(matches!(signal_action(&call, "dm:abc", "g", "peer-2", "answer"), SignalAction::Ignore));
    assert!(matches!(signal_action(&call, "home", "g", "peer-1", "ice"), SignalAction::Ignore));
}

#[test]
fn early_ice_candidates_wait_and_none_are_lost() {
    let mut gate = new_ice_gate();
    assert_eq!(ice_arrived(&mut gate, "c1".to_owned()), None);
    assert_eq!(ice_arrived(&mut gate, "c2".to_owned()), None);
    let held = remote_applied(&mut gate);
    assert_eq!(held, vec!["c1".to_owned(), "c2".to_owned()]);
    assert_eq!(ice_arrived(&mut gate, "c3".to_owned()), Some("c3".to_owned()));
    assert!(gate.pending.is_empty());
}

#[test]
fn tavern_bookkeeping() {
    let meta = |id: &str, port: u16| TavernMeta { id: id.to_owned(), name: format!("n-{id}"), port };
    assert_eq!(
        known_tavern_count(vec!["a".to_owned(), "b".to_owned()], vec!["b".to_owned(), "c".to_owned()]),
        3
    );
    assert_eq!(
        cap_reached_error(16),
        "hosted-tavern limit reached (16). Raise it in Settings \u{2192} Network (each hosted tavern uses a port from 50052 up)."
    );
    let taken = taken_ports(&[50052], &[meta("a", 50053)]);
    assert!(taken.contains(&50052) && taken.contains(&50053) && taken.len() == 2);
    let c = tavern_connect(&meta("t", 50054), "PEM".to_owned());
    assert_eq!(c.endpoint, "https://127.0.0.1:50054");
    assert_eq!(c.cert.as_deref(), Some("PEM"));
    assert_eq!(sqlite_url("C:\\data\\accord-host.db"), "sqlite:C:/data/accord-host.db");
    assert_eq!(port_in_use_error(50060), "port 50060 is already in use");
    let resumed = to_resume(vec![meta("a", 1), meta("b", 2)], &["a".to_owned()]);
    assert_eq!(resumed.len(), 1);
    assert_eq!(resumed[0].id, "b");
}
