use accord::mesh::{default_peers, is_available, parse_private_peers};
use accord::peers::{
    cache_text, cached_peers_from_text, extract_peer_uris, fallback_candidates, finish_fetch,
    needs_widening, rank_by_latency, regions_for_offset, select_top, socket_addr_of,
};
use accord::mesh::fixed_peers;
use accord::settings::YggPeerMode;
use accord::mesh::{dev_peers, peers_from_env, peers_from_file};
use accord::mesh::{start_gate, watchdog_check, WatchdogCheck};

#[test]
fn extracts_and_dedupes_uris() {
    let md = "* `tls://01.ffm.deu.example:443` ok\n- tcp://192.0.2.7:9001 \
              and quic://skip.me:1 plus tls://[2001:db8::1]:443?key=abc again \
              tcp://192.0.2.7:9001";
    let uris = extract_peer_uris(md);
    assert_eq!(
        uris,
        vec![
            "tcp://192.0.2.7:9001".to_owned(),
            "tls://01.ffm.deu.example:443".to_owned(),
            "tls://[2001:db8::1]:443".to_owned(),
        ]
    );
}

#[test]
fn socket_addr_forms() {
    assert_eq!(
        socket_addr_of("tls://host.example:443").as_deref(),
        Some("host.example:443")
    );
    assert_eq!(
        socket_addr_of("tcp://[2001:db8::1]:9001").as_deref(),
        Some("[2001:db8::1]:9001")
    );
    assert_eq!(socket_addr_of("garbage"), None);
}

#[test]
fn peer_cache_round_trips_and_tolerates_missing() {
    let peers = vec![
        "tls://a.example:443".to_owned(),
        "tcp://b.example:9001".to_owned(),
    ];
    let text = cache_text(&peers);
    assert_eq!(cached_peers_from_text(&text), peers);
    assert!(cached_peers_from_text("").is_empty());
    assert_eq!(
        cached_peers_from_text("  tls://c.example:443  \n\n"),
        vec!["tls://c.example:443".to_owned()]
    );
}

#[test]
fn regions_follow_the_utc_offset() {
    assert_eq!(regions_for_offset(-5 * 3600), vec!["north-america", "south-america"]);
    assert_eq!(regions_for_offset(3600), vec!["europe", "africa"]);
    assert_eq!(regions_for_offset(4 * 3600), vec!["europe", "mena", "asia"]);
    assert_eq!(regions_for_offset(9 * 3600), vec!["asia", "australia"]);
    // -2.5 h rounds toward zero to -2 h.
    assert_eq!(regions_for_offset(-9000), vec!["europe", "africa"]);
    assert_eq!(regions_for_offset(20 * 3600).len(), 7);
}

#[test]
fn ranking_orders_by_latency_and_keeps_every_probe() {
    let probes = vec![
        ("tls://slow:1".to_owned(), 300u128),
        ("tls://fast:1".to_owned(), 20u128),
        ("tls://mid:1".to_owned(), 90u128),
    ];
    let ranked = rank_by_latency(probes);
    let order: Vec<&str> = ranked.iter().map(|(u, _)| u.as_str()).collect();
    assert_eq!(order, vec!["tls://fast:1", "tls://mid:1", "tls://slow:1"]);
    let top = select_top(&ranked).unwrap();
    assert_eq!(top, vec!["tls://fast:1", "tls://mid:1", "tls://slow:1"]);
}

#[test]
fn selecting_from_no_reachable_peer_is_an_error() {
    assert!(select_top(&[]).is_err());
    assert!(finish_fetch(Vec::new()).is_err());
    assert_eq!(finish_fetch(vec!["tls://x:1".to_owned()]).unwrap(), vec!["tls://x:1".to_owned()]);
}

#[test]
fn widening_and_fallback() {
    assert!(needs_widening(0));
    let fetched: Vec<String> = Vec::new();
    let cached = vec!["tls://cached:1".to_owned()];
    assert_eq!(fallback_candidates(fetched, cached.clone()), cached);
}

#[test]
fn default_mesh_peers_are_the_bundled_four() {
    let peers = default_peers();
    assert_eq!(peers.len(), 4);
    assert_eq!(peers[0], "tls://ygg.mkg20001.io:443");
    assert!(!is_available());
}

#[test]
fn private_peers_parse_from_lines() {
    let lines = vec![
        "Peers: [".to_owned(),
        "  tls://a.example:443, tcp://b.example:9001".to_owned(),
        "]".to_owned(),
    ];
    let peers = parse_private_peers(&lines);
    assert_eq!(
        peers,
        vec!["tcp://b.example:9001".to_owned(), "tls://a.example:443".to_owned()]
    );
}

#[test]
fn fixed_peer_sources_by_mode() {
    assert_eq!(
        fixed_peers(YggPeerMode::Authorized, &[]).err().unwrap(),
        "no authorized peers are published yet - they arrive with our hosted infrastructure; use Public or Private peers for now"
    );
    assert!(fixed_peers(YggPeerMode::Public, &[]).unwrap().is_none());
    assert_eq!(
        fixed_peers(YggPeerMode::Private, &["nothing here".to_owned()]).err().unwrap(),
        "no peer URIs found - enter at least one tcp:// or tls:// peer"
    );
    assert_eq!(
        fixed_peers(YggPeerMode::Private, &["tls://p:1, tcp://q:2".to_owned()]).unwrap().unwrap(),
        vec!["tcp://q:2".to_owned(), "tls://p:1".to_owned()]
    );
}

#[test]
fn development_peer_resolution() {
    assert_eq!(peers_from_env(" tls://a:1 ,, tcp://b:2 "), vec!["tls://a:1".to_owned(), "tcp://b:2".to_owned()]);
    assert_eq!(
        peers_from_file("# comment\n tls://a:1 \n\ntcp://b:2\r\n"),
        vec!["tls://a:1".to_owned(), "tcp://b:2".to_owned()]
    );
    let env = vec!["tls://e:1".to_owned()];
    let file = vec!["tls://f:1".to_owned()];
    assert_eq!(dev_peers(env.clone(), file.clone()), env);
    assert_eq!(dev_peers(Vec::new(), file.clone()), file);
    assert_eq!(dev_peers(Vec::new(), Vec::new()).len(), 4);
}

#[test]
fn mesh_start_and_watchdog_decisions() {
    assert_eq!(start_gate(Some("200::1".to_owned()), true), Ok(Some("200::1".to_owned())));
    assert_eq!(start_gate(None, true), Err("the mesh is already starting".to_owned()));
    assert_eq!(start_gate(None, false), Ok(None));
    assert!(matches!(watchdog_check(true, true, 3), WatchdogCheck::Probe));
    assert!(matches!(watchdog_check(false, true, 3), WatchdogCheck::Stop));
    assert!(matches!(watchdog_check(true, false, 3), WatchdogCheck::Stop));
    assert!(matches!(watchdog_check(true, true, 0), WatchdogCheck::Stop));
}
