use accord::sessions::Sessions;

#[test]
fn no_session_until_connected() {
    let s: Sessions<u32, &'static str> = Sessions::new();
    assert!(s.active().is_none());
    assert!(s.active_server().is_none());
    assert_eq!(s.active_server_id(), Err("not connected to a server".to_owned()));
    assert_eq!(s.require_channel().err(), Some("not connected to a server".to_owned()));
    assert_eq!(s.home_creds().err(), Some("not signed in to your home server".to_owned()));
}

#[test]
fn connect_makes_the_server_active_and_sign_in_publishes_credentials() {
    let mut s: Sessions<u32, &'static str> = Sessions::new();
    s.connect("tavern-a".to_owned(), 7, "https://a.example:50051".to_owned(), None);
    assert_eq!(s.active_server_id(), Ok("tavern-a".to_owned()));
    assert_eq!(s.active_channel(), Some(&7));
    assert_eq!(s.require_channel(), Ok(&7));
    assert!(s.active_channel_token().is_none());
    assert_eq!(s.require_session().err(), Some("not connected / not logged in".to_owned()));

    let id = s.sign_in_active("user-1".to_owned(), "tok-1".to_owned(), "ref-1".to_owned(), "engine-user-1");
    assert_eq!(id, Ok("tavern-a".to_owned()));
    let (c, t) = s.require_session().unwrap();
    assert_eq!((*c, t.as_str()), (7, "tok-1"));
    let active = s.active().unwrap();
    assert_eq!(active.endpoint.as_deref(), Some("https://a.example:50051"));
    assert_eq!(active.refresh_token.as_deref(), Some("ref-1"));
    assert_eq!(active.engine, Some("engine-user-1"));
}

#[test]
fn switching_servers_keeps_every_session() {
    let mut s: Sessions<u32, &'static str> = Sessions::new();
    s.connect("home".to_owned(), 1, "https://home.example".to_owned(), Some("CERT".to_owned()));
    s.sign_in_active("me".to_owned(), "home-tok".to_owned(), "home-ref".to_owned(), "engine-me").unwrap();
    s.connect("tavern-b".to_owned(), 2, "https://b.example".to_owned(), None);
    s.sign_in_active("me-on-b".to_owned(), "b-tok".to_owned(), "b-ref".to_owned(), "engine-me-on-b").unwrap();

    assert_eq!(s.set_active_server("nowhere".to_owned()), Err("not connected to that server".to_owned()));
    assert_eq!(s.active_server_id(), Ok("tavern-b".to_owned()));
    assert_eq!(s.set_active_server("home".to_owned()), Ok(()));
    assert_eq!(s.active_server_id(), Ok("home".to_owned()));

    let (c, t) = s.home_creds().unwrap();
    assert_eq!((*c, t.as_str()), (1, "home-tok"));
    let (c, t) = s.creds_for_user("me-on-b").unwrap();
    assert_eq!((*c, t.as_str()), (2, "b-tok"));
    assert!(s.creds_for_user("stranger").is_none());
}

#[test]
fn entry_creates_a_blank_session_once() {
    let mut s: Sessions<u32, &'static str> = Sessions::new();
    {
        let e = s.entry("dm:bob");
        assert!(e.channel.is_none() && e.token.is_none());
        e.channel = Some(9);
        e.token = Some("guest".to_owned());
    }
    let e = s.entry("dm:bob");
    assert_eq!(e.channel, Some(9));
    assert!(s.active().is_none(), "a background session does not take the view");
    assert_eq!(s.sign_in_active("x".to_owned(), "y".to_owned(), "z".to_owned(), "engine-x"), Err("not connected".to_owned()));
    assert!(s.creds_for_user("nobody-yet").is_none());
}

#[test]
fn reconnecting_keeps_the_sign_in() {
    let mut s: Sessions<u32, &'static str> = Sessions::new();
    s.connect("t".to_owned(), 1, "https://old.example".to_owned(), None);
    s.sign_in_active("u".to_owned(), "tok".to_owned(), "ref".to_owned(), "engine-u").unwrap();
    s.connect("t".to_owned(), 2, "https://new.example".to_owned(), None);
    let (c, t) = s.require_session().unwrap();
    assert_eq!((*c, t.as_str()), (2, "tok"));
}

#[test]
fn a_refresh_rotates_tokens_and_keeps_the_old_refresh_when_none_is_sent() {
    let mut s: Sessions<u32, &'static str> = Sessions::new();
    s.connect("t".to_owned(), 1, "https://t.example".to_owned(), None);
    s.sign_in_active("u".to_owned(), "a1".to_owned(), "r1".to_owned(), "engine-u").unwrap();
    s.store_refreshed("t", "a2".to_owned(), "r2".to_owned());
    assert_eq!(s.current_token("t").map(String::as_str), Some("a2"));
    assert_eq!(s.refresh_token_of("t").map(String::as_str), Some("r2"));
    s.store_refreshed("t", "a3".to_owned(), String::new());
    assert_eq!(s.current_token("t").map(String::as_str), Some("a3"));
    assert_eq!(s.refresh_token_of("t").map(String::as_str), Some("r2"));
    s.store_refreshed("gone", "x".to_owned(), "y".to_owned());
    assert!(s.current_token("gone").is_none());
    assert!(s.refresh_token_of("gone").is_none());
}

#[test]
fn a_background_guest_session_does_not_take_the_view() {
    let mut s: Sessions<u32, &'static str> = Sessions::new();
    s.connect("home".to_owned(), 1, "https://home.example".to_owned(), None);
    s.register_signed_in(
        "dm:abcd".to_owned(),
        5,
        "http://192.0.2.1:50051".to_owned(),
        None,
        "guest-1".to_owned(),
        "g-tok".to_owned(),
        "g-ref".to_owned(),
        "guest-engine",
        false,
    );
    assert_eq!(s.active_server_id(), Ok("home".to_owned()));
    let (c, t) = s.creds_for_user("guest-1").unwrap();
    assert_eq!((*c, t.as_str()), (5, "g-tok"));
    s.register_signed_in(
        "dm:abcd".to_owned(),
        6,
        "http://192.0.2.1:50051".to_owned(),
        None,
        "guest-1".to_owned(),
        "g-tok-2".to_owned(),
        "g-ref-2".to_owned(),
        "guest-engine-2",
        true,
    );
    assert_eq!(s.active_server_id(), Ok("dm:abcd".to_owned()));
    let (c, t) = s.require_session().unwrap();
    assert_eq!((*c, t.as_str()), (6, "g-tok-2"));
    assert_eq!(s.active().unwrap().engine, Some("guest-engine-2"));
}
