use brew_server::config::{AprsConfig, AuthConfig, Config, TlsConfig};

#[test]
fn defaults_hold_where_nothing_is_configured() {
    let c = Config::default();
    assert_eq!(c.listen, "0.0.0.0:9000");
    assert_eq!(c.websocket_path, "/brew");
    assert_eq!(c.websocket_subprotocol, "brew");
    assert!(!c.route_without_affiliations);
    assert!(c.fallback_broadcast_when_no_affiliations);
    assert!(!c.allow_multiple_calls_per_group);
    assert!(c.higher_priority_number_wins);
    assert_eq!(c.preempt_cause, 1);
    let a = AuthConfig::default();
    assert!(!a.enabled);
    assert_eq!(a.realm, "brew-server");
    assert!(a.users.is_empty());
    assert_eq!(a.session_ttl_seconds, 300);
    let t = TlsConfig::default();
    assert!(!t.enabled);
    assert_eq!((t.cert_path.as_str(), t.key_path.as_str()), ("cert.pem", "key.pem"));
    let p = AprsConfig::default();
    assert!(!p.enabled);
    assert_eq!(p.talkgroup, 200999);
    assert_eq!((p.server.as_str(), p.port), ("euro.aprs2.net", 14580));
    assert_eq!((p.login_callsign.as_str(), p.passcode), ("N0CALL", -1));
    assert_eq!(p.users_file, "users.json");
    assert_eq!((p.symbol_table, p.symbol), ('/', '>'));
    assert_eq!((p.reconnect_seconds, p.users_reload_seconds), (15, 60));
}

#[test]
fn a_missing_file_means_the_defaults() {
    let none: Option<Result<Config, String>> = None;
    assert_eq!(Config::load(none).unwrap().websocket_path, "/brew");
    let mut c = Config::default();
    c.websocket_path = "/other".to_string();
    assert_eq!(Config::load::<String>(Some(Ok(c))).unwrap().websocket_path, "/other");
    assert_eq!(Config::load(Some(Err("parsing".to_string()))).unwrap_err(), "parsing");
}
