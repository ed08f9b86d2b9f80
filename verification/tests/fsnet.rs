use base64::Engine;
use brew_server::fsnet::{
    basic_challenge, check_credentials, finish_upgrade, offers_subprotocol, try_upgrade, upgrade,
    verify_basic, Handshake,
};
use brew_server::text_map::TextMap;

fn users(list: &[(&str, &str)]) -> TextMap<String> {
    let mut users = TextMap::new();
    for (name, password) in list {
        users.insert(name.to_string(), password.to_string());
    }
    users
}

fn header(credentials: &[u8]) -> Vec<u8> {
    let encoded = base64::engine::general_purpose::STANDARD.encode(credentials);
    format!("Basic {encoded}").into_bytes()
}

#[test]
fn subprotocols_are_found_in_a_list() {
    let telemetry = "bluestation-telemetry-v2";
    for offered in [
        "bluestation-telemetry-v2",
        "brew, bluestation-telemetry-v2",
        "\tbluestation-telemetry-v2 ,brew",
        ",,bluestation-telemetry-v2,",
    ] {
        assert!(offers_subprotocol(Some(offered.as_bytes()), telemetry));
    }
    for offered in [
        "",
        "brew",
        "bluestation-telemetry-v21",
        "Bluestation-telemetry-v2",
        "bluestation-telemetry-v2;brew",
        "bluestation telemetry-v2",
    ] {
        assert!(!offers_subprotocol(Some(offered.as_bytes()), telemetry));
    }
    assert!(!offers_subprotocol(None, telemetry));
    assert!(offers_subprotocol(Some(b"a,"), ""));
    assert!(offers_subprotocol(Some(b""), ""));
}

#[test]
fn list_items_agree_with_splitting() {
    let alphabet = [b',', b' ', b'a'];
    for n in 0..6u32 {
        for code in 0..3u32.pow(n) {
            let mut text = String::new();
            let mut c = code;
            for _ in 0..n {
                text.push(alphabet[(c % 3) as usize] as char);
                c /= 3;
            }
            for wanted in ["", "a", "aa", "a a"] {
                assert_eq!(
                    offers_subprotocol(Some(text.as_bytes()), wanted),
                    text.split(',').any(|p| p.trim() == wanted)
                );
            }
        }
    }
}

#[test]
fn header_values_must_be_visible_ascii() {
    for b in 0..=255u8 {
        let value = [b'x', b',', b'a', b];
        let readable = (32..127).contains(&b) || b == b'\t';
        assert_eq!(offers_subprotocol(Some(&value), "x"), readable);
    }
}

#[test]
fn anyone_may_come_where_there_are_no_users() {
    let nobody = users(&[]);
    assert_eq!(verify_basic(&nobody, None), Ok(None));
    assert_eq!(verify_basic(&nobody, Some(b"Bearer x")), Ok(None));
    assert_eq!(verify_basic(&nobody, Some(&[0xff])), Ok(None));
}

#[test]
fn the_right_password_admits() {
    let known = users(&[("bts1", "secret"), ("bts2", "with:colon:ü"), ("", "nameless")]);
    let h = header(b"bts1:secret");
    assert_eq!(verify_basic(&known, Some(&h)), Ok(Some("bts1".to_string())));
    let h = header("bts2:with:colon:ü".as_bytes());
    assert_eq!(verify_basic(&known, Some(&h)), Ok(Some("bts2".to_string())));
    let h = header(b":nameless");
    assert_eq!(verify_basic(&known, Some(&h)), Ok(Some(String::new())));
}

#[test]
fn everything_else_is_refused() {
    let known = users(&[("bts1", "secret"), ("bts2", "other")]);
    assert_eq!(verify_basic(&known, None), Err(()));
    for credentials in ["bts1:wrong", "bts1:", "bts1", "bts2:secret", "nobody:secret", ""] {
        assert_eq!(verify_basic(&known, Some(&header(credentials.as_bytes()))), Err(()));
    }
    assert_eq!(verify_basic(&known, Some(&header(&[0xff, b':', 0xfe]))), Err(()));
    assert_eq!(verify_basic(&known, Some(b"Basic !!!!")), Err(()));
    assert_eq!(verify_basic(&known, Some(b"Basic YnRzMTpzZWNyZXQ")), Err(()));
    assert_eq!(verify_basic(&known, Some(b"basic YnRzMTpzZWNyZXQ=")), Err(()));
    assert_eq!(verify_basic(&known, Some(b"Basic  YnRzMTpzZWNyZXQ=")), Err(()));
    assert_eq!(verify_basic(&known, Some(b"Basic")), Err(()));
    assert_eq!(verify_basic(&known, Some(b"Basic YnRzMTpzZWNyZXQ=\xff")), Err(()));
    assert_eq!(
        verify_basic(&known, Some(b"Basic YnRzMTpzZWNyZXQ=")),
        Ok(Some("bts1".to_string()))
    );
}

#[test]
fn credentials_end_the_name_at_the_first_colon() {
    let known = users(&[("a", "b:c"), ("a:b", "c")]);
    assert_eq!(check_credentials(&known, b"a:b:c"), Some("a".to_string()));
    assert_eq!(check_credentials(&known, b"a:c"), None);
    assert_eq!(check_credentials(&known, b"abc"), None);
    assert_eq!(check_credentials(&known, &[0xc3]), None);
}

#[test]
fn refused_requests_are_challenged() {
    let challenge = basic_challenge("bluestation-telemetry-v2");
    assert_eq!(challenge.status, 401);
    assert_eq!(challenge.www_authenticate, "Basic realm=\"bluestation-telemetry-v2\"");

    let known = users(&[("bts1", "secret")]);
    let refused = upgrade(&known, "x", Some(b"Basic ")).unwrap_err();
    assert_eq!(refused.status, 401);
    assert_eq!(refused.www_authenticate, "Basic realm=\"x\"");
    let admitted = upgrade(&known, "x", Some(&header(b"bts1:secret"))).unwrap();
    assert_eq!(admitted, Some("bts1".to_string()));
    assert_eq!(upgrade(&users(&[]), "x", None).unwrap(), None);
}

#[test]
fn a_subprotocol_that_fits_no_header_matters_only_in_a_challenge() {
    let known = users(&[("bts1", "secret")]);
    let right = header(b"bts1:secret");
    let odd = "a\u{1}b";
    let name = Some("bts1".to_string());
    assert_eq!(upgrade(&known, odd, Some(&right)).unwrap(), name);
    assert_eq!(try_upgrade(&known, odd, Some(&right)).unwrap().unwrap(), name);
    assert_eq!(try_upgrade(&users(&[]), odd, None).unwrap().unwrap(), None);
    assert!(try_upgrade(&known, odd, None).is_none());
    assert!(try_upgrade(&known, "\u{7f}", None).is_none());
    for fine in ["x", "\t", "\u{e9}", ""] {
        let refused = try_upgrade(&known, fine, None).unwrap().unwrap_err();
        assert_eq!(refused.status, 401);
        assert_eq!(refused.www_authenticate, format!("Basic realm=\"{fine}\""));
    }
}

#[test]
fn only_valid_handshakes_are_served() {
    let name = Some("bts1".to_string());
    let Handshake::Serve { subprotocol, identity } = finish_upgrade("x", name.clone(), true) else {
        panic!()
    };
    assert_eq!(subprotocol, "x");
    assert_eq!(identity, name);
    assert!(matches!(finish_upgrade("x", name, false), Handshake::Reject));
}
