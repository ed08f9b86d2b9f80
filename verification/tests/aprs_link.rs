use brew_server::aprs_link::{
    login_line, read_server_line, reconnect_delay, reload_delay, server_address, LineKind, Link,
    LinkAction, LinkEvent, Stage,
};
use brew_server::config::AprsConfig;

#[test]
fn logs_in_with_call_sign_and_passcode() {
    let mut config = AprsConfig::default();
    assert_eq!(server_address(&config), "euro.aprs2.net:14580");
    assert_eq!(
        login_line(&config, "0.2.1"),
        "user N0CALL pass -1 vers brew-server-aprs 0.2.1\r\n"
    );
    config.passcode = i32::MIN;
    config.login_callsign = "CT1JIB-10".to_string();
    assert_eq!(
        login_line(&config, "x"),
        format!("user CT1JIB-10 pass {} vers brew-server-aprs x\r\n", i32::MIN)
    );
}

#[test]
fn delays_are_at_least_one_second() {
    let mut config = AprsConfig::default();
    assert_eq!(reconnect_delay(&config), 15);
    assert_eq!(reload_delay(&config), 60);
    config.reconnect_seconds = 0;
    config.users_reload_seconds = 0;
    assert_eq!(reconnect_delay(&config), 1);
    assert_eq!(reload_delay(&config), 1);
}

#[test]
fn server_lines_are_told_apart() {
    let cases = [
        ("\r\n", LineKind::Blank, ""),
        ("", LineKind::Blank, ""),
        ("# logresp N0CALL unverified, server T2X\r\n", LineKind::LoginUnverified,
            "# logresp N0CALL unverified, server T2X"),
        ("# logresp CT1 Verified, server T2X\n", LineKind::LoginVerified,
            "# logresp CT1 Verified, server T2X"),
        ("#login UNVERIFIED", LineKind::LoginUnverified, "#login UNVERIFIED"),
        ("#login ok", LineKind::LoginResponse, "#login ok"),
        ("# aprsc 2.1.15\r\n\r", LineKind::Remark, "# aprsc 2.1.15"),
        ("# verified", LineKind::Remark, "# verified"),
        ("CT1ABC>APRS:hello \n", LineKind::Received, "CT1ABC>APRS:hello "),
        (" # logresp x", LineKind::Received, " # logresp x"),
    ];
    for (line, kind, response) in cases {
        let read = read_server_line(line);
        assert_eq!(read.kind, kind);
        assert_eq!(read.response, response);
    }
}

fn action(link: &Link) -> LinkAction {
    link.next_action(&AprsConfig::default(), "0.2.1")
}

#[test]
fn actions_carry_what_they_need() {
    let mut config = AprsConfig::default();
    config.reconnect_seconds = 0;
    let mut link = Link::new();
    assert!(matches!(
        link.next_action(&config, "9"),
        LinkAction::Connect(address) if address == "euro.aprs2.net:14580"
    ));
    link.step(LinkEvent::Done);
    assert!(matches!(
        link.next_action(&config, "9"),
        LinkAction::SendLogin(line)
            if line == "user N0CALL pass -1 vers brew-server-aprs 9\r\n"
    ));
    link.step(LinkEvent::Failed);
    assert!(matches!(link.next_action(&config, "9"), LinkAction::Sleep(1)));
    config.reconnect_seconds = 7;
    assert!(matches!(link.next_action(&config, "9"), LinkAction::Sleep(7)));
}

#[test]
fn a_packet_outlives_many_failed_connections() {
    let mut link = logged_in();
    link.step(LinkEvent::Packet("one".to_string()));
    link.step(LinkEvent::Failed);
    for round in 0..30 {
        link.step(LinkEvent::Done);
        for _ in 0..round % 3 {
            link.step(LinkEvent::Done);
        }
        link.step(LinkEvent::Failed);
        assert_eq!(link.stage, Stage::Waiting);
        assert_eq!(link.in_hand.as_deref(), Some("one"));
    }
    for _ in 0..4 {
        link.step(LinkEvent::Done);
    }
    assert_eq!(written(&link), "one\r\n");
}

fn logged_in() -> Link {
    let mut link = Link::new();
    assert!(matches!(action(&link), LinkAction::Connect(_)));
    link.step(LinkEvent::Done);
    assert!(matches!(action(&link), LinkAction::SendLogin(_)));
    link.step(LinkEvent::Done);
    assert!(matches!(action(&link), LinkAction::FlushLogin));
    link.step(LinkEvent::Done);
    assert!(matches!(action(&link), LinkAction::Receive));
    link
}

fn written(link: &Link) -> String {
    match action(link) {
        LinkAction::Write(line) => line,
        other => panic!("{other:?}"),
    }
}

#[test]
fn packets_are_written_as_lines() {
    let mut link = logged_in();
    link.step(LinkEvent::Packet("one".to_string()));
    assert_eq!(written(&link), "one\r\n");
    link.step(LinkEvent::Done);
    assert!(matches!(action(&link), LinkAction::Flush));
    link.step(LinkEvent::Done);
    assert!(matches!(action(&link), LinkAction::Receive));
    assert!(link.in_hand.is_none());
}

#[test]
fn a_packet_that_failed_is_written_first_on_the_next_connection() {
    for at_flush in [false, true] {
        let mut link = logged_in();
        link.step(LinkEvent::Packet("one".to_string()));
        if at_flush {
            link.step(LinkEvent::Done);
        }
        link.step(LinkEvent::Failed);
        assert!(matches!(action(&link), LinkAction::Sleep(15)));
        link.step(LinkEvent::Done);
        assert!(matches!(action(&link), LinkAction::Connect(_)));
        link.step(LinkEvent::Failed);
        assert!(matches!(action(&link), LinkAction::Sleep(15)));
        link.step(LinkEvent::Done);
        link.step(LinkEvent::Done);
        link.step(LinkEvent::Failed);
        assert!(matches!(action(&link), LinkAction::Sleep(15)));
        link.step(LinkEvent::Done);
        link.step(LinkEvent::Done);
        link.step(LinkEvent::Done);
        link.step(LinkEvent::Done);
        assert_eq!(written(&link), "one\r\n");
        assert_eq!(link.stage, Stage::Writing);
    }
}

#[test]
fn every_history_keeps_the_packets_in_order() {
    let mut seed: u64 = 7;
    let mut link = Link::new();
    let mut accepted: Vec<String> = Vec::new();
    let mut delivered: Vec<String> = Vec::new();
    for n in 0..5_000 {
        seed = seed.wrapping_mul(6364136223846793005).wrapping_add(1442695040888963407);
        let ok = (seed >> 40) % 3 != 0;
        let event = match action(&link) {
            LinkAction::Receive => {
                accepted.push(format!("p{n}"));
                LinkEvent::Packet(format!("p{n}"))
            }
            LinkAction::Stop => unreachable!(),
            LinkAction::Flush if ok => {
                delivered.push(link.in_hand.clone().unwrap());
                LinkEvent::Done
            }
            LinkAction::Sleep(_) => LinkEvent::Done,
            _ if ok => LinkEvent::Done,
            _ => LinkEvent::Failed,
        };
        link.step(event);
        let mut seen = delivered.clone();
        seen.extend(link.in_hand.clone());
        assert_eq!(seen, accepted);
    }
    assert!(delivered.len() > 100);
}

#[test]
fn the_link_stops_when_no_more_packets_come() {
    let mut link = logged_in();
    link.step(LinkEvent::Closed);
    assert!(matches!(action(&link), LinkAction::Stop));
    link.step(LinkEvent::Done);
    link.step(LinkEvent::Failed);
    link.step(LinkEvent::Packet("late".to_string()));
    assert_eq!(link.stage, Stage::Stopped);
    assert!(link.in_hand.is_none());
}
