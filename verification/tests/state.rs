use brew_server::config::Config;
use brew_server::dashboard::{snapshot, telemetry_snapshot};
use brew_server::state::{ActiveCall, AppState, CallKind, Client, Inner, SdsRoute, Subscriber};
use std::collections::HashSet;

const SECOND: u128 = 1_000_000_000;

fn set<K: std::hash::Hash + Eq + Copy>(items: &[K]) -> HashSet<K> {
    items.iter().copied().collect()
}

fn call(kind: CallKind, owner: u128, destination: u32, peers: &[u128]) -> ActiveCall {
    ActiveCall { kind, owner, source_issi: 1, destination, priority: 0, peers: set(peers) }
}

fn route(source_client: u128, targets: &[u128], created_at: u128) -> SdsRoute {
    SdsRoute { source_client, targets: set(targets), source_issi: 1, destination: 2, created_at }
}

fn server() -> AppState<&'static str> {
    let mut s = AppState::new(Config::default());
    s.inner.clients.insert(1, Client { tx: "one" });
    s.inner.clients.insert(2, Client { tx: "two" });
    s.inner.clients.insert(3, Client { tx: "three" });
    s.inner.subscribers.insert(1001, Subscriber { client_id: 1, groups: set(&[91]) });
    s.inner.subscribers.insert(1002, Subscriber { client_id: 1, groups: set(&[]) });
    s.inner.subscribers.insert(2001, Subscriber { client_id: 2, groups: set(&[91, 92]) });
    s.inner.group_clients.insert(91, set(&[1, 2]));
    s.inner.group_clients.insert(92, set(&[2]));
    s.inner.group_clients.insert(93, set(&[1]));
    s.inner.group_clients.insert(94, set(&[]));
    s.inner.calls.insert(10, call(CallKind::Group, 1, 91, &[2]));
    s.inner.calls.insert(11, call(CallKind::Group, 2, 92, &[3]));
    s.inner.calls.insert(12, call(CallKind::Private, 2, 93, &[1]));
    s.inner.calls.insert(13, call(CallKind::Group, 3, 95, &[1]));
    s.inner.group_floor.insert(91, 10);
    s.inner.group_floor.insert(92, 11);
    s.inner.group_floor.insert(93, 12);
    s.inner.group_floor.insert(95, 99);
    s.inner.sds_routes.insert(20, route(1, &[2], 0));
    s.inner.sds_routes.insert(21, route(2, &[3], 0));
    s.inner.sds_routes.insert(22, route(3, &[1, 2], 0));
    s.inner.digest_nonces.insert("n".to_string(), 0);
    s.inner.auth_sessions.insert("s".to_string(), 0);
    s
}

fn keys<K: Ord + Copy, V>(map: &std::collections::HashMap<K, V>) -> Vec<K> {
    let mut keys: Vec<K> = map.keys().copied().collect();
    keys.sort();
    keys
}

#[test]
fn a_new_server_knows_nothing() {
    let s: AppState<()> = AppState::new(Config::default());
    assert_eq!(s.counts(), (0, 0, 0));
    assert!(s.inner.calls.is_empty());
    assert!(s.inner.group_floor.is_empty());
    assert!(s.inner.sds_routes.is_empty());
    assert!(s.inner.digest_nonces.is_empty());
    assert!(s.inner.auth_sessions.is_empty());
    let blank: Inner<()> = Inner::default();
    assert!(blank.clients.is_empty());
    assert_eq!(snapshot(&s).total_calls, 0);
    assert!(telemetry_snapshot(&s).is_empty());
}

#[test]
fn a_client_that_goes_leaves_no_trace() {
    let mut s = server();
    s.cleanup_client(1);
    assert_eq!(keys(&s.inner.clients), vec![2, 3]);
    assert_eq!(s.inner.clients[&2].tx, "two");
    assert_eq!(keys(&s.inner.subscribers), vec![2001]);
    assert_eq!(s.inner.subscribers[&2001].groups, set(&[91, 92]));
    assert_eq!(keys(&s.inner.group_clients), vec![91, 92]);
    assert_eq!(s.inner.group_clients[&91], set(&[2]));
    assert_eq!(s.inner.group_clients[&92], set(&[2]));
    assert_eq!(keys(&s.inner.calls), vec![11]);
    // The floor of a private call and that of a call unknown here stay.
    assert_eq!(keys(&s.inner.group_floor), vec![92, 93, 95]);
    assert_eq!(keys(&s.inner.sds_routes), vec![21]);
    assert!(s.inner.digest_nonces.get("n").is_some());
    assert!(s.inner.auth_sessions.get("s").is_some());
}

#[test]
fn going_twice_or_in_another_order_is_the_same() {
    let mut once = server();
    once.cleanup_client(1);
    let before = (keys(&once.inner.clients), keys(&once.inner.calls), keys(&once.inner.group_floor));
    once.cleanup_client(1);
    assert_eq!(
        before,
        (keys(&once.inner.clients), keys(&once.inner.calls), keys(&once.inner.group_floor))
    );

    let mut ab = server();
    ab.cleanup_client(1);
    ab.cleanup_client(2);
    let mut ba = server();
    ba.cleanup_client(2);
    ba.cleanup_client(1);
    for s in [&ab, &ba] {
        assert_eq!(keys(&s.inner.clients), vec![3]);
        assert!(s.inner.subscribers.is_empty());
        assert!(s.inner.group_clients.is_empty());
        assert!(s.inner.calls.is_empty());
        assert_eq!(keys(&s.inner.group_floor), vec![93, 95]);
        assert!(s.inner.sds_routes.is_empty());
    }
}

#[test]
fn a_client_that_is_not_known_changes_nothing_but_empty_groups() {
    let mut s = server();
    s.cleanup_client(77);
    assert_eq!(keys(&s.inner.clients), vec![1, 2, 3]);
    assert_eq!(keys(&s.inner.group_clients), vec![91, 92, 93]);
    assert_eq!(keys(&s.inner.calls), vec![10, 11, 12, 13]);
    assert_eq!(keys(&s.inner.group_floor), vec![91, 92, 93, 95]);
    assert_eq!(keys(&s.inner.sds_routes), vec![20, 21, 22]);
}

#[test]
fn packets_go_once_to_each_connected_client() {
    let s = server();
    let mut out = s.send_many(&set(&[1, 3, 9]), &[1, 2, 3]);
    out.sort_by_key(|d| d.client_id);
    assert_eq!(out.len(), 2);
    assert_eq!(out[0].client_id, 1);
    assert_eq!(out[1].client_id, 3);
    assert!(out.iter().all(|d| d.packet == vec![1, 2, 3]));
    assert!(s.send_many(&set(&[]), &[1]).is_empty());
}

#[test]
fn what_is_too_old_is_forgotten() {
    let mut s: AppState<()> = AppState::new(Config::default());
    let start = 5 * SECOND;
    for (name, at) in [("old", start), ("young", start + 1)] {
        s.inner.digest_nonces.insert(name.to_string(), at);
        s.inner.auth_sessions.insert(name.to_string(), at);
    }
    s.inner.sds_routes.insert(1, route(1, &[], start));
    s.inner.sds_routes.insert(2, route(1, &[], start + 1));

    s.purge_ephemeral(start + 60 * SECOND - 1);
    assert_eq!(s.inner.sds_routes.len(), 2);
    s.purge_ephemeral(start + 60 * SECOND);
    assert_eq!(keys(&s.inner.sds_routes), vec![2]);

    assert_eq!(s.inner.digest_nonces.len(), 2);
    s.purge_ephemeral(start + 120 * SECOND);
    assert!(s.inner.digest_nonces.get("old").is_none());
    assert!(s.inner.digest_nonces.get("young").is_some());

    assert_eq!(s.inner.auth_sessions.len(), 2);
    s.purge_ephemeral(start + 300 * SECOND);
    assert!(s.inner.auth_sessions.get("old").is_none());
    assert!(s.inner.auth_sessions.get("young").is_some());
    s.purge_ephemeral(start + 300 * SECOND + 1);
    assert!(s.inner.auth_sessions.is_empty());
}

#[test]
fn sessions_hold_for_at_least_one_second() {
    let mut config = Config::default();
    config.auth.session_ttl_seconds = 0;
    let mut s: AppState<()> = AppState::new(config);
    s.inner.auth_sessions.insert("s".to_string(), 0);
    s.purge_ephemeral(SECOND - 1);
    assert_eq!(s.inner.auth_sessions.len(), 1);
    s.purge_ephemeral(SECOND);
    assert!(s.inner.auth_sessions.is_empty());

    let mut config = Config::default();
    config.auth.session_ttl_seconds = u64::MAX;
    let mut s: AppState<()> = AppState::new(config);
    s.inner.auth_sessions.insert("s".to_string(), 0);
    s.purge_ephemeral(u64::MAX as u128 * SECOND - 1);
    assert_eq!(s.inner.auth_sessions.len(), 1);
    s.purge_ephemeral(u64::MAX as u128 * SECOND);
    assert!(s.inner.auth_sessions.is_empty());
}

#[test]
fn what_comes_from_the_future_is_kept() {
    let mut s: AppState<()> = AppState::new(Config::default());
    s.inner.sds_routes.insert(1, route(1, &[], 1_000 * SECOND));
    s.purge_ephemeral(0);
    assert_eq!(s.inner.sds_routes.len(), 1);
}

#[test]
fn the_dashboard_counts_clients_subscribers_and_groups() {
    let mut s = server();
    s.monitor.call_started(4, "group", 1, 2, 3, 4);
    let shown = snapshot(&s);
    assert_eq!((shown.connected_bluestations, shown.subscribers, shown.groups), (3, 3, 4));
    assert_eq!(shown.active_calls.len(), 1);
    assert_eq!(s.counts(), (3, 3, 4));
}
