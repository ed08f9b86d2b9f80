use brew_server::monitor::{LiveData, Monitor};

#[test]
fn a_call_passes_from_active_to_history() {
    let mut m = Monitor::new();
    let told = m.call_started(5, "group", 1001, 91, 3, 1_000);
    assert_eq!(told.event, "call_started");
    assert_eq!(told.at_ms, 1_000);
    let LiveData::Call(c) = told.data else { panic!() };
    assert_eq!((c.uuid, c.kind.as_str(), c.source, c.destination), (5, "group", 1001, 91));
    assert_eq!((c.priority, c.started_at_ms, c.ended_at_ms, c.voice_frames), (3, 1_000, None, 0));

    m.voice_frame(5);
    m.voice_frame(5);
    m.voice_frame(6);
    let s = m.snapshot(2, 3, 4);
    assert_eq!((s.connected_bluestations, s.subscribers, s.groups), (2, 3, 4));
    assert_eq!(s.active_calls.len(), 1);
    assert_eq!(s.active_calls[0].voice_frames, 2);
    assert_eq!((s.total_calls, s.total_sds, s.voice_frames), (1, 0, 3));
    assert!(s.recent_calls.is_empty());

    let told = m.call_ended(5, 2_500).unwrap();
    assert_eq!(told.event, "call_ended");
    assert_eq!(told.at_ms, 2_500);
    let LiveData::Call(c) = told.data else { panic!() };
    assert_eq!((c.ended_at_ms, c.voice_frames), (Some(2_500), 2));
    let s = m.snapshot(0, 0, 0);
    assert!(s.active_calls.is_empty());
    assert_eq!(s.recent_calls.len(), 1);
    assert_eq!(s.recent_calls[0].ended_at_ms, Some(2_500));
    assert_eq!(s.recent_calls[0].kind, "group");

    assert!(m.call_ended(5, 3_000).is_none());
    assert_eq!(m.snapshot(0, 0, 0).recent_calls.len(), 1);
}

#[test]
fn a_call_that_starts_again_is_counted_once() {
    let mut m = Monitor::new();
    m.call_started(5, "group", 1, 2, 0, 10);
    m.voice_frame(5);
    m.call_started(5, "private", 3, 4, 1, 20);
    let s = m.snapshot(0, 0, 0);
    assert_eq!(s.total_calls, 1);
    assert_eq!(s.active_calls.len(), 1);
    assert_eq!(s.active_calls[0].kind, "private");
    assert_eq!(s.active_calls[0].voice_frames, 0);
    assert_eq!(s.voice_frames, 1);
    m.call_ended(5, 30);
    m.call_started(5, "group", 1, 2, 0, 40);
    assert_eq!(m.snapshot(0, 0, 0).total_calls, 2);
}

#[test]
fn histories_keep_the_newest() {
    let mut m = Monitor::new();
    for i in 0..250u64 {
        m.call_started(i as u128, "group", 0, 0, 0, i);
        m.call_ended(i as u128, i);
        m.sds(i as u128, 1, 2, i);
    }
    assert_eq!(m.calls.len(), 200);
    assert_eq!(m.sds.len(), 200);
    let s = m.snapshot(0, 0, 0);
    assert_eq!((s.total_calls, s.total_sds), (250, 250));
    assert_eq!(s.recent_calls.len(), 50);
    assert_eq!(s.recent_sds.len(), 50);
    for i in 0..50usize {
        assert_eq!(s.recent_calls[i].started_at_ms, 249 - i as u64);
        assert_eq!(s.recent_sds[i].at_ms, 249 - i as u64);
    }
    assert_eq!(m.calls[199].started_at_ms, 50);
}

#[test]
fn reports_are_counted_on_the_newest_message() {
    let mut m = Monitor::new();
    let told = m.sds(7, 1001, 2002, 10);
    assert_eq!(told.event, "sds");
    let LiveData::Sds(r) = told.data else { panic!() };
    assert_eq!((r.uuid, r.source, r.destination, r.at_ms, r.reports), (7, 1001, 2002, 10, 0));
    m.sds(8, 1, 2, 20);
    m.sds(7, 3, 4, 30);
    m.sds_report(7);
    m.sds_report(7);
    m.sds_report(8);
    m.sds_report(9);
    let s = m.snapshot(0, 0, 0);
    let seen: Vec<(u128, u64, u32)> =
        s.recent_sds.iter().map(|r| (r.uuid, r.at_ms, r.reports)).collect();
    assert_eq!(seen, vec![(7, 30, 2), (8, 20, 1), (7, 10, 0)]);
}

#[test]
fn the_snapshot_lists_each_active_call_once() {
    let mut m = Monitor::new();
    for i in 0..30u128 {
        m.call_started(i, "group", i as u32, 0, 0, 0);
    }
    m.call_ended(3, 1);
    let mut seen: Vec<u128> = m.snapshot(0, 0, 0).active_calls.iter().map(|c| c.uuid).collect();
    seen.sort();
    let wanted: Vec<u128> = (0..30).filter(|i| *i != 3).collect();
    assert_eq!(seen, wanted);
}
