use brew_server::monitor::{LiveData, LiveEvent};
use brew_server::telemetry::{
    anonymous_station, session_step, station_id, HealthLevel, HealthSnapshot, SdrHealth,
    SessionFrame, SessionStep, SysHealthInfo, TelemetryEvent, TelemetryState, TxQuality, TxVisual,
    F32, F64, TELEMETRY_SUBPROTOCOL,
};
use uuid::Uuid;

fn f(x: f32) -> F32 {
    F32 { bits: x.to_bits() }
}

fn group_call(call_id: u16) -> TelemetryEvent {
    TelemetryEvent::GroupCallStarted {
        call_id,
        gssi: 91,
        caller_issi: 1001,
        carrier_num: 7,
        ts: 2,
        priority: 3,
    }
}

fn private_call(call_id: u16) -> TelemetryEvent {
    TelemetryEvent::IndividualCallStarted {
        call_id,
        calling_issi: 1,
        called_issi: 2,
        simplex: true,
        carrier_num: 8,
        ts: 4,
        peer_carrier_num: None,
        peer_ts: None,
        priority: 5,
    }
}

fn sds_log(n: u32) -> TelemetryEvent {
    TelemetryEvent::SdsLog {
        direction: "in".to_string(),
        source_issi: n,
        dest_issi: 2,
        is_group: false,
        protocol_id: 130,
        text: format!("message {n}"),
    }
}

fn connected() -> TelemetryState {
    let mut t = TelemetryState::default();
    assert!(t.snapshot().is_empty());
    t.connect("bts1".to_string(), 100);
    t
}

fn told_of(event: Option<LiveEvent>, id: &str, at: u64) -> bool {
    match event {
        Some(LiveEvent { event, at_ms, data: LiveData::Station(name) }) => {
            event == "telemetry" && at_ms == at && name == id
        }
        _ => false,
    }
}

#[test]
fn the_subprotocol_is_that_of_telemetry() {
    assert_eq!(TELEMETRY_SUBPROTOCOL, "bluestation-telemetry-v2");
}

#[test]
fn registrations_are_counted() {
    let mut t = connected();
    for issi in [1, 2, 2, 3] {
        let told = t.handle_event("bts1", Some(TelemetryEvent::MsRegistration { issi }), 200);
        assert!(told_of(told, "bts1", 200));
    }
    assert_eq!(t.snapshot()[0].registration_count, 3);
    t.handle_event("bts1", Some(TelemetryEvent::MsDeregistration { issi: 1 }), 300);
    t.handle_event("bts1", Some(TelemetryEvent::MsTimeoutDrop { issi: 3 }), 400);
    t.handle_event("bts1", Some(TelemetryEvent::MsTimeoutDrop { issi: 9 }), 500);
    let b = &t.snapshot()[0];
    assert_eq!(b.registration_count, 1);
    assert!(b.registrations.contains(&2));
    assert_eq!((b.connected_at_ms, b.last_event_at_ms), (100, 500));
}

#[test]
fn calls_are_filed_under_their_numbers() {
    let mut t = connected();
    t.handle_event("bts1", Some(group_call(5)), 200);
    t.handle_event("bts1", Some(private_call(6)), 300);
    let b = &t.snapshot()[0];
    assert_eq!(b.active_calls.len(), 2);
    let g = b.active_calls[&5];
    assert!(g.is_group);
    assert_eq!((g.call_id, g.gssi_or_called, g.source_issi), (5, 91, 1001));
    assert_eq!((g.carrier_num, g.ts, g.priority, g.started_at_ms), (7, 2, 3, 200));
    let p = b.active_calls[&6];
    assert!(!p.is_group);
    assert_eq!((p.call_id, p.gssi_or_called, p.source_issi), (6, 2, 1));
    assert_eq!((p.carrier_num, p.ts, p.priority, p.started_at_ms), (8, 4, 5, 300));
    t.handle_event("bts1", Some(TelemetryEvent::GroupCallEnded { call_id: 5, gssi: 0 }), 400);
    t.handle_event("bts1", Some(TelemetryEvent::IndividualCallEnded { call_id: 6 }), 500);
    assert!(t.snapshot()[0].active_calls.is_empty());
}

#[test]
fn emergencies_last_until_cancelled() {
    let mut t = connected();
    let alarm = TelemetryEvent::EmergencyAlarm { source_issi: 4, dest_ssi: 5 };
    t.handle_event("bts1", Some(alarm), 200);
    assert!(t.snapshot()[0].emergencies.contains(&4));
    t.handle_event("bts1", Some(TelemetryEvent::EmergencyCancel { source_issi: 4 }), 300);
    assert!(t.snapshot()[0].emergencies.is_empty());
}

#[test]
fn the_newest_fifty_messages_are_published() {
    let mut t = connected();
    for n in 0..70u32 {
        t.handle_event("bts1", Some(sds_log(n)), n as u64);
    }
    let b = &t.snapshot()[0];
    assert_eq!(b.recent_sds_out.len(), 50);
    assert_eq!(b.recent_sds.len(), 50);
    for i in 0..50usize {
        assert_eq!(b.recent_sds_out[i].text, format!("message {}", 69 - i));
        assert_eq!(b.recent_sds_out[i].at_ms, 69 - i as u64);
    }
    assert_eq!(b.recent_sds_out[0].direction, "in");
    assert_eq!(b.recent_sds_out[0].protocol_id, 130);
}

#[test]
fn measurements_are_kept_without_waking_the_dashboard() {
    let mut t = connected();
    let quality = TxQuality {
        papr_db: f(1.5),
        evm_pct: f(2.5),
        dc_offset_i: f(0.0),
        dc_offset_q: f(0.0),
        iq_amplitude_imbalance_db: f(0.0),
        iq_phase_imbalance_deg: f(0.0),
        carrier_leakage_db: f(0.0),
        occupied_bandwidth_hz: f(25_000.0),
        evm_carrier: None,
    };
    let radio = SdrHealth {
        temperature_c: Some(f(41.5)),
        tx_gains: vec![("PAD".to_string(), f(10.0))],
        rx_gains: vec![],
    };
    let host = SysHealthInfo { total_power_w: Some(f(12.0)), sensors: vec![] };
    assert!(t.handle_event("bts1", Some(TelemetryEvent::TxQuality(quality)), 1).is_none());
    assert!(t.handle_event("bts1", Some(TelemetryEvent::SdrHealth(radio)), 2).is_none());
    assert!(t.handle_event("bts1", Some(TelemetryEvent::SysHealth(host)), 3).is_none());
    let rssi = TelemetryEvent::MsRssi { issi: 1, rssi_dbfs: f(-50.0) };
    assert!(t.handle_event("bts1", Some(rssi), 4).is_none());
    let voice = TelemetryEvent::TsVoiceActivity { carrier_num: 1, ts: 1, speaker_issi: None };
    assert!(t.handle_event("bts1", Some(voice), 5).is_none());
    let b = &t.snapshot()[0];
    assert_eq!(f32::from_bits(b.last_tx_quality.unwrap().evm_pct.bits), 2.5);
    let radio = b.last_sdr_health.as_ref().unwrap();
    assert_eq!(radio.tx_gains[0].0, "PAD");
    assert_eq!(f32::from_bits(radio.temperature_c.unwrap().bits), 41.5);
    let host = b.last_sys_health.as_ref().unwrap();
    assert_eq!(f32::from_bits(host.total_power_w.unwrap().bits), 12.0);
    assert_eq!(b.last_event_at_ms, 5);
    assert_eq!(b.registration_count, 0);
}

#[test]
fn health_and_backhaul_wake_the_dashboard() {
    let mut t = connected();
    let health = HealthSnapshot {
        overall: HealthLevel::Degraded,
        domains: vec![],
        last_action: Some("restart".to_string()),
        uptime_secs: 9,
    };
    let told = t.handle_event("bts1", Some(TelemetryEvent::HealthSnapshot(health)), 7);
    assert!(told_of(told, "bts1", 7));
    let backhaul = TelemetryEvent::BrewConnected { connected: false, server_version: 2 };
    assert!(told_of(t.handle_event("bts1", Some(backhaul), 8), "bts1", 8));
    let other = TelemetryEvent::SdsActivity { source_issi: 1, dest_issi: 2 };
    assert!(told_of(t.handle_event("bts1", Some(other), 9), "bts1", 9));
    let b = &t.snapshot()[0];
    let h = b.health.as_ref().unwrap();
    assert_eq!(h.overall, HealthLevel::Degraded);
    assert_eq!(h.last_action.as_deref(), Some("restart"));
    assert_eq!(b.backhaul_connected, Some(false));
    assert_eq!(b.last_event_at_ms, 9);
}

#[test]
fn strangers_and_broken_events_change_nothing() {
    let mut t = connected();
    assert!(t.handle_event("bts2", Some(group_call(1)), 200).is_none());
    assert!(t.handle_event("bts1", None, 200).is_none());
    let all = t.snapshot();
    assert_eq!(all.len(), 1);
    assert!(all[0].active_calls.is_empty());
    assert_eq!(all[0].last_event_at_ms, 100);
}

#[test]
fn a_station_that_reconnects_starts_afresh() {
    let mut t = connected();
    t.connect("bts2".to_string(), 150);
    t.handle_event("bts1", Some(group_call(1)), 200);
    t.handle_event("bts2", Some(group_call(2)), 200);
    let told = t.disconnect("bts1", 300);
    assert_eq!(told.event, "telemetry_disconnected");
    assert_eq!(told.at_ms, 300);
    assert!(matches!(told.data, LiveData::Station(ref id) if id == "bts1"));
    assert_eq!(t.snapshot().len(), 1);
    assert_eq!(t.snapshot()[0].id, "bts2");
    t.connect("bts1".to_string(), 400);
    t.connect("bts2".to_string(), 500);
    let mut all = t.snapshot();
    all.sort_by(|a, b| a.id.cmp(&b.id));
    assert_eq!(all.len(), 2);
    assert_eq!(all[0].connected_at_ms, 400);
    assert_eq!(all[1].connected_at_ms, 500);
    assert!(all.iter().all(|b| b.active_calls.is_empty()));
}

#[test]
fn frames_are_handled_by_their_kind() {
    assert_eq!(session_step(SessionFrame::Binary), SessionStep::Handle);
    assert_eq!(session_step(SessionFrame::Text), SessionStep::Reject);
    assert_eq!(session_step(SessionFrame::Ping), SessionStep::Skip);
    assert_eq!(session_step(SessionFrame::Pong), SessionStep::Skip);
    assert_eq!(session_step(SessionFrame::Close), SessionStep::Finish);
    assert_eq!(session_step(SessionFrame::Failure), SessionStep::Finish);
}

#[test]
fn stations_without_a_name_get_one() {
    let id = Uuid::from_u128(0x0123_4567_89ab_cdef_0011_2233_4455_6677);
    assert_eq!(anonymous_station(id.as_u128()), "telemetry-0123456789abcdef0011223344556677");
    assert_eq!(anonymous_station(id.as_u128()), format!("telemetry-{}", id.simple()));
    assert_eq!(station_id(Some("bts1".to_string())), "bts1");
    let a = station_id(None);
    let b = station_id(None);
    assert_ne!(a, b);
    let parsed = Uuid::parse_str(a.strip_prefix("telemetry-").unwrap()).unwrap();
    assert_eq!(parsed.get_version_num(), 4);
}

fn visual(rms: f32) -> TxVisual {
    TxVisual {
        sample_rate: f(72_000.0),
        center_freq_hz: F64 { bits: 438.025e6f64.to_bits() },
        rms_dbfs: f(rms),
        peak_dbfs: f(-1.0),
        spectrum_db_tenths: vec![-300, 5],
        constellation_iq: vec![1, -2, 3],
        carriers: vec![(7, F64 { bits: 0.5f64.to_bits() })],
        constellation_carrier: Some((7, F64 { bits: 0.25f64.to_bits() })),
    }
}

#[test]
fn the_last_signal_report_is_recorded_without_waking_the_dashboard() {
    let mut t = connected();
    assert!(t.snapshot()[0].last_tx_visual.is_none());
    for (n, rms) in [-20.0f32, -12.5].into_iter().enumerate() {
        let event = TelemetryEvent::TxVisual(visual(rms));
        assert!(t.handle_event("bts1", Some(event), 200 + n as u64).is_none());
    }
    let all = t.snapshot();
    let b = &all[0];
    assert_eq!(b.last_event_at_ms, 201);
    let v = b.last_tx_visual.as_ref().unwrap();
    assert_eq!(f32::from_bits(v.rms_dbfs.bits), -12.5);
    assert_eq!(f32::from_bits(v.sample_rate.bits), 72_000.0);
    assert_eq!(f32::from_bits(v.peak_dbfs.bits), -1.0);
    assert_eq!(f64::from_bits(v.center_freq_hz.bits), 438.025e6);
    assert_eq!(v.spectrum_db_tenths, vec![-300, 5]);
    assert_eq!(v.constellation_iq, vec![1, -2, 3]);
    assert_eq!(v.carriers.len(), 1);
    assert_eq!((v.carriers[0].0, f64::from_bits(v.carriers[0].1.bits)), (7, 0.5));
    let (carrier, offset) = v.constellation_carrier.unwrap();
    assert_eq!((carrier, f64::from_bits(offset.bits)), (7, 0.25));
    t.connect("bts1".to_string(), 300);
    assert!(t.snapshot()[0].last_tx_visual.is_none());
}
