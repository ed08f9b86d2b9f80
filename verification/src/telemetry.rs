//! FlowStation telemetry: the live picture of each base station that pushes
//! its state, and how each event changes it.
use crate::bytes::be_bytes;
use crate::collect::copy_set;
use crate::history::{remember, remembered};
use crate::ids::{random_uuid, simple_digits, uuid_simple, version_four, CallId};
use crate::monitor::{live_event, LiveData, LiveEvent};
use crate::text::{begins_with, hex_value, law_begins_with, law_hex_digits, lower_hex_digit};
use crate::text_map::TextMap;
use std::collections::{HashMap, HashSet, VecDeque};
use vstd::prelude::*;

verus! {

/// The subprotocol of a telemetry channel.
pub const TELEMETRY_SUBPROTOCOL: &'static str = "bluestation-telemetry-v2";

/// A single-precision measurement, held as its IEEE 754 bits.
#[derive(Debug, Clone, Copy)]
pub struct F32 {
    pub bits: u32,
}

/// A double-precision measurement, held as its IEEE 754 bits.
#[derive(Debug, Clone, Copy)]
pub struct F64 {
    pub bits: u64,
}

#[derive(Debug, Clone)]
pub struct MsGroupInfo {
    pub gssi: u32,
    pub mnemonic: Option<String>,
    pub attachment_mode: Option<u8>,
    pub is_dynamic: bool,
    pub is_attached: bool,
}

#[derive(Debug, Clone)]
pub struct DgnaStatusInfo {
    pub issi: u32,
    pub gssi: u32,
    pub attach: bool,
    pub accepted: bool,
    pub source: String,
    pub detail: String,
}

#[derive(Debug, Clone, Copy, PartialEq, Eq, Structural)]
pub enum HealthLevel {
    Okay,
    Degraded,
    Critical,
}

#[derive(Debug, Clone, Copy)]
pub enum HealthDomain {
    Service,
    Backhaul,
    Radios,
    Congestion,
}

#[derive(Debug)]
pub struct DomainHealth {
    pub domain: HealthDomain,
    pub level: HealthLevel,
    pub detail: String,
}

#[derive(Debug)]
pub struct HealthSnapshot {
    pub overall: HealthLevel,
    pub domains: Vec<DomainHealth>,
    pub last_action: Option<String>,
    pub uptime_secs: u64,
}

#[derive(Debug, Clone, Copy)]
pub enum SysSensorKind {
    Temperature,
    Voltage,
    Current,
    Power,
}

#[derive(Debug)]
pub struct SysSensor {
    pub name: String,
    pub kind: SysSensorKind,
    pub value: F32,
}

#[derive(Debug)]
pub struct TxVisual {
    pub sample_rate: F32,
    pub center_freq_hz: F64,
    pub rms_dbfs: F32,
    pub peak_dbfs: F32,
    pub spectrum_db_tenths: Vec<i16>,
    pub constellation_iq: Vec<i16>,
    pub carriers: Vec<(u16, F64)>,
    pub constellation_carrier: Option<(u16, F64)>,
}

#[derive(Debug, Clone, Copy)]
pub struct TxQuality {
    pub papr_db: F32,
    pub evm_pct: F32,
    pub dc_offset_i: F32,
    pub dc_offset_q: F32,
    pub iq_amplitude_imbalance_db: F32,
    pub iq_phase_imbalance_deg: F32,
    pub carrier_leakage_db: F32,
    pub occupied_bandwidth_hz: F32,
    pub evm_carrier: Option<(u16, F64)>,
}

#[derive(Debug)]
pub struct SdrHealth {
    pub temperature_c: Option<F32>,
    pub tx_gains: Vec<(String, F32)>,
    pub rx_gains: Vec<(String, F32)>,
}

#[derive(Debug)]
pub struct SysHealthInfo {
    pub total_power_w: Option<F32>,
    pub sensors: Vec<SysSensor>,
}

/// What a base station reports.
#[derive(Debug)]
pub enum TelemetryEvent {
    MsRegistration { issi: u32 },
    MsDeregistration { issi: u32 },
    MsTimeoutDrop { issi: u32 },
    MsGroupAttach { issi: u32, gssis: Vec<u32> },
    MsGroupDetach { issi: u32, gssis: Vec<u32> },
    MsGroupsSnapshot { issi: u32, gssis: Vec<u32> },
    MsGroupCatalogSnapshot { issi: u32, groups: Vec<MsGroupInfo> },
    MsRssi { issi: u32, rssi_dbfs: F32 },
    MsEnergySaving { issi: u32, mode: u8 },
    DgnaStatus(DgnaStatusInfo),
    GroupCallStarted {
        call_id: u16,
        gssi: u32,
        caller_issi: u32,
        carrier_num: u16,
        ts: u8,
        priority: u8,
    },
    GroupCallEnded { call_id: u16, gssi: u32 },
    IndividualCallStarted {
        call_id: u16,
        calling_issi: u32,
        called_issi: u32,
        simplex: bool,
        carrier_num: u16,
        ts: u8,
        peer_carrier_num: Option<u16>,
        peer_ts: Option<u8>,
        priority: u8,
    },
    IndividualCallEnded { call_id: u16 },
    CallSpeakerChanged {
        call_id: u16,
        is_group: bool,
        dest_addr: u32,
        speaker_issi: u32,
        carrier_num: u16,
        ts: u8,
    },
    TsVoiceActivity { carrier_num: u16, ts: u8, speaker_issi: Option<u32> },
    SdsActivity { source_issi: u32, dest_issi: u32 },
    SdsLog {
        direction: String,
        source_issi: u32,
        dest_issi: u32,
        is_group: bool,
        protocol_id: u8,
        text: String,
    },
    TxVisual(TxVisual),
    TxQuality(TxQuality),
    SdrHealth(SdrHealth),
    SysHealth(SysHealthInfo),
    HealthSnapshot(HealthSnapshot),
    EmergencyAlarm { source_issi: u32, dest_ssi: u32 },
    EmergencyCancel { source_issi: u32 },
    BrewConnected { connected: bool, server_version: u8 },
    DapnetLog {
        direction: String,
        id: String,
        callsign: String,
        recipient: String,
        text: String,
        priority: Option<u8>,
        paths: Vec<String>,
    },
}

/// A call that a base station has under way.
#[derive(Debug, Clone, Copy)]
pub struct TelemetryCall {
    pub call_id: u16,
    pub is_group: bool,
    pub gssi_or_called: u32,
    pub source_issi: u32,
    pub carrier_num: u16,
    pub ts: u8,
    pub priority: u8,
    pub started_at_ms: u64,
}

/// A short message that a base station logged.
#[derive(Debug)]
pub struct SdsLogEntry {
    pub at_ms: u64,
    pub direction: String,
    pub source_issi: u32,
    pub dest_issi: u32,
    pub is_group: bool,
    pub protocol_id: u8,
    pub text: String,
}

/// Live, in-memory picture of one connected FlowStation BTS derived from its
/// telemetry stream. Resets when the connection drops.
#[derive(Debug)]
pub struct TelemetryBts {
    pub id: String,
    pub connected_at_ms: u64,
    pub last_event_at_ms: u64,
    pub health: Option<HealthSnapshot>,
    pub backhaul_connected: Option<bool>,
    pub registrations: HashSet<u32>,
    pub registration_count: usize,
    pub active_calls: HashMap<u16, TelemetryCall>,
    pub emergencies: HashSet<u32>,
    pub last_tx_quality: Option<TxQuality>,
    pub last_tx_visual: Option<TxVisual>,
    pub last_sdr_health: Option<SdrHealth>,
    pub last_sys_health: Option<SysHealthInfo>,
    pub recent_sds: VecDeque<SdsLogEntry>,
    pub recent_sds_out: Vec<SdsLogEntry>,
}

/// The short messages that a station's picture keeps.
pub const SDS_LOG_LIMIT: usize = 50;

impl Clone for DomainHealth {
    fn clone(&self) -> (r: Self)
        ensures
            r == *self,
    {
        DomainHealth { domain: self.domain, level: self.level, detail: self.detail.clone() }
    }
}

impl Clone for SysSensor {
    fn clone(&self) -> (r: Self)
        ensures
            r == *self,
    {
        SysSensor { name: self.name.clone(), kind: self.kind, value: self.value }
    }
}

impl Clone for SdsLogEntry {
    fn clone(&self) -> (r: Self)
        ensures
            r == *self,
    {
        SdsLogEntry {
            at_ms: self.at_ms,
            direction: self.direction.clone(),
            source_issi: self.source_issi,
            dest_issi: self.dest_issi,
            is_group: self.is_group,
            protocol_id: self.protocol_id,
            text: self.text.clone(),
        }
    }
}

/// What a health report says.
pub struct HealthView {
    pub overall: HealthLevel,
    pub domains: Seq<DomainHealth>,
    pub last_action: Option<String>,
    pub uptime_secs: u64,
}

impl View for HealthSnapshot {
    type V = HealthView;

    open spec fn view(&self) -> HealthView {
        HealthView {
            overall: self.overall,
            domains: self.domains@,
            last_action: self.last_action,
            uptime_secs: self.uptime_secs,
        }
    }
}

impl Clone for HealthSnapshot {
    fn clone(&self) -> (r: Self)
        ensures
            r@ == self@,
    {
        let domains = self.domains.clone();
        assert(domains@ =~= self.domains@);
        HealthSnapshot {
            overall: self.overall,
            domains,
            last_action: match &self.last_action {
                Some(s) => Some(s.clone()),
                None => None,
            },
            uptime_secs: self.uptime_secs,
        }
    }
}

/// What a report on the transmitted signal says.
pub struct VisualView {
    pub sample_rate: F32,
    pub center_freq_hz: F64,
    pub rms_dbfs: F32,
    pub peak_dbfs: F32,
    pub spectrum_db_tenths: Seq<i16>,
    pub constellation_iq: Seq<i16>,
    pub carriers: Seq<(u16, F64)>,
    pub constellation_carrier: Option<(u16, F64)>,
}

impl View for TxVisual {
    type V = VisualView;

    open spec fn view(&self) -> VisualView {
        VisualView {
            sample_rate: self.sample_rate,
            center_freq_hz: self.center_freq_hz,
            rms_dbfs: self.rms_dbfs,
            peak_dbfs: self.peak_dbfs,
            spectrum_db_tenths: self.spectrum_db_tenths@,
            constellation_iq: self.constellation_iq@,
            carriers: self.carriers@,
            constellation_carrier: self.constellation_carrier,
        }
    }
}

/// Another list with the same items.
fn copy_list<T: Copy>(list: &Vec<T>) -> (r: Vec<T>)
    ensures
        r@ == list@,
{
    let n = list.len();
    let mut out: Vec<T> = Vec::with_capacity(n);
    let mut i: usize = 0;
    while i < n
        invariant
            0 <= i <= n == list@.len(),
            out@ == list@.take(i as int),
        decreases n - i,
    {
        out.push(list[i]);
        i += 1;
        assert(out@ =~= list@.take(i as int));
    }
    assert(list@.take(n as int) == list@);
    out
}

impl Clone for TxVisual {
    fn clone(&self) -> (r: Self)
        ensures
            r@ == self@,
    {
        TxVisual {
            sample_rate: self.sample_rate,
            center_freq_hz: self.center_freq_hz,
            rms_dbfs: self.rms_dbfs,
            peak_dbfs: self.peak_dbfs,
            spectrum_db_tenths: copy_list(&self.spectrum_db_tenths),
            constellation_iq: copy_list(&self.constellation_iq),
            carriers: copy_list(&self.carriers),
            constellation_carrier: self.constellation_carrier,
        }
    }
}

/// What a report on the radio says.
pub struct SdrView {
    pub temperature_c: Option<F32>,
    pub tx_gains: Seq<(String, F32)>,
    pub rx_gains: Seq<(String, F32)>,
}

impl View for SdrHealth {
    type V = SdrView;

    open spec fn view(&self) -> SdrView {
        SdrView {
            temperature_c: self.temperature_c,
            tx_gains: self.tx_gains@,
            rx_gains: self.rx_gains@,
        }
    }
}

fn copy_gains(gains: &Vec<(String, F32)>) -> (r: Vec<(String, F32)>)
    ensures
        r@ == gains@,
{
    let n = gains.len();
    let mut out: Vec<(String, F32)> = Vec::with_capacity(n);
    let mut i: usize = 0;
    while i < n
        invariant
            0 <= i <= n == gains@.len(),
            out@ == gains@.take(i as int),
        decreases n - i,
    {
        out.push((gains[i].0.clone(), gains[i].1));
        i += 1;
        assert(out@ =~= gains@.take(i as int));
    }
    assert(gains@.take(n as int) == gains@);
    out
}

impl Clone for SdrHealth {
    fn clone(&self) -> (r: Self)
        ensures
            r@ == self@,
    {
        SdrHealth {
            temperature_c: self.temperature_c,
            tx_gains: copy_gains(&self.tx_gains),
            rx_gains: copy_gains(&self.rx_gains),
        }
    }
}

/// What a report on the host says.
pub struct SysView {
    pub total_power_w: Option<F32>,
    pub sensors: Seq<SysSensor>,
}

impl View for SysHealthInfo {
    type V = SysView;

    open spec fn view(&self) -> SysView {
        SysView { total_power_w: self.total_power_w, sensors: self.sensors@ }
    }
}

impl Clone for SysHealthInfo {
    fn clone(&self) -> (r: Self)
        ensures
            r@ == self@,
    {
        let sensors = self.sensors.clone();
        assert(sensors@ =~= self.sensors@);
        SysHealthInfo { total_power_w: self.total_power_w, sensors }
    }
}

/// An optional report, with the report taken as mathematical values.
pub open spec fn health_of(h: Option<HealthSnapshot>) -> Option<HealthView> {
    match h {
        Some(h) => Some(h@),
        None => None,
    }
}

/// An optional report, with the report taken as mathematical values.
pub open spec fn visual_of(v: Option<TxVisual>) -> Option<VisualView> {
    match v {
        Some(v) => Some(v@),
        None => None,
    }
}

/// An optional report, with the report taken as mathematical values.
pub open spec fn sdr_of(h: Option<SdrHealth>) -> Option<SdrView> {
    match h {
        Some(h) => Some(h@),
        None => None,
    }
}

/// An optional report, with the report taken as mathematical values.
pub open spec fn sys_of(h: Option<SysHealthInfo>) -> Option<SysView> {
    match h {
        Some(h) => Some(h@),
        None => None,
    }
}

/// The picture of one station as mathematical values.
#[verifier::ext_equal]
pub struct BtsView {
    pub id: Seq<char>,
    pub connected_at_ms: u64,
    pub last_event_at_ms: u64,
    pub health: Option<HealthView>,
    pub backhaul_connected: Option<bool>,
    pub registrations: Set<u32>,
    pub registration_count: nat,
    pub active_calls: Map<u16, TelemetryCall>,
    pub emergencies: Set<u32>,
    pub last_tx_quality: Option<TxQuality>,
    pub last_tx_visual: Option<VisualView>,
    pub last_sdr_health: Option<SdrView>,
    pub last_sys_health: Option<SysView>,
    pub recent_sds: Seq<SdsLogEntry>,
    pub recent_sds_out: Seq<SdsLogEntry>,
}

impl View for TelemetryBts {
    type V = BtsView;

    open spec fn view(&self) -> BtsView {
        BtsView {
            id: self.id@,
            connected_at_ms: self.connected_at_ms,
            last_event_at_ms: self.last_event_at_ms,
            health: health_of(self.health),
            backhaul_connected: self.backhaul_connected,
            registrations: self.registrations@,
            registration_count: self.registration_count as nat,
            active_calls: self.active_calls@,
            emergencies: self.emergencies@,
            last_tx_quality: self.last_tx_quality,
            last_tx_visual: visual_of(self.last_tx_visual),
            last_sdr_health: sdr_of(self.last_sdr_health),
            last_sys_health: sys_of(self.last_sys_health),
            recent_sds: self.recent_sds@,
            recent_sds_out: self.recent_sds_out@,
        }
    }
}

/// The picture of a station from which nothing was heard yet.
pub open spec fn fresh_bts(id: Seq<char>, now_ms: u64) -> BtsView {
    BtsView {
        id,
        connected_at_ms: now_ms,
        last_event_at_ms: now_ms,
        health: None,
        backhaul_connected: None,
        registrations: Set::empty(),
        registration_count: 0,
        active_calls: Map::empty(),
        emergencies: Set::empty(),
        last_tx_quality: None,
        last_tx_visual: None,
        last_sdr_health: None,
        last_sys_health: None,
        recent_sds: Seq::empty(),
        recent_sds_out: Seq::empty(),
    }
}

impl BtsView {
    /// The count is that of the registrations, calls are filed under their
    /// numbers, and the published messages are the newest that are kept.
    pub open spec fn consistent(self) -> bool {
        &&& self.registrations.finite()
        &&& self.registration_count == self.registrations.len()
        &&& forall|k: u16| #[trigger]
            self.active_calls.contains_key(k) ==> self.active_calls[k].call_id == k
        &&& self.recent_sds_out == self.recent_sds
        &&& self.recent_sds.len() <= SDS_LOG_LIMIT
    }

    /// The picture with these registrations.
    pub open spec fn registered(self, registrations: Set<u32>) -> BtsView {
        BtsView { registrations, registration_count: registrations.len(), ..self }
    }

    /// The picture with one more logged message.
    pub open spec fn logged(self, entry: SdsLogEntry) -> BtsView {
        let kept = remembered(self.recent_sds, entry, SDS_LOG_LIMIT as nat);
        BtsView { recent_sds: kept, recent_sds_out: kept, ..self }
    }

    /// The picture after an event at `now_ms`.
    pub open spec fn after(self, event: TelemetryEvent, now_ms: u64) -> BtsView {
        let seen = BtsView { last_event_at_ms: now_ms, ..self };
        match event {
            TelemetryEvent::MsRegistration { issi } => seen.registered(
                self.registrations.insert(issi),
            ),
            TelemetryEvent::MsDeregistration { issi } => seen.registered(
                self.registrations.remove(issi),
            ),
            TelemetryEvent::MsTimeoutDrop { issi } => seen.registered(
                self.registrations.remove(issi),
            ),
            TelemetryEvent::GroupCallStarted {
                call_id,
                gssi,
                caller_issi,
                carrier_num,
                ts,
                priority,
            } => BtsView {
                active_calls: self.active_calls.insert(
                    call_id,
                    TelemetryCall {
                        call_id,
                        is_group: true,
                        gssi_or_called: gssi,
                        source_issi: caller_issi,
                        carrier_num,
                        ts,
                        priority,
                        started_at_ms: now_ms,
                    },
                ),
                ..seen
            },
            TelemetryEvent::GroupCallEnded { call_id, gssi } => BtsView {
                active_calls: self.active_calls.remove(call_id),
                ..seen
            },
            TelemetryEvent::IndividualCallStarted {
                call_id,
                calling_issi,
                called_issi,
                simplex,
                carrier_num,
                ts,
                peer_carrier_num,
                peer_ts,
                priority,
            } => BtsView {
                active_calls: self.active_calls.insert(
                    call_id,
                    TelemetryCall {
                        call_id,
                        is_group: false,
                        gssi_or_called: called_issi,
                        source_issi: calling_issi,
                        carrier_num,
                        ts,
                        priority,
                        started_at_ms: now_ms,
                    },
                ),
                ..seen
            },
            TelemetryEvent::IndividualCallEnded { call_id } => BtsView {
                active_calls: self.active_calls.remove(call_id),
                ..seen
            },
            TelemetryEvent::SdsLog {
                direction,
                source_issi,
                dest_issi,
                is_group,
                protocol_id,
                text,
            } => seen.logged(
                SdsLogEntry {
                    at_ms: now_ms,
                    direction,
                    source_issi,
                    dest_issi,
                    is_group,
                    protocol_id,
                    text,
                },
            ),
            TelemetryEvent::TxQuality(q) => BtsView { last_tx_quality: Some(q), ..seen },
            TelemetryEvent::TxVisual(v) => BtsView { last_tx_visual: Some(v@), ..seen },
            TelemetryEvent::SdrHealth(h) => BtsView { last_sdr_health: Some(h@), ..seen },
            TelemetryEvent::SysHealth(h) => BtsView { last_sys_health: Some(h@), ..seen },
            TelemetryEvent::HealthSnapshot(h) => BtsView { health: Some(h@), ..seen },
            TelemetryEvent::EmergencyAlarm { source_issi, dest_ssi } => BtsView {
                emergencies: self.emergencies.insert(source_issi),
                ..seen
            },
            TelemetryEvent::EmergencyCancel { source_issi } => BtsView {
                emergencies: self.emergencies.remove(source_issi),
                ..seen
            },
            TelemetryEvent::BrewConnected { connected, server_version } => BtsView {
                backhaul_connected: Some(connected),
                ..seen
            },
            _ => seen,
        }
    }
}

/// The events that wake the live dashboard: all but the high-rate measurements.
pub open spec fn wakes_dashboard(event: TelemetryEvent) -> bool {
    !(event is TxVisual || event is TxQuality || event is SdrHealth || event is SysHealth
        || event is MsRssi || event is TsVoiceActivity)
}

impl TelemetryBts {
    /// The picture of a station that has just connected.
    pub fn new(id: String, now_ms: u64) -> (r: Self)
        ensures
            r@ == fresh_bts(id@, now_ms),
            r@.consistent(),
    {
        let r = TelemetryBts {
            id,
            connected_at_ms: now_ms,
            last_event_at_ms: now_ms,
            health: None,
            backhaul_connected: None,
            registrations: HashSet::new(),
            registration_count: 0,
            active_calls: HashMap::new(),
            emergencies: HashSet::new(),
            last_tx_quality: None,
            last_tx_visual: None,
            last_sdr_health: None,
            last_sys_health: None,
            recent_sds: VecDeque::new(),
            recent_sds_out: Vec::new(),
        };
        assert(r@ =~= fresh_bts(id@, now_ms));
        r
    }

    /// Logs a short message and publishes the newest ones.
    pub fn push_sds(&mut self, entry: SdsLogEntry)
        ensures
            final(self)@ == old(self)@.logged(entry),
    {
        remember(&mut self.recent_sds, entry, SDS_LOG_LIMIT);
        let n = self.recent_sds.len();
        let mut out: Vec<SdsLogEntry> = Vec::with_capacity(n);
        let mut i: usize = 0;
        while i < n
            invariant
                0 <= i <= n == self.recent_sds@.len(),
                out@ == self.recent_sds@.take(i as int),
            decreases n - i,
        {
            out.push(self.recent_sds[i].clone());
            i += 1;
            assert(out@ =~= self.recent_sds@.take(i as int));
        }
        assert(self.recent_sds@.take(n as int) == self.recent_sds@);
        self.recent_sds_out = out;
        assert(self@ =~= old(self)@.logged(entry));
    }

    /// Brings the picture up to date with an event, and tells whether the
    /// event wakes the live dashboard.
    pub fn apply(&mut self, event: TelemetryEvent, now_ms: u64) -> (notify: bool)
        ensures
            final(self)@ == old(self)@.after(event, now_ms),
            notify == wakes_dashboard(event),
    {
        self.last_event_at_ms = now_ms;
        let notify = match &event {
            TelemetryEvent::TxVisual(_) => false,
            TelemetryEvent::TxQuality(_) => false,
            TelemetryEvent::SdrHealth(_) => false,
            TelemetryEvent::SysHealth(_) => false,
            TelemetryEvent::MsRssi { .. } => false,
            TelemetryEvent::TsVoiceActivity { .. } => false,
            _ => true,
        };
        match event {
            TelemetryEvent::MsRegistration { issi } => {
                self.registrations.insert(issi);
                self.registration_count = self.registrations.len();
            },
            TelemetryEvent::MsDeregistration { issi } => {
                self.registrations.remove(&issi);
                self.registration_count = self.registrations.len();
            },
            TelemetryEvent::MsTimeoutDrop { issi } => {
                self.registrations.remove(&issi);
                self.registration_count = self.registrations.len();
            },
            TelemetryEvent::GroupCallStarted {
                call_id,
                gssi,
                caller_issi,
                carrier_num,
                ts,
                priority,
            } => {
                self.active_calls.insert(
                    call_id,
                    TelemetryCall {
                        call_id,
                        is_group: true,
                        gssi_or_called: gssi,
                        source_issi: caller_issi,
                        carrier_num,
                        ts,
                        priority,
                        started_at_ms: now_ms,
                    },
                );
            },
            TelemetryEvent::GroupCallEnded { call_id, .. } => {
                self.active_calls.remove(&call_id);
            },
            TelemetryEvent::IndividualCallStarted {
                call_id,
                calling_issi,
                called_issi,
                carrier_num,
                ts,
                priority,
                ..
            } => {
                self.active_calls.insert(
                    call_id,
                    TelemetryCall {
                        call_id,
                        is_group: false,
                        gssi_or_called: called_issi,
                        source_issi: calling_issi,
                        carrier_num,
                        ts,
                        priority,
                        started_at_ms: now_ms,
                    },
                );
            },
            TelemetryEvent::IndividualCallEnded { call_id } => {
                self.active_calls.remove(&call_id);
            },
            TelemetryEvent::SdsLog {
                direction,
                source_issi,
                dest_issi,
                is_group,
                protocol_id,
                text,
            } => {
                self.push_sds(
                    SdsLogEntry {
                        at_ms: now_ms,
                        direction,
                        source_issi,
                        dest_issi,
                        is_group,
                        protocol_id,
                        text,
                    },
                );
            },
            TelemetryEvent::TxQuality(q) => {
                self.last_tx_quality = Some(q);
            },
            TelemetryEvent::TxVisual(v) => {
                self.last_tx_visual = Some(v);
            },
            TelemetryEvent::SdrHealth(h) => {
                self.last_sdr_health = Some(h);
            },
            TelemetryEvent::SysHealth(h) => {
                self.last_sys_health = Some(h);
            },
            TelemetryEvent::HealthSnapshot(h) => {
                self.health = Some(h);
            },
            TelemetryEvent::EmergencyAlarm { source_issi, .. } => {
                self.emergencies.insert(source_issi);
            },
            TelemetryEvent::EmergencyCancel { source_issi } => {
                self.emergencies.remove(&source_issi);
            },
            TelemetryEvent::BrewConnected { connected, .. } => {
                self.backhaul_connected = Some(connected);
            },
            _ => {},
        }
        assert(self@ =~= old(self)@.after(event, now_ms));
        notify
    }
}

impl Clone for TelemetryBts {
    fn clone(&self) -> (r: Self)
        ensures
            r@ == self@,
    {
        let health = match &self.health {
            Some(h) => Some(h.clone()),
            None => None,
        };
        let last_tx_visual = match &self.last_tx_visual {
            Some(v) => Some(v.clone()),
            None => None,
        };
        let last_sdr_health = match &self.last_sdr_health {
            Some(h) => Some(h.clone()),
            None => None,
        };
        let last_sys_health = match &self.last_sys_health {
            Some(h) => Some(h.clone()),
            None => None,
        };
        let recent_sds = self.recent_sds.clone();
        assert(recent_sds@ =~= self.recent_sds@);
        let recent_sds_out = self.recent_sds_out.clone();
        assert(recent_sds_out@ =~= self.recent_sds_out@);
        let r = TelemetryBts {
            id: self.id.clone(),
            connected_at_ms: self.connected_at_ms,
            last_event_at_ms: self.last_event_at_ms,
            health,
            backhaul_connected: self.backhaul_connected,
            registrations: copy_set(&self.registrations),
            registration_count: self.registration_count,
            active_calls: self.active_calls.clone(),
            emergencies: copy_set(&self.emergencies),
            last_tx_quality: self.last_tx_quality,
            last_tx_visual,
            last_sdr_health,
            last_sys_health,
            recent_sds,
            recent_sds_out,
        };
        assert(r@ =~= self@);
        r
    }
}

/// The stations that are connected, by their names.
pub struct TelemetryState {
    pub stations: TextMap<TelemetryBts>,
}

impl View for TelemetryState {
    type V = Map<Seq<char>, BtsView>;

    open spec fn view(&self) -> Map<Seq<char>, BtsView> {
        self.stations@.map_values(|b: TelemetryBts| b@)
    }
}

impl Default for TelemetryState {
    fn default() -> (r: Self)
        ensures
            r@ == Map::<Seq<char>, BtsView>::empty(),
            r.consistent(),
    {
        let r = TelemetryState { stations: TextMap::new() };
        assert(r@ =~= Map::<Seq<char>, BtsView>::empty());
        r
    }
}

impl TelemetryState {
    /// Every picture is consistent and filed under its station's name.
    pub open spec fn consistent(self) -> bool {
        forall|id: Seq<char>| #[trigger]
            self@.contains_key(id) ==> self@[id].consistent() && self@[id].id == id
    }

    /// The pictures of all stations, each once, in no particular order.
    pub fn snapshot(&self) -> (r: Vec<TelemetryBts>)
        requires
            self.consistent(),
        ensures
            shows_stations(r@, self@),
    {
        let n = self.stations.len();
        let ghost keys = self.stations.keys();
        let mut out: Vec<TelemetryBts> = Vec::with_capacity(n);
        let mut i: usize = 0;
        while i < n
            invariant
                0 <= i <= n == keys.len(),
                keys == self.stations.keys(),
                keys.no_duplicates(),
                self.consistent(),
                forall|key: Seq<char>| self.stations@.contains_key(key) <==> keys.contains(key),
                out@.len() == i,
                forall|k: int|
                    #![trigger out@[k]]
                    0 <= k < i ==> out@[k].id@ == keys[k] && self@.contains_key(keys[k])
                        && self@[keys[k]] == out@[k]@,
            decreases n - i,
        {
            let entry = self.stations.entry_at(i);
            let copy = entry.1.clone();
            proof {
                assert(self@.contains_key(keys[i as int]));
                assert(self@[keys[i as int]] == entry.1@);
                assert(copy@.id == keys[i as int]);
            }
            out.push(copy);
            i += 1;
        }
        proof {
            assert forall|id: Seq<char>| #[trigger] self@.contains_key(id) implies exists|i: int|
                0 <= i < out@.len() && (#[trigger] out@[i]).id@ == id by {
                assert(self.stations@.contains_key(id));
                assert(keys.contains(id));
                let k = choose|k: int| 0 <= k < keys.len() && keys[k] == id;
                assert(out@[k].id@ == id);
            }
        }
        out
    }

    /// Opens a fresh picture for a station that connects.
    pub fn connect(&mut self, id: String, now_ms: u64)
        ensures
            final(self)@ == old(self)@.insert(id@, fresh_bts(id@, now_ms)),
            old(self).consistent() ==> final(self).consistent(),
    {
        let name = id.clone();
        self.stations.insert(name, TelemetryBts::new(id, now_ms));
        assert(self@ =~= old(self)@.insert(id@, fresh_bts(id@, now_ms)));
    }

    /// Drops the picture of a station that disconnects, and tells the live
    /// dashboard.
    pub fn disconnect(&mut self, id: &str, now_ms: u64) -> (r: LiveEvent)
        ensures
            final(self)@ == old(self)@.remove(id@),
            old(self).consistent() ==> final(self).consistent(),
            tells_of_station(r, "telemetry_disconnected"@, id@, now_ms),
    {
        self.stations.remove(id);
        assert(self@ =~= old(self)@.remove(id@));
        live_event("telemetry_disconnected", LiveData::Station(id.to_owned()), now_ms)
    }

    /// Brings a station's picture up to date with an event, and tells the live
    /// dashboard where the event wakes it. What could not be read as an event,
    /// and an event of a station that is not connected, change nothing and
    /// wake nobody.
    pub fn handle_event(&mut self, id: &str, event: Option<TelemetryEvent>, now_ms: u64) -> (r:
        Option<LiveEvent>)
        ensures
            final(self)@ == stations_after(old(self)@, id@, event, now_ms),
            r is Some <==> old(self)@.contains_key(id@) && (event matches Some(e)
                && wakes_dashboard(e)),
            r matches Some(told) ==> tells_of_station(told, "telemetry"@, id@, now_ms),
            old(self).consistent() ==> final(self).consistent(),
    {
        let event = match event {
            Some(event) => event,
            None => {
                return None;
            },
        };
        match self.stations.remove(id) {
            Some(mut bts) => {
                let ghost before = bts@;
                let notify = bts.apply(event, now_ms);
                self.stations.insert(id.to_owned(), bts);
                proof {
                    assert(self@ =~= old(self)@.insert(id@, before.after(event, now_ms)));
                    if old(self).consistent() {
                        assert(old(self)@.contains_key(id@));
                        law_event_keeps_consistent(before, event, now_ms);
                    }
                }
                if notify {
                    Some(live_event("telemetry", LiveData::Station(id.to_owned()), now_ms))
                } else {
                    None
                }
            },
            None => {
                assert(self@ =~= old(self)@);
                None
            },
        }
    }
}

/// The list holds the pictures of all stations, each once.
pub open spec fn shows_stations(
    list: Seq<TelemetryBts>,
    stations: Map<Seq<char>, BtsView>,
) -> bool {
    &&& forall|i: int|
        #![trigger list[i]]
        0 <= i < list.len() ==> stations.contains_key(list[i].id@) && stations[list[i].id@]
            == list[i]@
    &&& forall|i: int, j: int| 0 <= i < j < list.len() ==> list[i].id@ != list[j].id@
    &&& forall|id: Seq<char>| #[trigger]
        stations.contains_key(id) ==> exists|i: int|
            0 <= i < list.len() && (#[trigger] list[i]).id@ == id
}

/// An event of the live dashboard that tells of a station.
pub open spec fn tells_of_station(
    told: LiveEvent,
    event: Seq<char>,
    id: Seq<char>,
    now_ms: u64,
) -> bool {
    &&& told.event@ == event
    &&& told.at_ms == now_ms
    &&& told.data matches LiveData::Station(name) && name@ == id
}

/// The stations after what a station sent.
pub open spec fn stations_after(
    stations: Map<Seq<char>, BtsView>,
    id: Seq<char>,
    event: Option<TelemetryEvent>,
    now_ms: u64,
) -> Map<Seq<char>, BtsView> {
    match event {
        Some(e) if stations.contains_key(id) => stations.insert(id, stations[id].after(e, now_ms)),
        _ => stations,
    }
}

/// No event breaks the consistency of a station's picture, nor changes its
/// name or the time of its connection.
pub proof fn law_event_keeps_consistent(b: BtsView, event: TelemetryEvent, now_ms: u64)
    requires
        b.consistent(),
    ensures
        b.after(event, now_ms).consistent(),
        b.after(event, now_ms).id == b.id,
        b.after(event, now_ms).connected_at_ms == b.connected_at_ms,
        b.after(event, now_ms).last_event_at_ms == now_ms,
{
}

/// The number of the call that an event starts.
pub open spec fn starts_call(event: TelemetryEvent) -> Option<u16> {
    match event {
        TelemetryEvent::GroupCallStarted { call_id, .. } => Some(call_id),
        TelemetryEvent::IndividualCallStarted { call_id, .. } => Some(call_id),
        _ => None,
    }
}

/// The number of the call that an event ends.
pub open spec fn ends_call(event: TelemetryEvent) -> Option<u16> {
    match event {
        TelemetryEvent::GroupCallEnded { call_id, .. } => Some(call_id),
        TelemetryEvent::IndividualCallEnded { call_id } => Some(call_id),
        _ => None,
    }
}

/// The high-rate events that do not wake the dashboard change nothing but the
/// measurements and the time of the last event.
pub proof fn law_quiet_events_only_measure(b: BtsView, event: TelemetryEvent, now_ms: u64)
    requires
        !wakes_dashboard(event),
    ensures
        b.after(event, now_ms) == (BtsView {
            last_event_at_ms: now_ms,
            last_tx_quality: b.after(event, now_ms).last_tx_quality,
            last_tx_visual: b.after(event, now_ms).last_tx_visual,
            last_sdr_health: b.after(event, now_ms).last_sdr_health,
            last_sys_health: b.after(event, now_ms).last_sys_health,
            ..b
        }),
{
}

/// The high-rate reports on signal, radio and host are recorded, though they
/// wake nobody: the last of each is kept.
pub proof fn law_measurements_are_recorded(b: BtsView, event: TelemetryEvent, now_ms: u64)
    ensures
        event matches TelemetryEvent::TxVisual(v) ==> b.after(event, now_ms).last_tx_visual == Some(
            v@,
        ) && !wakes_dashboard(event),
        event matches TelemetryEvent::TxQuality(q) ==> b.after(event, now_ms).last_tx_quality
            == Some(q) && !wakes_dashboard(event),
        event matches TelemetryEvent::SdrHealth(h) ==> b.after(event, now_ms).last_sdr_health
            == Some(h@) && !wakes_dashboard(event),
        event matches TelemetryEvent::SysHealth(h) ==> b.after(event, now_ms).last_sys_health
            == Some(h@) && !wakes_dashboard(event),
{
}

/// A call is under way from its start on, and no longer after its end; other
/// calls are not touched.
pub proof fn law_call_starts_and_ends(
    b: BtsView,
    start: TelemetryEvent,
    end: TelemetryEvent,
    call_id: u16,
    start_ms: u64,
    end_ms: u64,
)
    requires
        starts_call(start) == Some(call_id),
        ends_call(end) == Some(call_id),
    ensures
        b.after(start, start_ms).active_calls.contains_key(call_id),
        b.after(start, start_ms).active_calls[call_id].started_at_ms == start_ms,
        b.after(start, start_ms).active_calls.remove(call_id) == b.active_calls.remove(call_id),
        b.after(start, start_ms).after(end, end_ms).active_calls == b.active_calls.remove(call_id),
{
    assert(b.after(start, start_ms).active_calls.remove(call_id) =~= b.active_calls.remove(
        call_id,
    ));
}

/// An emergency lasts from its alarm until it is cancelled.
pub proof fn law_emergency_lasts_until_cancelled(
    b: BtsView,
    source_issi: u32,
    dest_ssi: u32,
    alarm_ms: u64,
    cancel_ms: u64,
)
    ensures
        ({
            let alarmed = b.after(
                TelemetryEvent::EmergencyAlarm { source_issi, dest_ssi },
                alarm_ms,
            );
            let calm = alarmed.after(TelemetryEvent::EmergencyCancel { source_issi }, cancel_ms);
            &&& alarmed.emergencies.contains(source_issi)
            &&& calm.emergencies == b.emergencies.remove(source_issi)
        }),
{
    assert(b.emergencies.insert(source_issi).remove(source_issi) =~= b.emergencies.remove(
        source_issi,
    ));
}

/// A radio counts once however often it registers, and no longer once it
/// deregisters or times out.
pub proof fn law_registration_counts_once(
    b: BtsView,
    issi: u32,
    timed_out: bool,
    first_ms: u64,
    again_ms: u64,
    end_ms: u64,
)
    requires
        b.consistent(),
    ensures
        ({
            let enter = TelemetryEvent::MsRegistration { issi };
            let leave = if timed_out {
                TelemetryEvent::MsTimeoutDrop { issi }
            } else {
                TelemetryEvent::MsDeregistration { issi }
            };
            let once = b.after(enter, first_ms);
            let twice = once.after(enter, again_ms);
            &&& once.registration_count == b.registration_count + if b.registrations.contains(
                issi,
            ) {
                0int
            } else {
                1int
            }
            &&& twice.registration_count == once.registration_count
            &&& twice.registrations == once.registrations
            &&& twice.after(leave, end_ms).registrations == b.registrations.remove(issi)
        }),
{
    assert(b.registrations.insert(issi).insert(issi) =~= b.registrations.insert(issi));
    assert(b.registrations.insert(issi).remove(issi) =~= b.registrations.remove(issi));
}

/// A logged message is published first, with its sender, its receiver and all
/// else that was logged of it, and older ones stay in their order as far as
/// there is room.
pub proof fn law_newest_message_first(b: BtsView, event: TelemetryEvent, now_ms: u64)
    requires
        b.consistent(),
        event is SdsLog,
    ensures
        ({
            let out = b.after(event, now_ms).recent_sds_out;
            &&& out.len() == if b.recent_sds.len() < 50 {
                b.recent_sds.len() + 1
            } else {
                50
            }
            &&& out[0].at_ms == now_ms
            &&& out[0].direction == event->SdsLog_direction
            &&& out[0].source_issi == event->SdsLog_source_issi
            &&& out[0].dest_issi == event->SdsLog_dest_issi
            &&& out[0].is_group == event->SdsLog_is_group
            &&& out[0].protocol_id == event->SdsLog_protocol_id
            &&& out[0].text == event->SdsLog_text
            &&& forall|i: int| 1 <= i < out.len() ==> #[trigger] out[i] == b.recent_sds[i - 1]
            &&& b.after(event, now_ms).recent_sds == out
        }),
{
}

/// Any event but a logged message leaves the messages as they are.
pub proof fn law_messages_kept(b: BtsView, event: TelemetryEvent, now_ms: u64)
    requires
        event !is SdsLog,
    ensures
        b.after(event, now_ms).recent_sds == b.recent_sds,
        b.after(event, now_ms).recent_sds_out == b.recent_sds_out,
{
}

/// A radio is registered exactly where its registration is the event, or it
/// was before and the event is not its leaving; the count is theirs.
pub proof fn law_registrations(b: BtsView, event: TelemetryEvent, now_ms: u64, radio: u32)
    requires
        b.consistent(),
    ensures
        b.after(event, now_ms).registrations.contains(radio) <==> {
            ||| event matches TelemetryEvent::MsRegistration { issi } && issi == radio
            ||| b.registrations.contains(radio) && !(
            event matches TelemetryEvent::MsDeregistration { issi } && issi == radio) && !(
            event matches TelemetryEvent::MsTimeoutDrop { issi } && issi == radio)
        },
        b.after(event, now_ms).registration_count == b.after(event, now_ms).registrations.len(),
{
}

/// A radio is in an emergency exactly where its alarm is the event, or it was
/// before and the event is not its cancelling.
pub proof fn law_emergencies(b: BtsView, event: TelemetryEvent, now_ms: u64, radio: u32)
    ensures
        b.after(event, now_ms).emergencies.contains(radio) <==> {
            ||| event matches TelemetryEvent::EmergencyAlarm { source_issi, .. } && source_issi
                == radio
            ||| b.emergencies.contains(radio) && !(
            event matches TelemetryEvent::EmergencyCancel { source_issi } && source_issi == radio)
        },
{
}

/// The event is about the start of the call with this number.
pub open spec fn begins_call(event: TelemetryEvent, number: u16) -> bool {
    ||| event matches TelemetryEvent::GroupCallStarted { call_id, .. } && call_id == number
    ||| event matches TelemetryEvent::IndividualCallStarted { call_id, .. } && call_id == number
}

/// The event is about the end of the call with this number.
pub open spec fn finishes_call(event: TelemetryEvent, number: u16) -> bool {
    ||| event matches TelemetryEvent::GroupCallEnded { call_id, .. } && call_id == number
    ||| event matches TelemetryEvent::IndividualCallEnded { call_id } && call_id == number
}

/// A call is under way exactly where the event starts it, or it was before
/// and the event does not end it. A call that starts is shown with what its
/// event tells, any other as it was.
pub proof fn law_calls(b: BtsView, event: TelemetryEvent, now_ms: u64, number: u16)
    ensures
        ({
            let calls = b.after(event, now_ms).active_calls;
            &&& calls.contains_key(number) <==> begins_call(event, number)
                || b.active_calls.contains_key(number) && !finishes_call(event, number)
            &&& calls.contains_key(number) && !begins_call(event, number) ==> calls[number]
                == b.active_calls[number]
            &&& event matches TelemetryEvent::GroupCallStarted {
                call_id,
                gssi,
                caller_issi,
                carrier_num,
                ts,
                priority,
            } ==> {
                &&& calls[call_id].call_id == call_id
                &&& calls[call_id].is_group
                &&& calls[call_id].gssi_or_called == gssi
                &&& calls[call_id].source_issi == caller_issi
                &&& calls[call_id].carrier_num == carrier_num
                &&& calls[call_id].ts == ts
                &&& calls[call_id].priority == priority
                &&& calls[call_id].started_at_ms == now_ms
            }
            &&& event matches TelemetryEvent::IndividualCallStarted {
                call_id,
                calling_issi,
                called_issi,
                simplex,
                carrier_num,
                ts,
                peer_carrier_num,
                peer_ts,
                priority,
            } ==> {
                &&& calls[call_id].call_id == call_id
                &&& !calls[call_id].is_group
                &&& calls[call_id].gssi_or_called == called_issi
                &&& calls[call_id].source_issi == calling_issi
                &&& calls[call_id].carrier_num == carrier_num
                &&& calls[call_id].ts == ts
                &&& calls[call_id].priority == priority
                &&& calls[call_id].started_at_ms == now_ms
            }
        }),
{
}

/// The last report of each sort is kept until the next of that sort, and so is
/// the state of the backhaul; the name and the time of the connection never
/// change, and the time of the last event is that of this one.
pub proof fn law_reports(b: BtsView, event: TelemetryEvent, now_ms: u64)
    ensures
        ({
            let n = b.after(event, now_ms);
            &&& n.id == b.id
            &&& n.connected_at_ms == b.connected_at_ms
            &&& n.last_event_at_ms == now_ms
            &&& event matches TelemetryEvent::HealthSnapshot(h) ==> n.health == Some(h@)
            &&& event !is HealthSnapshot ==> n.health == b.health
            &&& event matches TelemetryEvent::BrewConnected { connected, .. }
                ==> n.backhaul_connected == Some(connected)
            &&& event !is BrewConnected ==> n.backhaul_connected == b.backhaul_connected
            &&& event matches TelemetryEvent::TxQuality(q) ==> n.last_tx_quality == Some(q)
            &&& event !is TxQuality ==> n.last_tx_quality == b.last_tx_quality
            &&& event matches TelemetryEvent::TxVisual(v) ==> n.last_tx_visual == Some(v@)
            &&& event !is TxVisual ==> n.last_tx_visual == b.last_tx_visual
            &&& event matches TelemetryEvent::SdrHealth(h) ==> n.last_sdr_health == Some(h@)
            &&& event !is SdrHealth ==> n.last_sdr_health == b.last_sdr_health
            &&& event matches TelemetryEvent::SysHealth(h) ==> n.last_sys_health == Some(h@)
            &&& event !is SysHealth ==> n.last_sys_health == b.last_sys_health
        }),
{
}

/// Radios coming and going, calls, messages, emergencies, health, the backhaul
/// and all else that is no high-rate measurement wake the dashboard; the six
/// sorts of measurements do not.
pub proof fn law_what_wakes(event: TelemetryEvent)
    ensures
        event is MsRegistration || event is MsDeregistration || event is MsTimeoutDrop || event
            is MsGroupAttach || event is MsGroupDetach || event is MsGroupsSnapshot || event
            is MsGroupCatalogSnapshot || event is MsEnergySaving || event is DgnaStatus || event
            is GroupCallStarted || event is GroupCallEnded || event is IndividualCallStarted
            || event is IndividualCallEnded || event is CallSpeakerChanged || event is SdsActivity
            || event is SdsLog || event is HealthSnapshot || event is EmergencyAlarm || event
            is EmergencyCancel || event is BrewConnected || event is DapnetLog ==> wakes_dashboard(
            event,
        ),
        event is TxVisual || event is TxQuality || event is SdrHealth || event is SysHealth
            || event is MsRssi || event is TsVoiceActivity ==> !wakes_dashboard(event),
{
}

/// What a station sends changes the picture of that station alone, and only
/// where it is connected and what it sent is an event.
pub proof fn law_stations_after(
    stations: Map<Seq<char>, BtsView>,
    id: Seq<char>,
    event: Option<TelemetryEvent>,
    now_ms: u64,
    other: Seq<char>,
)
    ensures
        ({
            let n = stations_after(stations, id, event, now_ms);
            &&& n.contains_key(other) <==> stations.contains_key(other)
            &&& other != id && stations.contains_key(other) ==> n[other] == stations[other]
            &&& event is None ==> n == stations
            &&& !stations.contains_key(id) ==> n == stations
            &&& event matches Some(e) ==> stations.contains_key(id) ==> {
                &&& n[id] == stations[id].after(e, now_ms)
                &&& n[id].last_event_at_ms == now_ms
            }
        }),
{
}

/// A station that has just connected is shown with its name and the time, and
/// nothing else is known of it.
pub proof fn law_fresh_station(id: Seq<char>, now_ms: u64, radio: u32, number: u16)
    ensures
        ({
            let b = fresh_bts(id, now_ms);
            &&& b.id == id
            &&& b.connected_at_ms == now_ms
            &&& b.last_event_at_ms == now_ms
            &&& b.health is None
            &&& b.backhaul_connected is None
            &&& !b.registrations.contains(radio)
            &&& b.registration_count == 0
            &&& !b.active_calls.contains_key(number)
            &&& !b.emergencies.contains(radio)
            &&& b.last_tx_quality is None
            &&& b.last_tx_visual is None
            &&& b.last_sdr_health is None
            &&& b.last_sys_health is None
            &&& b.recent_sds.len() == 0
            &&& b.recent_sds_out.len() == 0
            &&& b.consistent()
        }),
{
}

/// A station is shown with all that its picture holds.
pub proof fn law_station_views(b: TelemetryBts)
    ensures
        b@.id == b.id@,
        b@.connected_at_ms == b.connected_at_ms,
        b@.last_event_at_ms == b.last_event_at_ms,
        b@.health is Some <==> b.health is Some,
        b.health matches Some(h) ==> b@.health == Some(h@),
        b@.backhaul_connected == b.backhaul_connected,
        b@.registrations == b.registrations@,
        b@.registration_count == b.registration_count,
        b@.active_calls == b.active_calls@,
        b@.emergencies == b.emergencies@,
        b@.last_tx_quality == b.last_tx_quality,
        b@.last_tx_visual is Some <==> b.last_tx_visual is Some,
        b.last_tx_visual matches Some(v) ==> b@.last_tx_visual == Some(v@),
        b@.last_sdr_health is Some <==> b.last_sdr_health is Some,
        b.last_sdr_health matches Some(h) ==> b@.last_sdr_health == Some(h@),
        b@.last_sys_health is Some <==> b.last_sys_health is Some,
        b.last_sys_health matches Some(h) ==> b@.last_sys_health == Some(h@),
        b@.recent_sds == b.recent_sds@,
        b@.recent_sds_out == b.recent_sds_out@,
{
}

/// Reports are shown with all that they hold.
pub proof fn law_report_views(
    h: HealthSnapshot,
    radio: SdrHealth,
    host: SysHealthInfo,
    v: TxVisual,
)
    ensures
        h@.overall == h.overall,
        h@.domains == h.domains@,
        h@.last_action == h.last_action,
        h@.uptime_secs == h.uptime_secs,
        radio@.temperature_c == radio.temperature_c,
        radio@.tx_gains == radio.tx_gains@,
        radio@.rx_gains == radio.rx_gains@,
        host@.total_power_w == host.total_power_w,
        host@.sensors == host.sensors@,
        v@.sample_rate == v.sample_rate,
        v@.center_freq_hz == v.center_freq_hz,
        v@.rms_dbfs == v.rms_dbfs,
        v@.peak_dbfs == v.peak_dbfs,
        v@.spectrum_db_tenths == v.spectrum_db_tenths@,
        v@.constellation_iq == v.constellation_iq@,
        v@.carriers == v.carriers@,
        v@.constellation_carrier == v.constellation_carrier,
{
}

/// The stations are shown by their names, and no others.
pub proof fn law_state_views(t: TelemetryState, id: Seq<char>)
    ensures
        t@.contains_key(id) <==> t.stations@.contains_key(id),
        t.stations@.contains_key(id) ==> t@[id] == t.stations@[id]@,
{
}

/// A list of all stations has each station exactly once, with its picture.
pub proof fn law_station_list(
    list: Seq<TelemetryBts>,
    stations: Map<Seq<char>, BtsView>,
    id: Seq<char>,
)
    requires
        shows_stations(list, stations),
    ensures
        stations.contains_key(id) <==> exists|i: int|
            0 <= i < list.len() && (#[trigger] list[i]).id@ == id,
        forall|i: int| 0 <= i < list.len() ==> stations[list[i].id@] == (#[trigger] list[i])@,
        forall|i: int, j: int|
            0 <= i < j < list.len() ==> (#[trigger] list[i]).id@ != (#[trigger] list[j]).id@,
{
}

/// An event of the dashboard about a station has the station's name, the name
/// of what happened and the time.
pub proof fn law_told_of_station(told: LiveEvent, event: Seq<char>, id: Seq<char>, now_ms: u64)
    requires
        tells_of_station(told, event, id, now_ms),
    ensures
        told.event@ == event,
        told.at_ms == now_ms,
        told.data is Station,
        told.data->Station_0@ == id,
{
}

/// The name of a station without one is a fixed front and the thirty-two
/// hexadecimal digits of its UUID, two for each byte from the first on.
pub proof fn law_anonymous_name(fresh: CallId, k: int)
    requires
        0 <= k < 16,
    ensures
        ({
            let name = anonymous_name(fresh);
            let byte = be_bytes(fresh as nat, 16)[k];
            &&& name.len() == 42
            &&& begins_with(name, "telemetry-"@)
            &&& hex_value(name[10 + 2 * k]) == byte / 16
            &&& hex_value(name[11 + 2 * k]) == byte % 16
            &&& !('A' <= name[10 + 2 * k] <= 'F')
            &&& !('A' <= name[11 + 2 * k] <= 'F')
        }),
{
    reveal_strlit("telemetry-");
    let byte = be_bytes(fresh as nat, 16)[k];
    law_begins_with("telemetry-"@, anonymous_name(fresh), simple_digits(fresh));
    assert((2 * k) / 2 == k && (2 * k + 1) / 2 == k);
    assert((2 * k) % 2 == 0 && (2 * k + 1) % 2 == 1);
    assert(simple_digits(fresh)[2 * k] == lower_hex_digit(byte as nat / 16));
    assert(simple_digits(fresh)[2 * k + 1] == lower_hex_digit(byte as nat % 16));
    law_hex_digits(byte as nat / 16);
    law_hex_digits(byte as nat % 16);
}

/// A station that connects again starts afresh, whatever was known of it, and
/// the others are not touched.
pub proof fn law_reconnect_resets(
    stations: Map<Seq<char>, BtsView>,
    id: Seq<char>,
    other: Seq<char>,
    now_ms: u64,
)
    requires
        other != id,
    ensures
        stations.insert(id, fresh_bts(id, now_ms))[id] == fresh_bts(id, now_ms),
        stations.remove(id).insert(id, fresh_bts(id, now_ms)) == stations.insert(
            id,
            fresh_bts(id, now_ms),
        ),
        stations.contains_key(other) <==> stations.insert(id, fresh_bts(id, now_ms)).contains_key(
            other,
        ),
        stations.contains_key(other) ==> stations.insert(id, fresh_bts(id, now_ms))[other]
            == stations[other],
{
    assert(stations.remove(id).insert(id, fresh_bts(id, now_ms)) =~= stations.insert(
        id,
        fresh_bts(id, now_ms),
    ));
}

/// The stations after all that a station sent, each at its time.
pub open spec fn stations_after_all(
    stations: Map<Seq<char>, BtsView>,
    id: Seq<char>,
    sent: Seq<(Option<TelemetryEvent>, u64)>,
) -> Map<Seq<char>, BtsView>
    decreases sent.len(),
{
    if sent.len() == 0 {
        stations
    } else {
        stations_after(
            stations_after_all(stations, id, sent.drop_last()),
            id,
            sent.last().0,
            sent.last().1,
        )
    }
}

/// Whatever a station sends between its connecting and its disconnecting, the
/// other stations are as they were, and of itself nothing is left.
pub proof fn law_session_leaves_no_trace(
    stations: Map<Seq<char>, BtsView>,
    id: Seq<char>,
    start_ms: u64,
    sent: Seq<(Option<TelemetryEvent>, u64)>,
)
    ensures
        stations_after_all(stations.insert(id, fresh_bts(id, start_ms)), id, sent).contains_key(id),
        stations_after_all(stations.insert(id, fresh_bts(id, start_ms)), id, sent).remove(id)
            == stations.remove(id),
    decreases sent.len(),
{
    let open = stations.insert(id, fresh_bts(id, start_ms));
    if sent.len() == 0 {
        assert(open.remove(id) =~= stations.remove(id));
    } else {
        law_session_leaves_no_trace(stations, id, start_ms, sent.drop_last());
        assert(stations_after_all(open, id, sent).remove(id) =~= stations_after_all(
            open,
            id,
            sent.drop_last(),
        ).remove(id));
    }
}

/// What arrives on a telemetry connection.
#[derive(Debug, Clone, Copy, PartialEq, Eq, Structural)]
pub enum SessionFrame {
    Binary,
    Text,
    Ping,
    Pong,
    Close,
    Failure,
}

/// What to do with what arrived.
#[derive(Debug, Clone, Copy, PartialEq, Eq, Structural)]
pub enum SessionStep {
    /// Read the frame as an event.
    Handle,
    /// Go on with the next frame.
    Skip,
    /// Go on with the next frame; this one has no place on the channel.
    Reject,
    /// Close the session.
    Finish,
}

/// Decides what to do with a frame: binary frames are events, text frames are
/// out of place, pings and pongs pass, a close or a failure ends the session.
pub fn session_step(frame: SessionFrame) -> (r: SessionStep)
    ensures
        r == (match frame {
            SessionFrame::Binary => SessionStep::Handle,
            SessionFrame::Text => SessionStep::Reject,
            SessionFrame::Ping => SessionStep::Skip,
            SessionFrame::Pong => SessionStep::Skip,
            SessionFrame::Close => SessionStep::Finish,
            SessionFrame::Failure => SessionStep::Finish,
        }),
{
    match frame {
        SessionFrame::Binary => SessionStep::Handle,
        SessionFrame::Text => SessionStep::Reject,
        SessionFrame::Ping => SessionStep::Skip,
        SessionFrame::Pong => SessionStep::Skip,
        SessionFrame::Close => SessionStep::Finish,
        SessionFrame::Failure => SessionStep::Finish,
    }
}

/// The name of a station that gave none and was given the UUID `fresh`.
pub open spec fn anonymous_name(fresh: CallId) -> Seq<char> {
    "telemetry-"@ + simple_digits(fresh)
}

/// Names a station that gave no name after the UUID `fresh`.
pub fn anonymous_station(fresh: CallId) -> (r: String)
    ensures
        r@ == anonymous_name(fresh),
{
    let mut name = "telemetry-".to_owned();
    name.append(uuid_simple(fresh).as_str());
    name
}

/// The name under which a station is filed: its identity, or a random name
/// where it has none.
pub fn station_id(identity: Option<String>) -> (r: String)
    ensures
        match identity {
            Some(name) => r@ == name@,
            None => exists|fresh: CallId| version_four(fresh) && r@ == #[trigger] anonymous_name(
                fresh,
            ),
        },
{
    match identity {
        Some(name) => name,
        None => anonymous_station(random_uuid()),
    }
}

} // verus!
