//! The dashboard's record of calls and short messages.
use crate::collect::map_keys;
use crate::history::{law_newest, law_remembered, newest, remember, remembered};
use crate::ids::CallId;
use std::collections::{HashMap, VecDeque};
use vstd::prelude::*;

verus! {

/// The ended calls and the short messages that are kept.
pub const HISTORY_LIMIT: usize = 200;

/// The ended calls and the short messages that a snapshot shows.
pub const SNAPSHOT_LIMIT: usize = 50;

/// A call that was seen.
#[derive(Debug)]
pub struct CallRecord {
    pub uuid: CallId,
    pub kind: String,
    pub source: u32,
    pub destination: u32,
    pub priority: u8,
    pub started_at_ms: u64,
    pub ended_at_ms: Option<u64>,
    pub voice_frames: u64,
}

/// A short message that was seen, with the number of reports on it.
#[derive(Debug, Clone, Copy)]
pub struct SdsRecord {
    pub uuid: CallId,
    pub source: u32,
    pub destination: u32,
    pub at_ms: u64,
    pub reports: u32,
}

/// What a live event tells of.
#[derive(Debug)]
pub enum LiveData {
    Call(CallRecord),
    Sds(SdsRecord),
    Station(String),
}

/// An event for the live dashboard.
#[derive(Debug)]
pub struct LiveEvent {
    pub event: String,
    pub at_ms: u64,
    pub data: LiveData,
}

/// The state of the network at one moment.
#[derive(Debug)]
pub struct Snapshot {
    pub connected_bluestations: usize,
    pub subscribers: usize,
    pub groups: usize,
    pub active_calls: Vec<CallRecord>,
    pub recent_calls: Vec<CallRecord>,
    pub recent_sds: Vec<SdsRecord>,
    pub total_calls: u64,
    pub total_sds: u64,
    pub voice_frames: u64,
}

/// Calls under way, the newest ended calls and short messages, and counters.
pub struct Monitor {
    pub active: HashMap<CallId, CallRecord>,
    pub calls: VecDeque<CallRecord>,
    pub sds: VecDeque<SdsRecord>,
    pub total_calls: u64,
    pub total_sds: u64,
    pub voice_frames: u64,
}

/// A call record as mathematical values.
pub struct CallView {
    pub uuid: CallId,
    pub kind: Seq<char>,
    pub source: u32,
    pub destination: u32,
    pub priority: u8,
    pub started_at_ms: u64,
    pub ended_at_ms: Option<u64>,
    pub voice_frames: nat,
}

impl View for CallRecord {
    type V = CallView;

    open spec fn view(&self) -> CallView {
        CallView {
            uuid: self.uuid,
            kind: self.kind@,
            source: self.source,
            destination: self.destination,
            priority: self.priority,
            started_at_ms: self.started_at_ms,
            ended_at_ms: self.ended_at_ms,
            voice_frames: self.voice_frames as nat,
        }
    }
}

impl Clone for CallRecord {
    fn clone(&self) -> (r: Self)
        ensures
            r == *self,
    {
        CallRecord {
            uuid: self.uuid,
            kind: self.kind.clone(),
            source: self.source,
            destination: self.destination,
            priority: self.priority,
            started_at_ms: self.started_at_ms,
            ended_at_ms: self.ended_at_ms,
            voice_frames: self.voice_frames,
        }
    }
}

/// The records of calls, as mathematical values.
pub open spec fn call_views(s: Seq<CallRecord>) -> Seq<CallView> {
    s.map_values(|r: CallRecord| r@)
}

/// A monitor as mathematical values.
#[verifier::ext_equal]
pub struct MonitorView {
    pub active: Map<CallId, CallView>,
    pub calls: Seq<CallView>,
    pub sds: Seq<SdsRecord>,
    pub total_calls: nat,
    pub total_sds: nat,
    pub voice_frames: nat,
}

impl View for Monitor {
    type V = MonitorView;

    open spec fn view(&self) -> MonitorView {
        MonitorView {
            active: self.active@.map_values(|r: CallRecord| r@),
            calls: call_views(self.calls@),
            sds: self.sds@,
            total_calls: self.total_calls as nat,
            total_sds: self.total_sds as nat,
            voice_frames: self.voice_frames as nat,
        }
    }
}

/// The place of the first message with this UUID, or the number of messages
/// where there is none.
pub open spec fn first_sds(s: Seq<SdsRecord>, uuid: CallId) -> nat
    decreases s.len(),
{
    if s.len() == 0 || s.first().uuid == uuid {
        0
    } else {
        1 + first_sds(s.drop_first(), uuid)
    }
}

/// The record of a call that starts.
pub open spec fn new_call(
    uuid: CallId,
    kind: Seq<char>,
    source: u32,
    destination: u32,
    priority: u8,
    now_ms: u64,
) -> CallView {
    CallView {
        uuid,
        kind,
        source,
        destination,
        priority,
        started_at_ms: now_ms,
        ended_at_ms: None,
        voice_frames: 0,
    }
}

impl MonitorView {
    /// Nothing was seen yet.
    pub open spec fn blank() -> MonitorView {
        MonitorView {
            active: Map::empty(),
            calls: Seq::empty(),
            sds: Seq::empty(),
            total_calls: 0,
            total_sds: 0,
            voice_frames: 0,
        }
    }

    /// Calls under way are filed under their UUIDs and have not ended, those
    /// in the history have; the histories are within their limit; and the
    /// counters cover what is kept.
    pub open spec fn consistent(self) -> bool {
        &&& self.active.dom().finite()
        &&& forall|u: CallId| #[trigger]
            self.active.contains_key(u) ==> {
                &&& self.active[u].uuid == u
                &&& self.active[u].ended_at_ms is None
                &&& self.active[u].voice_frames <= self.voice_frames
            }
        &&& forall|i: int|
            0 <= i < self.calls.len() ==> (#[trigger] self.calls[i]).ended_at_ms is Some
        &&& self.calls.len() <= HISTORY_LIMIT
        &&& self.sds.len() <= HISTORY_LIMIT
        &&& self.active.dom().len() + self.calls.len() <= self.total_calls
        &&& self.sds.len() <= self.total_sds
    }

    /// After the start of a call. A call that is already under way is counted
    /// once.
    pub open spec fn started(self, call: CallView) -> MonitorView {
        MonitorView {
            active: self.active.insert(call.uuid, call),
            total_calls: if self.active.contains_key(call.uuid) {
                self.total_calls
            } else {
                self.total_calls + 1
            },
            ..self
        }
    }

    /// The record of a call under way that ends.
    pub open spec fn closing(self, uuid: CallId, now_ms: u64) -> CallView {
        CallView { ended_at_ms: Some(now_ms), ..self.active[uuid] }
    }

    /// After the end of a call: it moves from the calls under way to the
    /// history. The end of any other call changes nothing.
    pub open spec fn ended(self, uuid: CallId, now_ms: u64) -> MonitorView {
        if self.active.contains_key(uuid) {
            MonitorView {
                active: self.active.remove(uuid),
                calls: remembered(self.calls, self.closing(uuid, now_ms), HISTORY_LIMIT as nat),
                ..self
            }
        } else {
            self
        }
    }

    /// After a voice frame. It is counted for its call where that is under way.
    pub open spec fn voiced(self, uuid: CallId) -> MonitorView {
        MonitorView {
            active: if self.active.contains_key(uuid) {
                self.active.insert(
                    uuid,
                    CallView {
                        voice_frames: self.active[uuid].voice_frames + 1,
                        ..self.active[uuid]
                    },
                )
            } else {
                self.active
            },
            voice_frames: self.voice_frames + 1,
            ..self
        }
    }

    /// After a short message.
    pub open spec fn messaged(self, message: SdsRecord) -> MonitorView {
        MonitorView {
            sds: remembered(self.sds, message, HISTORY_LIMIT as nat),
            total_sds: self.total_sds + 1,
            ..self
        }
    }

    /// A report is on a message that is kept.
    pub open spec fn knows_sds(self, uuid: CallId) -> bool {
        first_sds(self.sds, uuid) < self.sds.len()
    }

    /// After a report on a short message: the newest message with that UUID
    /// has one report more.
    pub open spec fn reported(self, uuid: CallId) -> MonitorView {
        let i = first_sds(self.sds, uuid) as int;
        if self.knows_sds(uuid) {
            MonitorView {
                sds: self.sds.update(
                    i,
                    SdsRecord { reports: (self.sds[i].reports + 1) as u32, ..self.sds[i] },
                ),
                ..self
            }
        } else {
            self
        }
    }
}

impl Snapshot {
    /// The snapshot shows the calls under way, each once, the newest ended
    /// calls and short messages, and the counters.
    pub open spec fn shows(self, m: MonitorView) -> bool {
        &&& forall|i: int|
            #![trigger self.active_calls@[i]]
            0 <= i < self.active_calls@.len() ==> m.active.contains_key(self.active_calls@[i].uuid)
                && m.active[self.active_calls@[i].uuid] == self.active_calls@[i]@
        &&& forall|i: int, j: int|
            0 <= i < j < self.active_calls@.len() ==> self.active_calls@[i].uuid
                != self.active_calls@[j].uuid
        &&& forall|uuid: CallId| #[trigger]
            m.active.contains_key(uuid) ==> exists|i: int|
                0 <= i < self.active_calls@.len() && (#[trigger] self.active_calls@[i]).uuid
                    == uuid
        &&& call_views(self.recent_calls@) == newest(m.calls, SNAPSHOT_LIMIT as nat)
        &&& self.recent_sds@ == newest(m.sds, SNAPSHOT_LIMIT as nat)
        &&& self.total_calls == m.total_calls
        &&& self.total_sds == m.total_sds
        &&& self.voice_frames == m.voice_frames
    }
}

/// Makes an event for the live dashboard.
pub(crate) fn live_event(event: &str, data: LiveData, now_ms: u64) -> (r: LiveEvent)
    ensures
        r.event@ == event@,
        r.at_ms == now_ms,
        r.data == data,
{
    LiveEvent { event: event.to_owned(), at_ms: now_ms, data }
}

impl Monitor {
    /// A monitor that has seen nothing.
    pub fn new() -> (r: Self)
        ensures
            r@ == MonitorView::blank(),
            r@.consistent(),
    {
        let r = Monitor {
            active: HashMap::new(),
            calls: VecDeque::new(),
            sds: VecDeque::new(),
            total_calls: 0,
            total_sds: 0,
            voice_frames: 0,
        };
        assert(r@ =~= MonitorView::blank());
        r
    }

    /// Makes an event for the live dashboard.
    pub fn emit(&self, event: &str, data: LiveData, now_ms: u64) -> (r: LiveEvent)
        ensures
            r.event@ == event@,
            r.at_ms == now_ms,
            r.data == data,
    {
        live_event(event, data, now_ms)
    }

    /// Notes the start of a call and tells the dashboard.
    pub fn call_started(
        &mut self,
        uuid: CallId,
        kind: &str,
        source: u32,
        destination: u32,
        priority: u8,
        now_ms: u64,
    ) -> (r: LiveEvent)
        requires
            old(self)@.consistent(),
            old(self)@.active.contains_key(uuid) || old(self)@.total_calls < u64::MAX,
        ensures
            final(self)@ == old(self)@.started(
                new_call(uuid, kind@, source, destination, priority, now_ms),
            ),
            final(self)@.consistent(),
            r.event@ == "call_started"@,
            r.at_ms == now_ms,
            r.data matches LiveData::Call(c) && c@ == new_call(
                uuid,
                kind@,
                source,
                destination,
                priority,
                now_ms,
            ),
    {
        let rec = CallRecord {
            uuid,
            kind: kind.to_owned(),
            source,
            destination,
            priority,
            started_at_ms: now_ms,
            ended_at_ms: None,
            voice_frames: 0,
        };
        let copy = rec.clone();
        if self.active.insert(uuid, rec).is_none() {
            self.total_calls += 1;
        }
        proof {
            assert(self@ =~= old(self)@.started(copy@));
            law_started_keeps_consistent(old(self)@, copy@);
        }
        self.emit("call_started", LiveData::Call(copy), now_ms)
    }

    /// Notes the end of a call, and tells the dashboard where it was under way.
    pub fn call_ended(&mut self, uuid: CallId, now_ms: u64) -> (r: Option<LiveEvent>)
        requires
            old(self)@.consistent(),
        ensures
            final(self)@ == old(self)@.ended(uuid, now_ms),
            final(self)@.consistent(),
            r is Some <==> old(self)@.active.contains_key(uuid),
            r matches Some(e) ==> {
                &&& e.event@ == "call_ended"@
                &&& e.at_ms == now_ms
                &&& e.data matches LiveData::Call(c)
                &&& c@ == old(self)@.closing(uuid, now_ms)
            },
    {
        proof {
            law_ended_keeps_consistent(self@, uuid, now_ms);
        }
        match self.active.remove(&uuid) {
            Some(mut rec) => {
                rec.ended_at_ms = Some(now_ms);
                let copy = rec.clone();
                remember(&mut self.calls, rec, HISTORY_LIMIT);
                assert(self@ =~= old(self)@.ended(uuid, now_ms));
                Some(self.emit("call_ended", LiveData::Call(copy), now_ms))
            },
            None => {
                assert(self@ =~= old(self)@);
                None
            },
        }
    }

    /// Counts a voice frame.
    pub fn voice_frame(&mut self, uuid: CallId)
        requires
            old(self)@.consistent(),
            old(self)@.voice_frames < u64::MAX,
        ensures
            final(self)@ == old(self)@.voiced(uuid),
            final(self)@.consistent(),
    {
        proof {
            law_voiced_keeps_consistent(self@, uuid);
        }
        self.voice_frames += 1;
        match self.active.remove(&uuid) {
            Some(mut rec) => {
                assert(rec@ == old(self)@.active[uuid]);
                rec.voice_frames += 1;
                self.active.insert(uuid, rec);
            },
            None => {},
        }
        assert(self@ =~= old(self)@.voiced(uuid));
    }

    /// Notes a short message and tells the dashboard.
    pub fn sds(&mut self, uuid: CallId, source: u32, destination: u32, now_ms: u64) -> (r:
        LiveEvent)
        requires
            old(self)@.consistent(),
            old(self)@.total_sds < u64::MAX,
        ensures
            final(self)@ == old(self)@.messaged(
                SdsRecord { uuid, source, destination, at_ms: now_ms, reports: 0 },
            ),
            final(self)@.consistent(),
            r.event@ == "sds"@,
            r.at_ms == now_ms,
            r.data == LiveData::Sds(
                SdsRecord { uuid, source, destination, at_ms: now_ms, reports: 0 },
            ),
    {
        let rec = SdsRecord { uuid, source, destination, at_ms: now_ms, reports: 0 };
        self.total_sds += 1;
        remember(&mut self.sds, rec, HISTORY_LIMIT);
        assert(self@ =~= old(self)@.messaged(rec));
        self.emit("sds", LiveData::Sds(rec), now_ms)
    }

    /// Counts a report on a short message.
    pub fn sds_report(&mut self, uuid: CallId)
        requires
            old(self)@.consistent(),
            old(self)@.knows_sds(uuid) ==> old(self)@.sds[first_sds(
                old(self)@.sds,
                uuid,
            ) as int].reports < u32::MAX,
        ensures
            final(self)@ == old(self)@.reported(uuid),
            final(self)@.consistent(),
    {
        let n = self.sds.len();
        let mut i: usize = 0;
        assert(self.sds@.skip(0) == self.sds@);
        while i < n && self.sds[i].uuid != uuid
            invariant
                0 <= i <= n == self.sds@.len(),
                first_sds(self.sds@, uuid) == i + first_sds(self.sds@.skip(i as int), uuid),
            decreases n - i,
        {
            assert(self.sds@.skip(i as int).drop_first() == self.sds@.skip(i + 1));
            i += 1;
        }
        if i < n {
            let mut rec = self.sds[i];
            rec.reports += 1;
            self.sds.remove(i);
            self.sds.insert(i, rec);
        }
        assert(self@ =~= old(self)@.reported(uuid));
    }

    /// The state of the network, with these numbers of clients, subscribers
    /// and groups. Calls under way come in no particular order.
    pub fn snapshot(&self, clients: usize, subscribers: usize, groups: usize) -> (r: Snapshot)
        requires
            self@.consistent(),
        ensures
            r.connected_bluestations == clients,
            r.subscribers == subscribers,
            r.groups == groups,
            r.shows(self@),
    {
        let keys = map_keys(&self.active);
        let n = keys.len();
        assert(self@.active.dom() =~= self.active@.dom());
        let mut active_calls: Vec<CallRecord> = Vec::with_capacity(n);
        let mut i: usize = 0;
        while i < n
            invariant
                0 <= i <= n == keys@.len(),
                keys@.no_duplicates(),
                keys@.to_set() == self.active@.dom(),
                self@.consistent(),
                active_calls@.len() == i,
                forall|k: int|
                    #![trigger active_calls@[k]]
                    0 <= k < i ==> active_calls@[k].uuid == keys@[k] && self@.active.contains_key(
                        keys@[k],
                    ) && self@.active[keys@[k]] == active_calls@[k]@,
            decreases n - i,
        {
            let key = keys[i];
            assert(keys@.to_set().contains(key));
            match self.active.get(&key) {
                Some(rec) => {
                    assert(self@.active.contains_key(key));
                    assert(self@.active[key] == rec@);
                    active_calls.push(rec.clone());
                },
                None => {},
            }
            i += 1;
        }
        proof {
            assert forall|uuid: CallId| #[trigger]
                self@.active.contains_key(uuid) implies exists|k: int|
                0 <= k < active_calls@.len() && (#[trigger] active_calls@[k]).uuid == uuid by {
                assert(keys@.to_set().contains(uuid));
                let k = choose|k: int| 0 <= k < keys@.len() && keys@[k] == uuid;
                assert(active_calls@[k].uuid == uuid);
            }
        }
        let shown = if self.calls.len() > SNAPSHOT_LIMIT {
            SNAPSHOT_LIMIT
        } else {
            self.calls.len()
        };
        let mut recent_calls: Vec<CallRecord> = Vec::with_capacity(shown);
        i = 0;
        while i < shown
            invariant
                0 <= i <= shown <= self.calls@.len(),
                recent_calls@ == self.calls@.take(i as int),
            decreases shown - i,
        {
            recent_calls.push(self.calls[i].clone());
            i += 1;
            assert(recent_calls@ =~= self.calls@.take(i as int));
        }
        assert(call_views(recent_calls@) =~= newest(self@.calls, SNAPSHOT_LIMIT as nat));
        let shown = if self.sds.len() > SNAPSHOT_LIMIT {
            SNAPSHOT_LIMIT
        } else {
            self.sds.len()
        };
        let mut recent_sds: Vec<SdsRecord> = Vec::with_capacity(shown);
        i = 0;
        while i < shown
            invariant
                0 <= i <= shown <= self.sds@.len(),
                recent_sds@ == self.sds@.take(i as int),
            decreases shown - i,
        {
            recent_sds.push(self.sds[i]);
            i += 1;
            assert(recent_sds@ =~= self.sds@.take(i as int));
        }
        assert(recent_sds@ =~= newest(self@.sds, SNAPSHOT_LIMIT as nat));
        Snapshot {
            connected_bluestations: clients,
            subscribers,
            groups,
            active_calls,
            recent_calls,
            recent_sds,
            total_calls: self.total_calls,
            total_sds: self.total_sds,
            voice_frames: self.voice_frames,
        }
    }
}

/// The start of a call keeps a monitor consistent.
pub proof fn law_started_keeps_consistent(m: MonitorView, call: CallView)
    requires
        m.consistent(),
        call.ended_at_ms is None,
        call.voice_frames <= m.voice_frames,
    ensures
        m.started(call).consistent(),
{
    assert(m.started(call).active.dom() =~= m.active.dom().insert(call.uuid));
}

/// The end of a call keeps a monitor consistent.
pub proof fn law_ended_keeps_consistent(m: MonitorView, uuid: CallId, now_ms: u64)
    requires
        m.consistent(),
    ensures
        m.ended(uuid, now_ms).consistent(),
{
    if m.active.contains_key(uuid) {
        assert(m.ended(uuid, now_ms).active.dom() =~= m.active.dom().remove(uuid));
    }
}

/// A voice frame keeps a monitor consistent.
pub proof fn law_voiced_keeps_consistent(m: MonitorView, uuid: CallId)
    requires
        m.consistent(),
    ensures
        m.voiced(uuid).consistent(),
{
    if m.active.contains_key(uuid) {
        assert(m.voiced(uuid).active.dom() =~= m.active.dom());
    }
}

/// A short message keeps a monitor consistent.
pub proof fn law_messaged_keeps_consistent(m: MonitorView, message: SdsRecord)
    requires
        m.consistent(),
    ensures
        m.messaged(message).consistent(),
{
}

/// A report on a short message keeps a monitor consistent, and all but that
/// message as it is.
pub proof fn law_reported_keeps_consistent(m: MonitorView, uuid: CallId)
    requires
        m.consistent(),
    ensures
        m.reported(uuid).consistent(),
        m.reported(uuid) == (MonitorView { sds: m.reported(uuid).sds, ..m }),
        forall|i: int|
            0 <= i < m.sds.len() && i != first_sds(m.sds, uuid) ==> m.reported(uuid).sds[i]
                == #[trigger] m.sds[i],
{
}

/// A call that starts and ends stands first in the history with all that was
/// noted at its start, is no longer under way, and is counted once.
pub proof fn law_call_passes_into_history(m: MonitorView, call: CallView, now_ms: u64)
    requires
        m.consistent(),
        !m.active.contains_key(call.uuid),
    ensures
        ({
            let done = m.started(call).ended(call.uuid, now_ms);
            &&& done.active == m.active
            &&& done.calls.first() == (CallView { ended_at_ms: Some(now_ms), ..call })
            &&& done.total_calls == m.total_calls + 1
            &&& done.sds == m.sds
            &&& done.total_sds == m.total_sds
            &&& done.voice_frames == m.voice_frames
        }),
{
    assert(m.active.insert(call.uuid, call).remove(call.uuid) =~= m.active);
}

/// Starting a call again while it is under way replaces its record and does
/// not count it again.
pub proof fn law_restart_counts_once(m: MonitorView, first: CallView, again: CallView)
    requires
        first.uuid == again.uuid,
    ensures
        m.started(first).started(again) == m.started(again),
{
    assert(m.active.insert(first.uuid, first).insert(again.uuid, again) =~= m.active.insert(
        again.uuid,
        again,
    ));
}

/// A call that has ended cannot be ended again.
pub proof fn law_end_once(m: MonitorView, uuid: CallId, first_ms: u64, second_ms: u64)
    ensures
        m.ended(uuid, first_ms).ended(uuid, second_ms) == m.ended(uuid, first_ms),
{
}

/// A report on a short message that has just been noted is counted on it.
pub proof fn law_report_finds_newest(m: MonitorView, message: SdsRecord)
    requires
        message.reports < u32::MAX,
    ensures
        m.messaged(message).knows_sds(message.uuid),
        m.messaged(message).reported(message.uuid).sds.first() == (SdsRecord {
            reports: (message.reports + 1) as u32,
            ..message
        }),
{
}

/// A call that starts is under way with all that is told of it; the other
/// calls, the histories and the other counters are not touched, and the call
/// is counted where it was not under way before.
pub proof fn law_start(
    m: MonitorView,
    uuid: CallId,
    kind: Seq<char>,
    source: u32,
    destination: u32,
    priority: u8,
    now_ms: u64,
    other: CallId,
)
    ensures
        ({
            let call = new_call(uuid, kind, source, destination, priority, now_ms);
            let n = m.started(call);
            &&& call.uuid == uuid
            &&& call.kind == kind
            &&& call.source == source
            &&& call.destination == destination
            &&& call.priority == priority
            &&& call.started_at_ms == now_ms
            &&& call.ended_at_ms is None
            &&& call.voice_frames == 0
            &&& n.active.contains_key(uuid)
            &&& n.active[uuid] == call
            &&& other != uuid ==> (n.active.contains_key(other) <==> m.active.contains_key(other))
            &&& other != uuid && m.active.contains_key(other) ==> n.active[other]
                == m.active[other]
            &&& n.calls == m.calls
            &&& n.sds == m.sds
            &&& n.total_calls == m.total_calls + if m.active.contains_key(uuid) {
                0int
            } else {
                1int
            }
            &&& n.total_sds == m.total_sds
            &&& n.voice_frames == m.voice_frames
        }),
{
}

/// A call under way that ends stands first among the ended calls, as it was
/// but for the time of its end; of the older ones the newest 199 stay behind
/// it. The end of any other call changes nothing.
pub proof fn law_end(m: MonitorView, uuid: CallId, now_ms: u64, other: CallId)
    requires
        m.consistent(),
    ensures
        ({
            let n = m.ended(uuid, now_ms);
            &&& !n.active.contains_key(uuid)
            &&& other != uuid ==> (n.active.contains_key(other) <==> m.active.contains_key(other))
            &&& other != uuid && m.active.contains_key(other) ==> n.active[other]
                == m.active[other]
            &&& n.sds == m.sds
            &&& n.total_calls == m.total_calls
            &&& n.total_sds == m.total_sds
            &&& n.voice_frames == m.voice_frames
            &&& !m.active.contains_key(uuid) ==> n == m
            &&& m.active.contains_key(uuid) ==> {
                let was = m.active[uuid];
                let closed = n.calls[0];
                &&& closed == m.closing(uuid, now_ms)
                &&& closed.uuid == uuid
                &&& closed.kind == was.kind
                &&& closed.source == was.source
                &&& closed.destination == was.destination
                &&& closed.priority == was.priority
                &&& closed.started_at_ms == was.started_at_ms
                &&& closed.ended_at_ms == Some(now_ms)
                &&& closed.voice_frames == was.voice_frames
                &&& n.calls.len() == if m.calls.len() < 200 {
                    m.calls.len() + 1
                } else {
                    200
                }
                &&& forall|i: int|
                    1 <= i < n.calls.len() ==> #[trigger] n.calls[i] == m.calls[i - 1]
            }
        }),
{
    if m.active.contains_key(uuid) {
        law_remembered(m.calls, m.closing(uuid, now_ms), 200);
    }
}

/// A voice frame is counted once in all and once for its call where that is
/// under way, and changes nothing else.
pub proof fn law_voice(m: MonitorView, uuid: CallId, other: CallId)
    ensures
        ({
            let n = m.voiced(uuid);
            &&& n.voice_frames == m.voice_frames + 1
            &&& n.active.contains_key(other) <==> m.active.contains_key(other)
            &&& m.active.contains_key(other) && other != uuid ==> n.active[other]
                == m.active[other]
            &&& m.active.contains_key(uuid) ==> {
                &&& n.active[uuid].voice_frames == m.active[uuid].voice_frames + 1
                &&& n.active[uuid].uuid == m.active[uuid].uuid
                &&& n.active[uuid].kind == m.active[uuid].kind
                &&& n.active[uuid].source == m.active[uuid].source
                &&& n.active[uuid].destination == m.active[uuid].destination
                &&& n.active[uuid].priority == m.active[uuid].priority
                &&& n.active[uuid].started_at_ms == m.active[uuid].started_at_ms
                &&& n.active[uuid].ended_at_ms == m.active[uuid].ended_at_ms
            }
            &&& n.calls == m.calls
            &&& n.sds == m.sds
            &&& n.total_calls == m.total_calls
            &&& n.total_sds == m.total_sds
        }),
{
}

/// A short message stands first among the messages, is counted, and changes
/// nothing else; of the older ones the newest 199 stay behind it.
pub proof fn law_message(m: MonitorView, message: SdsRecord)
    ensures
        ({
            let n = m.messaged(message);
            &&& n.sds[0] == message
            &&& n.sds.len() == if m.sds.len() < 200 {
                m.sds.len() + 1
            } else {
                200
            }
            &&& forall|i: int| 1 <= i < n.sds.len() ==> #[trigger] n.sds[i] == m.sds[i - 1]
            &&& n.total_sds == m.total_sds + 1
            &&& n.active == m.active
            &&& n.calls == m.calls
            &&& n.total_calls == m.total_calls
            &&& n.voice_frames == m.voice_frames
        }),
{
    law_remembered(m.sds, message, 200);
}

/// The first message with a UUID is one with that UUID that none with it
/// stands before.
pub proof fn law_first_sds(s: Seq<SdsRecord>, uuid: CallId)
    ensures
        first_sds(s, uuid) <= s.len(),
        forall|i: int| 0 <= i < first_sds(s, uuid) ==> (#[trigger] s[i]).uuid != uuid,
        first_sds(s, uuid) < s.len() ==> s[first_sds(s, uuid) as int].uuid == uuid,
    decreases s.len(),
{
    if s.len() > 0 && s.first().uuid != uuid {
        let rest = s.drop_first();
        law_first_sds(rest, uuid);
        assert forall|i: int| 0 <= i < first_sds(s, uuid) implies (#[trigger] s[i]).uuid != uuid by {
            if i > 0 {
                assert(rest[i - 1] == s[i]);
            }
        }
    }
}

/// A report is counted on the newest message with its UUID, and changes
/// nothing else.
pub proof fn law_report(m: MonitorView, uuid: CallId, at: int)
    requires
        0 <= at < m.sds.len(),
        m.sds[at].uuid == uuid,
        m.sds[at].reports < u32::MAX,
        forall|i: int| 0 <= i < at ==> (#[trigger] m.sds[i]).uuid != uuid,
    ensures
        ({
            let n = m.reported(uuid);
            &&& n.sds.len() == m.sds.len()
            &&& n.sds[at].reports == m.sds[at].reports + 1
            &&& n.sds[at].uuid == uuid
            &&& n.sds[at].source == m.sds[at].source
            &&& n.sds[at].destination == m.sds[at].destination
            &&& n.sds[at].at_ms == m.sds[at].at_ms
            &&& forall|i: int|
                0 <= i < m.sds.len() && i != at ==> n.sds[i] == #[trigger] m.sds[i]
            &&& n.active == m.active
            &&& n.calls == m.calls
            &&& n.total_calls == m.total_calls
            &&& n.total_sds == m.total_sds
            &&& n.voice_frames == m.voice_frames
        }),
{
    law_first_sds(m.sds, uuid);
    let k = first_sds(m.sds, uuid) as int;
    assert(k == at) by {
        if k < at {
            assert(m.sds[k].uuid != uuid);
        }
    }
}

/// A report on no message that is kept changes nothing.
pub proof fn law_report_unknown(m: MonitorView, uuid: CallId)
    requires
        forall|i: int| 0 <= i < m.sds.len() ==> (#[trigger] m.sds[i]).uuid != uuid,
    ensures
        m.reported(uuid) == m,
{
    law_first_sds(m.sds, uuid);
}

/// A snapshot shows the newest fifty ended calls and short messages, newest
/// first, every call under way exactly once, and the counters.
pub proof fn law_snapshot(s: Snapshot, m: MonitorView, uuid: CallId)
    requires
        s.shows(m),
    ensures
        m.active.contains_key(uuid) <==> exists|i: int|
            0 <= i < s.active_calls@.len() && (#[trigger] s.active_calls@[i]).uuid == uuid,
        forall|i: int|
            0 <= i < s.active_calls@.len() ==> m.active[s.active_calls@[i].uuid] == (
            #[trigger] s.active_calls@[i])@,
        forall|i: int, j: int|
            0 <= i < j < s.active_calls@.len() ==> (#[trigger] s.active_calls@[i]).uuid != (
            #[trigger] s.active_calls@[j]).uuid,
        s.recent_calls@.len() == if m.calls.len() <= 50 {
            m.calls.len()
        } else {
            50
        },
        forall|i: int|
            0 <= i < s.recent_calls@.len() ==> (#[trigger] s.recent_calls@[i])@ == m.calls[i],
        s.recent_sds@.len() == if m.sds.len() <= 50 {
            m.sds.len()
        } else {
            50
        },
        forall|i: int| 0 <= i < s.recent_sds@.len() ==> #[trigger] s.recent_sds@[i] == m.sds[i],
        s.total_calls == m.total_calls,
        s.total_sds == m.total_sds,
        s.voice_frames == m.voice_frames,
{
    law_newest(m.calls, 50);
    law_newest(m.sds, 50);
    let views = call_views(s.recent_calls@);
    assert(views.len() == s.recent_calls@.len());
    assert forall|i: int| 0 <= i < s.recent_calls@.len() implies (#[trigger] s.recent_calls@[i])@
        == m.calls[i] by {
        assert(views[i] == s.recent_calls@[i]@);
    }
}

/// Records and monitors are shown with all that they hold.
pub proof fn law_monitor_views(r: CallRecord, m: Monitor, uuid: CallId, i: int)
    ensures
        r@.uuid == r.uuid,
        r@.kind == r.kind@,
        r@.source == r.source,
        r@.destination == r.destination,
        r@.priority == r.priority,
        r@.started_at_ms == r.started_at_ms,
        r@.ended_at_ms == r.ended_at_ms,
        r@.voice_frames == r.voice_frames,
        m@.active.contains_key(uuid) <==> m.active@.contains_key(uuid),
        m.active@.contains_key(uuid) ==> m@.active[uuid] == m.active@[uuid]@,
        m@.calls.len() == m.calls@.len(),
        0 <= i < m.calls@.len() ==> m@.calls[i] == m.calls@[i]@,
        m@.sds == m.sds@,
        m@.total_calls == m.total_calls,
        m@.total_sds == m.total_sds,
        m@.voice_frames == m.voice_frames,
{
}

/// A monitor that has seen nothing shows nothing.
pub proof fn law_blank_monitor(uuid: CallId)
    ensures
        !MonitorView::blank().active.contains_key(uuid),
        MonitorView::blank().calls.len() == 0,
        MonitorView::blank().sds.len() == 0,
        MonitorView::blank().total_calls == 0,
        MonitorView::blank().total_sds == 0,
        MonitorView::blank().voice_frames == 0,
        MonitorView::blank().consistent(),
{
}

} // verus!
