//! What the server knows of its clients, subscribers, groups, calls and short
//! message routes, and how it forgets them.
//!
//! Moments are in nanoseconds since some fixed moment before all of them.
use crate::collect::{kept, lemma_push_contains, map_keys, retain_values, set_items};
use crate::config::Config;
use crate::ids::{CallId, ClientId};
use crate::monitor::{Monitor, MonitorView};
use crate::telemetry::{BtsView, TelemetryState};
use crate::text_map::TextMap;
use std::collections::{HashMap, HashSet};
use vstd::prelude::*;

verus! {

/// The nanoseconds in one second.
pub const NANOS_PER_SECOND: u128 = 1_000_000_000;

/// The seconds for which a nonce holds.
pub const NONCE_SECONDS: u64 = 120;

/// The seconds for which the route of a short message is kept.
pub const SDS_ROUTE_SECONDS: u64 = 60;

/// A connected base station, reached through `tx`.
#[derive(Debug, Clone)]
pub struct Client<T> {
    pub tx: T,
}

/// A radio that registered through a client, with the groups that it joined.
#[derive(Debug)]
pub struct Subscriber {
    pub client_id: ClientId,
    pub groups: HashSet<u32>,
}

#[derive(Debug, Clone, Copy, PartialEq, Eq, Structural)]
pub enum CallKind {
    Group,
    Private,
}

/// A call under way between its owner and the other clients that take part.
#[derive(Debug)]
pub struct ActiveCall {
    pub kind: CallKind,
    pub owner: ClientId,
    pub source_issi: u32,
    pub destination: u32,
    pub priority: u8,
    pub peers: HashSet<ClientId>,
}

/// Where a short message came from and went to, for the reports on it.
#[derive(Debug)]
pub struct SdsRoute {
    pub source_client: ClientId,
    pub targets: HashSet<ClientId>,
    pub source_issi: u32,
    pub destination: u32,
    pub created_at: u128,
}

/// All that changes as clients come, speak and go.
pub struct Inner<T> {
    pub clients: HashMap<ClientId, Client<T>>,
    pub subscribers: HashMap<u32, Subscriber>,
    pub group_clients: HashMap<u32, HashSet<ClientId>>,
    pub calls: HashMap<CallId, ActiveCall>,
    pub group_floor: HashMap<u32, CallId>,
    pub sds_routes: HashMap<CallId, SdsRoute>,
    pub digest_nonces: TextMap<u128>,
    pub auth_sessions: TextMap<u128>,
}

impl ActiveCall {
    /// The client owns the call or takes part in it.
    pub open spec fn involves(self, id: ClientId) -> bool {
        self.owner == id || self.peers@.contains(id)
    }
}

impl SdsRoute {
    /// The client sent the message or gets it.
    pub open spec fn involves(self, id: ClientId) -> bool {
        self.source_client == id || self.targets@.contains(id)
    }
}

/// The members of each group.
pub open spec fn memberships(groups: Map<u32, HashSet<ClientId>>) -> Map<u32, Set<ClientId>> {
    groups.map_values(|s: HashSet<ClientId>| s@)
}

/// The memberships without a client, and without the groups that it leaves
/// empty or that were empty before.
pub open spec fn memberships_without(
    groups: Map<u32, Set<ClientId>>,
    id: ClientId,
) -> Map<u32, Set<ClientId>> {
    Map::new(
        |g: u32| groups.contains_key(g) && groups[g].remove(id) != Set::<ClientId>::empty(),
        |g: u32| groups[g].remove(id),
    )
}

/// The floor of group `g` is held by a group call to it that involves the client.
pub open spec fn floor_involves(
    floor: Map<u32, CallId>,
    calls: Map<CallId, ActiveCall>,
    id: ClientId,
    g: u32,
) -> bool {
    &&& floor.contains_key(g)
    &&& calls.contains_key(floor[g])
    &&& calls[floor[g]].involves(id)
    &&& calls[floor[g]].kind == CallKind::Group
    &&& calls[floor[g]].destination == g
}

/// The floors that stay when a client goes.
pub open spec fn floor_without(
    floor: Map<u32, CallId>,
    calls: Map<CallId, ActiveCall>,
    id: ClientId,
) -> Map<u32, CallId> {
    Map::new(|g: u32| floor.contains_key(g) && !floor_involves(floor, calls, id, g), |g: u32|
        floor[g])
}

/// The nanoseconds from `at` to `now`, or none where `at` is later.
pub open spec fn elapsed(now: u128, at: u128) -> nat {
    if now >= at {
        (now - at) as nat
    } else {
        0
    }
}

/// What came up at `at` is less than so many seconds old.
pub open spec fn fresh(now: u128, at: u128, seconds: u64) -> bool {
    elapsed(now, at) < seconds * NANOS_PER_SECOND
}

/// The seconds for which a session holds: what was set, but at least one.
pub open spec fn session_seconds(config: Config) -> u64 {
    if config.auth.session_ttl_seconds == 0 {
        1
    } else {
        config.auth.session_ttl_seconds
    }
}

/// Tells whether what came up at `at` is less than so many seconds old.
fn is_fresh(now: u128, at: u128, seconds: u64) -> (r: bool)
    ensures
        r == fresh(now, at, seconds),
{
    let age: u128 = if now >= at {
        now - at
    } else {
        0
    };
    assert(seconds * NANOS_PER_SECOND <= u64::MAX * NANOS_PER_SECOND) by (nonlinear_arith)
        requires
            seconds <= u64::MAX,
    ;
    age < seconds as u128 * NANOS_PER_SECOND
}

/// `key` is among the first `count` strings of a list.
spec fn listed(list: Seq<String>, count: int, key: Seq<char>) -> bool {
    exists|d: int| 0 <= d < count && (#[trigger] list[d])@ == key
}

/// Takes some keys out of a table.
fn remove_all(table: &mut TextMap<u128>, doomed: &Vec<String>)
    ensures
        forall|key: Seq<char>| #[trigger]
            final(table)@.contains_key(key) <==> old(table)@.contains_key(key) && !listed(
                doomed@,
                doomed@.len() as int,
                key,
            ),
        forall|key: Seq<char>| #[trigger]
            final(table)@.contains_key(key) ==> final(table)@[key] == old(table)@[key],
{
    let n = doomed.len();
    let mut i: usize = 0;
    while i < n
        invariant
            0 <= i <= n == doomed@.len(),
            forall|key: Seq<char>| #[trigger]
                table@.contains_key(key) <==> old(table)@.contains_key(key) && !listed(
                    doomed@,
                    i as int,
                    key,
                ),
            forall|key: Seq<char>| #[trigger]
                table@.contains_key(key) ==> table@[key] == old(table)@[key],
        decreases n - i,
    {
        let ghost before = table@;
        let ghost gone = doomed@[i as int]@;
        table.remove(doomed[i].as_str());
        proof {
            assert forall|key: Seq<char>|
                listed(doomed@, i + 1, key) == (listed(doomed@, i as int, key) || key == gone) by {
                if listed(doomed@, i as int, key) {
                    let d = choose|d: int| 0 <= d < i && (#[trigger] doomed@[d])@ == key;
                    assert(doomed@[d]@ == key);
                }
                if key == gone {
                    assert(doomed@[i as int]@ == key);
                }
            }
            assert forall|key: Seq<char>| #[trigger] table@.contains_key(key) implies table@[key]
                == old(table)@[key] by {
                assert(before.contains_key(key));
            }
            assert forall|key: Seq<char>| #[trigger]
                table@.contains_key(key) <==> old(table)@.contains_key(key) && !listed(
                    doomed@,
                    i + 1,
                    key,
                ) by {
                assert(table@.contains_key(key) <==> before.contains_key(key) && key != gone);
            }
        }
        i += 1;
    }
}

/// Takes out of a table what is not fresh.
fn purge_table(table: &mut TextMap<u128>, now: u128, seconds: u64)
    ensures
        final(table)@ == kept(old(table)@, |at: u128| fresh(now, at, seconds)),
{
    let n = table.len();
    let ghost keys = table.keys();
    let mut doomed: Vec<String> = Vec::new();
    let mut i: usize = 0;
    while i < n
        invariant
            0 <= i <= n == keys.len(),
            keys == table.keys(),
            table@ == old(table)@,
            forall|key: Seq<char>| table@.contains_key(key) <==> keys.contains(key),
            forall|d: int|
                #![trigger doomed@[d]]
                0 <= d < doomed@.len() ==> !fresh(now, table@[doomed@[d]@], seconds),
            forall|k: int|
                #![trigger keys[k]]
                0 <= k < i && !fresh(now, table@[keys[k]], seconds) ==> listed(
                    doomed@,
                    doomed@.len() as int,
                    keys[k],
                ),
        decreases n - i,
    {
        let entry = table.entry_at(i);
        let ghost before = doomed@;
        assert(keys.contains(keys[i as int]));
        if !is_fresh(now, *entry.1, seconds) {
            doomed.push(entry.0.clone());
            assert(doomed@[before.len() as int]@ == keys[i as int]);
        }
        proof {
            assert forall|k: int|
                #![trigger keys[k]]
                0 <= k < i + 1 && !fresh(now, table@[keys[k]], seconds) implies listed(
                doomed@,
                doomed@.len() as int,
                keys[k],
            ) by {
                if k < i {
                    let d = choose|d: int|
                        0 <= d < before.len() && (#[trigger] before[d])@ == keys[k];
                    assert(doomed@[d]@ == keys[k]);
                }
            }
        }
        i += 1;
    }
    remove_all(table, &doomed);
    proof {
        let start = old(table)@;
        let wanted = kept(start, |at: u128| fresh(now, at, seconds));
        assert forall|key: Seq<char>| table@.contains_key(key) == wanted.contains_key(key) by {
            if start.contains_key(key) {
                assert(keys.contains(key));
                let k = choose|k: int| 0 <= k < keys.len() && keys[k] == key;
                assert(keys[k] == key);
            }
        }
        assert(table@ =~= wanted);
    }
}

/// Takes a client out of all groups, and drops the groups that are empty.
fn leave_groups(groups: &mut HashMap<u32, HashSet<ClientId>>, id: ClientId)
    ensures
        memberships(final(groups)@) == memberships_without(memberships(old(groups)@), id),
{
    let keys = map_keys(groups);
    let n = keys.len();
    let ghost start = memberships(groups@);
    let ghost wanted = memberships_without(start, id);
    let mut i: usize = 0;
    while i < n
        invariant
            0 <= i <= n == keys@.len(),
            keys@.no_duplicates(),
            keys@.to_set() == start.dom(),
            wanted == memberships_without(start, id),
            forall|g: u32| #[trigger]
                memberships(groups@).contains_key(g) <==> if keys@.take(i as int).contains(g) {
                    wanted.contains_key(g)
                } else {
                    start.contains_key(g)
                },
            forall|g: u32| #[trigger]
                memberships(groups@).contains_key(g) ==> memberships(groups@)[g] == if keys@.take(
                    i as int,
                ).contains(g) {
                    wanted[g]
                } else {
                    start[g]
                },
        decreases n - i,
    {
        let key = keys[i];
        let ghost before = memberships(groups@);
        proof {
            assert(keys@.to_set().contains(key));
            assert(!keys@.take(i as int).contains(key)) by {
                if keys@.take(i as int).contains(key) {
                    let k = choose|k: int| 0 <= k < i && keys@.take(i as int)[k] == key;
                    assert(keys@[k] == keys@[i as int]);
                }
            }
            assert(before.contains_key(key));
        }
        match groups.remove(&key) {
            Some(mut members) => {
                members.remove(&id);
                assert(members@ == start[key].remove(id));
                if !members.is_empty() {
                    groups.insert(key, members);
                    assert(memberships(groups@) =~= before.insert(key, members@));
                } else {
                    assert(memberships(groups@) =~= before.remove(key));
                }
            },
            None => {},
        }
        proof {
            let now = keys@.take(i as int + 1);
            let earlier = keys@.take(i as int);
            assert(now == earlier.push(key));
            assert forall|g: u32| now.contains(g) == (earlier.contains(g) || g == key) by {
                lemma_push_contains(earlier, key, g);
            }
        }
        i += 1;
    }
    proof {
        assert(keys@.take(n as int) == keys@);
        assert forall|g: u32| start.contains_key(g) == keys@.contains(g) by {
            assert(keys@.to_set().contains(g) == keys@.contains(g));
        }
        assert(memberships(groups@) =~= wanted);
    }
}

/// The floors of which the calls in `gone` are not to be cleared.
spec fn floor_without_calls(
    floor: Map<u32, CallId>,
    calls: Map<CallId, ActiveCall>,
    id: ClientId,
    gone: Seq<CallId>,
) -> Map<u32, CallId> {
    Map::new(
        |g: u32|
            floor.contains_key(g) && !(floor_involves(floor, calls, id, g) && gone.contains(
                floor[g],
            )),
        |g: u32| floor[g],
    )
}

/// The calls that involve a client, each once.
fn calls_of(calls: &HashMap<CallId, ActiveCall>, id: ClientId) -> (r: Vec<CallId>)
    ensures
        forall|u: CallId| #[trigger]
            r@.contains(u) <==> calls@.contains_key(u) && calls@[u].involves(id),
{
    let keys = map_keys(calls);
    let n = keys.len();
    let mut found: Vec<CallId> = Vec::new();
    let mut i: usize = 0;
    while i < n
        invariant
            0 <= i <= n == keys@.len(),
            keys@.to_set() == calls@.dom(),
            forall|u: CallId| #[trigger]
                found@.contains(u) <==> keys@.take(i as int).contains(u) && calls@[u].involves(id),
        decreases n - i,
    {
        let key = keys[i];
        let ghost before = found@;
        assert(keys@.to_set().contains(key));
        if let Some(call) = calls.get(&key) {
            if call.owner == id || call.peers.contains(&id) {
                found.push(key);
            }
        }
        proof {
            assert(keys@.take(i as int + 1) == keys@.take(i as int).push(key));
            assert forall|u: CallId| #[trigger]
                found@.contains(u) <==> keys@.take(i as int + 1).contains(u) && calls@[u].involves(
                    id,
                ) by {
                lemma_push_contains(keys@.take(i as int), key, u);
                lemma_push_contains(before, key, u);
            }
        }
        i += 1;
    }
    proof {
        assert(keys@.take(n as int) == keys@);
        assert forall|u: CallId| calls@.contains_key(u) == keys@.contains(u) by {
            assert(keys@.to_set().contains(u) == keys@.contains(u));
        }
    }
    found
}

/// Ends all calls that involve a client, and frees the floors that they hold.
fn leave_calls(
    calls: &mut HashMap<CallId, ActiveCall>,
    floor: &mut HashMap<u32, CallId>,
    id: ClientId,
)
    ensures
        final(calls)@ == kept(old(calls)@, |c: ActiveCall| !c.involves(id)),
        final(floor)@ == floor_without(old(floor)@, old(calls)@, id),
{
    let gone = calls_of(calls, id);
    let n = gone.len();
    let ghost calls0 = calls@;
    let ghost floor0 = floor@;
    let mut i: usize = 0;
    assert(floor@ =~= floor_without_calls(floor0, calls0, id, gone@.take(0)));
    while i < n
        invariant
            0 <= i <= n == gone@.len(),
            calls0 == old(calls)@,
            floor0 == old(floor)@,
            forall|u: CallId| #[trigger]
                gone@.contains(u) <==> calls0.contains_key(u) && calls0[u].involves(id),
            forall|u: CallId| #[trigger]
                calls@.contains_key(u) <==> calls0.contains_key(u) && !gone@.take(
                    i as int,
                ).contains(u),
            forall|u: CallId| #[trigger] calls@.contains_key(u) ==> calls@[u] == calls0[u],
            floor@ == floor_without_calls(floor0, calls0, id, gone@.take(i as int)),
        decreases n - i,
    {
        let uuid = gone[i];
        let ghost earlier = gone@.take(i as int);
        let ghost now = gone@.take(i as int + 1);
        let ghost calls_before = calls@;
        proof {
            assert(now == earlier.push(uuid));
            assert(gone@.contains(uuid));
            assert forall|u: CallId| #[trigger] now.contains(u) == (earlier.contains(u) || u
                == uuid) by {
                lemma_push_contains(earlier, uuid, u);
            }
        }
        match calls.remove(&uuid) {
            Some(call) => {
                assert(calls_before.contains_key(uuid));
                assert(call == calls0[uuid]);
                if call.kind == CallKind::Group {
                    let holder: Option<CallId> = match floor.get(&call.destination) {
                        Some(u) => Some(*u),
                        None => None,
                    };
                    if holder == Some(uuid) {
                        floor.remove(&call.destination);
                    }
                }
            },
            None => {},
        }
        proof {
            assert forall|u: CallId| #[trigger] calls@.contains_key(u) implies calls@[u]
                == calls0[u] by {
                assert(calls_before.contains_key(u));
            }
            assert(floor@ =~= floor_without_calls(floor0, calls0, id, now));
        }
        i += 1;
    }
    proof {
        assert(gone@.take(n as int) == gone@);
        assert(calls@ =~= kept(calls0, |c: ActiveCall| !c.involves(id)));
        assert(floor@ =~= floor_without(floor0, calls0, id));
    }
}

impl<T> Default for Inner<T> {
    fn default() -> (r: Self)
        ensures
            r.is_blank(),
    {
        Inner {
            clients: HashMap::new(),
            subscribers: HashMap::new(),
            group_clients: HashMap::new(),
            calls: HashMap::new(),
            group_floor: HashMap::new(),
            sds_routes: HashMap::new(),
            digest_nonces: TextMap::new(),
            auth_sessions: TextMap::new(),
        }
    }
}

impl<T> Inner<T> {
    /// Nothing is known.
    pub open spec fn is_blank(self) -> bool {
        &&& self.clients@ == Map::<ClientId, Client<T>>::empty()
        &&& self.subscribers@ == Map::<u32, Subscriber>::empty()
        &&& self.group_clients@ == Map::<u32, HashSet<ClientId>>::empty()
        &&& self.calls@ == Map::<CallId, ActiveCall>::empty()
        &&& self.group_floor@ == Map::<u32, CallId>::empty()
        &&& self.sds_routes@ == Map::<CallId, SdsRoute>::empty()
        &&& self.digest_nonces@ == Map::<Seq<char>, u128>::empty()
        &&& self.auth_sessions@ == Map::<Seq<char>, u128>::empty()
    }

    /// The client is known nowhere: not as a client, nor as that of a
    /// subscriber, a group, a call or a route.
    pub open spec fn knows_nothing_of(self, id: ClientId) -> bool {
        &&& !self.clients@.contains_key(id)
        &&& forall|issi: u32| #[trigger]
            self.subscribers@.contains_key(issi) ==> self.subscribers@[issi].client_id != id
        &&& forall|g: u32| #[trigger]
            self.group_clients@.contains_key(g) ==> !self.group_clients@[g]@.contains(id)
        &&& forall|u: CallId| #[trigger]
            self.calls@.contains_key(u) ==> !self.calls@[u].involves(id)
        &&& forall|u: CallId| #[trigger]
            self.sds_routes@.contains_key(u) ==> !self.sds_routes@[u].involves(id)
    }

    /// Each floor is held by a group call to its group.
    pub open spec fn floors_held(self) -> bool {
        forall|g: u32| #[trigger]
            self.group_floor@.contains_key(g) ==> {
                &&& self.calls@.contains_key(self.group_floor@[g])
                &&& self.calls@[self.group_floor@[g]].kind == CallKind::Group
                &&& self.calls@[self.group_floor@[g]].destination == g
            }
    }

    /// `self` is what is left of `before` when a client goes.
    pub open spec fn is_without(self, before: Inner<T>, id: ClientId) -> bool {
        &&& self.clients@ == before.clients@.remove(id)
        &&& self.subscribers@ == kept(before.subscribers@, |s: Subscriber| s.client_id != id)
        &&& memberships(self.group_clients@) == memberships_without(
            memberships(before.group_clients@),
            id,
        )
        &&& self.calls@ == kept(before.calls@, |c: ActiveCall| !c.involves(id))
        &&& self.group_floor@ == floor_without(before.group_floor@, before.calls@, id)
        &&& self.sds_routes@ == kept(before.sds_routes@, |r: SdsRoute| !r.involves(id))
        &&& self.digest_nonces@ == before.digest_nonces@
        &&& self.auth_sessions@ == before.auth_sessions@
    }

    /// `self` is what is left of `before` at `now`, with sessions that hold
    /// for `ttl` seconds.
    pub open spec fn is_purged(self, before: Inner<T>, now: u128, ttl: u64) -> bool {
        &&& self.clients@ == before.clients@
        &&& self.subscribers@ == before.subscribers@
        &&& self.group_clients@ == before.group_clients@
        &&& self.calls@ == before.calls@
        &&& self.group_floor@ == before.group_floor@
        &&& self.sds_routes@ == kept(
            before.sds_routes@,
            |r: SdsRoute| fresh(now, r.created_at, SDS_ROUTE_SECONDS),
        )
        &&& self.digest_nonces@ == kept(
            before.digest_nonces@,
            |at: u128| fresh(now, at, NONCE_SECONDS),
        )
        &&& self.auth_sessions@ == kept(before.auth_sessions@, |at: u128| fresh(now, at, ttl))
    }
}

/// The server: its settings, what it knows, and what the dashboard shows.
pub struct AppState<T> {
    pub config: Config,
    pub inner: Inner<T>,
    pub monitor: Monitor,
    pub telemetry: TelemetryState,
}

/// The packet for a client.
#[derive(Debug)]
pub struct Delivery {
    pub client_id: ClientId,
    pub packet: Vec<u8>,
}

impl<T> AppState<T> {
    /// A server that knows nothing yet.
    pub fn new(config: Config) -> (r: Self)
        ensures
            r.config == config,
            r.inner.is_blank(),
            r.monitor@ == MonitorView::blank(),
            r.telemetry@ == Map::<Seq<char>, BtsView>::empty(),
            r.monitor@.consistent(),
            r.telemetry.consistent(),
    {
        AppState {
            config,
            inner: Inner::default(),
            monitor: Monitor::new(),
            telemetry: TelemetryState::default(),
        }
    }

    /// The numbers of clients, subscribers and groups.
    pub fn counts(&self) -> (r: (usize, usize, usize))
        ensures
            r.0 == self.inner.clients@.dom().len(),
            r.1 == self.inner.subscribers@.dom().len(),
            r.2 == self.inner.group_clients@.dom().len(),
    {
        (self.inner.clients.len(), self.inner.subscribers.len(), self.inner.group_clients.len())
    }

    /// Addresses a packet to those of the given clients that are connected,
    /// once each.
    pub fn send_many(&self, clients: &HashSet<ClientId>, packet: &[u8]) -> (r: Vec<Delivery>)
        ensures
            forall|i: int|
                #![trigger r@[i]]
                0 <= i < r@.len() ==> r@[i].packet@ == packet@ && clients@.contains(
                    r@[i].client_id,
                ) && self.inner.clients@.contains_key(r@[i].client_id),
            forall|i: int, j: int| 0 <= i < j < r@.len() ==> r@[i].client_id != r@[j].client_id,
            forall|id: ClientId| #[trigger]
                clients@.contains(id) && self.inner.clients@.contains_key(id) ==> exists|i: int|
                    0 <= i < r@.len() && (#[trigger] r@[i]).client_id == id,
    {
        let ids = set_items(clients);
        let n = ids.len();
        let mut out: Vec<Delivery> = Vec::new();
        let mut i: usize = 0;
        while i < n
            invariant
                0 <= i <= n == ids@.len(),
                ids@.no_duplicates(),
                ids@.to_set() == clients@,
                forall|k: int|
                    #![trigger out@[k]]
                    0 <= k < out@.len() ==> out@[k].packet@ == packet@ && ids@.take(
                        i as int,
                    ).contains(out@[k].client_id) && self.inner.clients@.contains_key(
                        out@[k].client_id,
                    ),
                forall|k: int, l: int|
                    0 <= k < l < out@.len() ==> out@[k].client_id != out@[l].client_id,
                forall|k: int|
                    #![trigger ids@[k]]
                    0 <= k < i && self.inner.clients@.contains_key(ids@[k]) ==> exists|l: int|
                        0 <= l < out@.len() && (#[trigger] out@[l]).client_id == ids@[k],
            decreases n - i,
        {
            let id = ids[i];
            let ghost before = out@;
            let ghost earlier = ids@.take(i as int);
            proof {
                assert(ids@.take(i as int + 1) == earlier.push(id));
                assert forall|x: ClientId| #[trigger]
                    earlier.push(id).contains(x) == (earlier.contains(x) || x == id) by {
                    lemma_push_contains(earlier, id, x);
                }
                assert(!earlier.contains(id)) by {
                    if earlier.contains(id) {
                        let k = choose|k: int| 0 <= k < earlier.len() && earlier[k] == id;
                        assert(ids@[k] == ids@[i as int]);
                    }
                }
            }
            if self.inner.clients.contains_key(&id) {
                let copy = vstd::slice::slice_to_vec(packet);
                out.push(Delivery { client_id: id, packet: copy });
                assert(out@[before.len() as int].client_id == id);
            }
            proof {
                assert forall|k: int|
                    #![trigger ids@[k]]
                    0 <= k < i + 1 && self.inner.clients@.contains_key(ids@[k]) implies exists|
                    l: int,
                |
                    0 <= l < out@.len() && (#[trigger] out@[l]).client_id == ids@[k] by {
                    if k < i {
                        let l = choose|l: int|
                            0 <= l < before.len() && (#[trigger] before[l]).client_id == ids@[k];
                        assert(out@[l].client_id == ids@[k]);
                    }
                }
            }
            i += 1;
        }
        proof {
            assert(ids@.take(n as int) == ids@);
            assert forall|k: int| #![trigger out@[k]] 0 <= k < out@.len() implies clients@.contains(
                out@[k].client_id,
            ) by {
                assert(ids@.contains(out@[k].client_id));
                assert(ids@.to_set().contains(out@[k].client_id));
            }
            assert forall|id: ClientId| #[trigger]
                clients@.contains(id) && self.inner.clients@.contains_key(id) implies exists|
                i: int,
            |
                0 <= i < out@.len() && (#[trigger] out@[i]).client_id == id by {
                assert(ids@.to_set().contains(id));
                let k = choose|k: int| 0 <= k < ids@.len() && ids@[k] == id;
                assert(self.inner.clients@.contains_key(ids@[k]));
            }
        }
        out
    }

    /// Forgets the nonces, sessions and routes that are too old at `now`.
    pub fn purge_ephemeral(&mut self, now: u128)
        ensures
            final(self).inner.is_purged(old(self).inner, now, session_seconds(old(self).config)),
            final(self).config == old(self).config,
            final(self).monitor == old(self).monitor,
            final(self).telemetry == old(self).telemetry,
    {
        let ttl: u64 = if self.config.auth.session_ttl_seconds == 0 {
            1
        } else {
            self.config.auth.session_ttl_seconds
        };
        purge_table(&mut self.inner.digest_nonces, now, NONCE_SECONDS);
        purge_table(&mut self.inner.auth_sessions, now, ttl);
        let keep = |r: &SdsRoute| -> (b: bool)
            ensures
                b == fresh(now, r.created_at, SDS_ROUTE_SECONDS),
            { is_fresh(now, r.created_at, SDS_ROUTE_SECONDS) };
        retain_values(
            &mut self.inner.sds_routes,
            keep,
            Ghost(|r: SdsRoute| fresh(now, r.created_at, SDS_ROUTE_SECONDS)),
        );
    }

    /// Forgets a client that has gone, with its subscribers and memberships,
    /// the calls and routes that involve it, and the floors of those calls.
    pub fn cleanup_client(&mut self, id: ClientId)
        ensures
            final(self).inner.is_without(old(self).inner, id),
            final(self).config == old(self).config,
            final(self).monitor == old(self).monitor,
            final(self).telemetry == old(self).telemetry,
    {
        self.inner.clients.remove(&id);
        let elsewhere = |s: &Subscriber| -> (b: bool)
            ensures
                b == (s.client_id != id),
            { s.client_id != id };
        retain_values(
            &mut self.inner.subscribers,
            elsewhere,
            Ghost(|s: Subscriber| s.client_id != id),
        );
        leave_groups(&mut self.inner.group_clients, id);
        leave_calls(&mut self.inner.calls, &mut self.inner.group_floor, id);
        let apart = |r: &SdsRoute| -> (b: bool)
            ensures
                b == !r.involves(id),
            { r.source_client != id && !r.targets.contains(&id) };
        retain_values(&mut self.inner.sds_routes, apart, Ghost(|r: SdsRoute| !r.involves(id)));
    }
}

/// After a client has gone, nothing points to it any more, and no group is
/// left without members.
pub proof fn law_cleanup_leaves_no_trace<T>(before: Inner<T>, after: Inner<T>, id: ClientId)
    requires
        after.is_without(before, id),
    ensures
        after.knows_nothing_of(id),
        forall|g: u32| #[trigger]
            after.group_clients@.contains_key(g) ==> after.group_clients@[g]@ != Set::<
                ClientId,
            >::empty(),
{
    let left = memberships(after.group_clients@);
    assert forall|g: u32| #[trigger] after.group_clients@.contains_key(g) implies {
        &&& !after.group_clients@[g]@.contains(id)
        &&& after.group_clients@[g]@ != Set::<ClientId>::empty()
    } by {
        assert(left.contains_key(g));
        assert(left[g] == after.group_clients@[g]@);
    }
    assert forall|issi: u32| #[trigger]
        after.subscribers@.contains_key(issi) implies after.subscribers@[issi].client_id != id by {
        assert(kept(before.subscribers@, |s: Subscriber| s.client_id != id).contains_key(issi));
    }
    assert forall|u: CallId| #[trigger]
        after.calls@.contains_key(u) implies !after.calls@[u].involves(id) by {
        assert(kept(before.calls@, |c: ActiveCall| !c.involves(id)).contains_key(u));
    }
    assert forall|u: CallId| #[trigger]
        after.sds_routes@.contains_key(u) implies !after.sds_routes@[u].involves(id) by {
        assert(kept(before.sds_routes@, |r: SdsRoute| !r.involves(id)).contains_key(u));
    }
}

/// The going of a client leaves the others as they are: their connections,
/// their subscribers, their memberships, and the calls and routes among them.
pub proof fn law_cleanup_keeps_others<T>(
    before: Inner<T>,
    after: Inner<T>,
    id: ClientId,
    other: ClientId,
    issi: u32,
    g: u32,
    uuid: CallId,
)
    requires
        after.is_without(before, id),
        other != id,
    ensures
        before.clients@.contains_key(other) <==> after.clients@.contains_key(other),
        before.clients@.contains_key(other) ==> after.clients@[other] == before.clients@[other],
        before.subscribers@.contains_key(issi) && before.subscribers@[issi].client_id == other
            ==> after.subscribers@.contains_key(issi) && after.subscribers@[issi]
            == before.subscribers@[issi],
        before.group_clients@.contains_key(g) && before.group_clients@[g]@.contains(other)
            <==> after.group_clients@.contains_key(g) && after.group_clients@[g]@.contains(other),
        before.calls@.contains_key(uuid) && !before.calls@[uuid].involves(id)
            ==> after.calls@.contains_key(uuid) && after.calls@[uuid] == before.calls@[uuid],
        before.sds_routes@.contains_key(uuid) && !before.sds_routes@[uuid].involves(id)
            ==> after.sds_routes@.contains_key(uuid) && after.sds_routes@[uuid]
            == before.sds_routes@[uuid],
{
    let was = memberships(before.group_clients@);
    let left = memberships(after.group_clients@);
    assert(was.contains_key(g) == before.group_clients@.contains_key(g));
    assert(left.contains_key(g) == after.group_clients@.contains_key(g));
    if before.group_clients@.contains_key(g) && before.group_clients@[g]@.contains(other) {
        assert(was[g].remove(id).contains(other));
        assert(left.contains_key(g));
        assert(left[g] == after.group_clients@[g]@);
    }
    if after.group_clients@.contains_key(g) {
        assert(left[g] == after.group_clients@[g]@);
        assert(was[g] == before.group_clients@[g]@);
    }
}

/// The going of a client keeps every floor with a group call to its group.
pub proof fn law_cleanup_keeps_floors_held<T>(before: Inner<T>, after: Inner<T>, id: ClientId)
    requires
        after.is_without(before, id),
        before.floors_held(),
    ensures
        after.floors_held(),
{
    assert forall|g: u32| #[trigger] after.group_floor@.contains_key(g) implies {
        &&& after.calls@.contains_key(after.group_floor@[g])
        &&& after.calls@[after.group_floor@[g]].kind == CallKind::Group
        &&& after.calls@[after.group_floor@[g]].destination == g
    } by {
        assert(before.group_floor@.contains_key(g));
        assert(!floor_involves(before.group_floor@, before.calls@, id, g));
    }
}

/// A client that has gone cannot go again: nothing more changes.
pub proof fn law_cleanup_once<T>(
    before: Inner<T>,
    once: Inner<T>,
    twice: Inner<T>,
    id: ClientId,
)
    requires
        once.is_without(before, id),
        twice.is_without(once, id),
    ensures
        twice.clients@ == once.clients@,
        twice.subscribers@ == once.subscribers@,
        memberships(twice.group_clients@) == memberships(once.group_clients@),
        twice.calls@ == once.calls@,
        twice.group_floor@ == once.group_floor@,
        twice.sds_routes@ == once.sds_routes@,
        twice.digest_nonces@ == once.digest_nonces@,
        twice.auth_sessions@ == once.auth_sessions@,
{
    law_cleanup_leaves_no_trace(before, once, id);
    assert(twice.clients@ =~= once.clients@);
    assert(twice.subscribers@ =~= once.subscribers@);
    assert forall|g: u32| #[trigger] memberships(once.group_clients@).contains_key(g) implies {
        &&& memberships(once.group_clients@)[g].remove(id) == memberships(once.group_clients@)[g]
        &&& memberships(once.group_clients@)[g] != Set::<ClientId>::empty()
    } by {
        assert(once.group_clients@.contains_key(g));
        assert(memberships(once.group_clients@)[g].remove(id) =~= memberships(
            once.group_clients@,
        )[g]);
    }
    assert(memberships(twice.group_clients@) =~= memberships(once.group_clients@));
    assert(twice.calls@ =~= once.calls@);
    assert(twice.group_floor@ =~= once.group_floor@);
    assert(twice.sds_routes@ =~= once.sds_routes@);
}

/// Two clients may go in either order.
pub proof fn law_cleanup_order_irrelevant<T>(
    before: Inner<T>,
    first: Inner<T>,
    first_then_second: Inner<T>,
    second: Inner<T>,
    second_then_first: Inner<T>,
    a: ClientId,
    b: ClientId,
)
    requires
        first.is_without(before, a),
        first_then_second.is_without(first, b),
        second.is_without(before, b),
        second_then_first.is_without(second, a),
    ensures
        first_then_second.clients@ == second_then_first.clients@,
        first_then_second.subscribers@ == second_then_first.subscribers@,
        memberships(first_then_second.group_clients@) == memberships(
            second_then_first.group_clients@,
        ),
        first_then_second.calls@ == second_then_first.calls@,
        first_then_second.group_floor@ == second_then_first.group_floor@,
        first_then_second.sds_routes@ == second_then_first.sds_routes@,
{
    assert(first_then_second.clients@ =~= second_then_first.clients@);
    assert(first_then_second.subscribers@ =~= second_then_first.subscribers@);
    let was = memberships(before.group_clients@);
    let one = memberships(first_then_second.group_clients@);
    let two = memberships(second_then_first.group_clients@);
    assert forall|g: u32|
        #![trigger one.contains_key(g)]
        #![trigger two.contains_key(g)]
        one.contains_key(g) == two.contains_key(g) && (one.contains_key(g) ==> one[g]
            == two[g]) by {
        let members = was[g];
        assert(members.remove(a).remove(b) =~= members.remove(b).remove(a));
        if members.remove(a) =~= Set::<ClientId>::empty() {
            assert(members.remove(a).remove(b) =~= Set::<ClientId>::empty());
        }
        if members.remove(b) =~= Set::<ClientId>::empty() {
            assert(members.remove(b).remove(a) =~= Set::<ClientId>::empty());
        }
    }
    assert(one =~= two);
    assert(first_then_second.calls@ =~= second_then_first.calls@);
    assert(first_then_second.group_floor@ =~= second_then_first.group_floor@);
    assert(first_then_second.sds_routes@ =~= second_then_first.sds_routes@);
}

/// What has become too old stays too old.
pub proof fn law_age_only_grows(now: u128, later: u128, at: u128, seconds: u64)
    requires
        now <= later,
        !fresh(now, at, seconds),
    ensures
        !fresh(later, at, seconds),
{
}

/// Purging now and again later leaves what purging later alone leaves.
pub proof fn law_purge_again<T>(
    before: Inner<T>,
    soon: Inner<T>,
    both: Inner<T>,
    late: Inner<T>,
    now: u128,
    later: u128,
    ttl: u64,
)
    requires
        now <= later,
        soon.is_purged(before, now, ttl),
        both.is_purged(soon, later, ttl),
        late.is_purged(before, later, ttl),
    ensures
        both.is_purged(before, later, ttl),
        both.sds_routes@ == late.sds_routes@,
        both.digest_nonces@ == late.digest_nonces@,
        both.auth_sessions@ == late.auth_sessions@,
{
    assert(both.sds_routes@ =~= late.sds_routes@);
    assert(both.digest_nonces@ =~= late.digest_nonces@);
    assert(both.auth_sessions@ =~= late.auth_sessions@);
}

/// After a purge there are exactly the short message routes that were there
/// before and are less than sixty seconds old, whoever sent the message and
/// whoever gets it. What comes from the future has no age.
pub proof fn law_purge_routes<T>(
    before: Inner<T>,
    after: Inner<T>,
    now: u128,
    ttl: u64,
    uuid: CallId,
)
    requires
        after.is_purged(before, now, ttl),
    ensures
        after.sds_routes@.contains_key(uuid) <==> before.sds_routes@.contains_key(uuid) && now
            - before.sds_routes@[uuid].created_at < 60_000_000_000,
        after.sds_routes@.contains_key(uuid) ==> after.sds_routes@[uuid]
            == before.sds_routes@[uuid],
{
}

/// After a purge there are exactly the nonces that are less than two minutes
/// old and the sessions that are younger than their time to live, with the
/// moments at which they came up.
pub proof fn law_purge_tokens<T>(
    before: Inner<T>,
    after: Inner<T>,
    now: u128,
    ttl: u64,
    token: Seq<char>,
)
    requires
        after.is_purged(before, now, ttl),
        ttl >= 1,
    ensures
        after.digest_nonces@.contains_key(token) <==> before.digest_nonces@.contains_key(token)
            && now - before.digest_nonces@[token] < 120_000_000_000,
        after.digest_nonces@.contains_key(token) ==> after.digest_nonces@[token]
            == before.digest_nonces@[token],
        after.auth_sessions@.contains_key(token) <==> before.auth_sessions@.contains_key(token)
            && now - before.auth_sessions@[token] < ttl * 1_000_000_000,
        after.auth_sessions@.contains_key(token) ==> after.auth_sessions@[token]
            == before.auth_sessions@[token],
{
}

/// A purge touches nothing but routes, nonces and sessions.
pub proof fn law_purge_keeps_the_rest<T>(before: Inner<T>, after: Inner<T>, now: u128, ttl: u64)
    requires
        after.is_purged(before, now, ttl),
    ensures
        after.clients@ == before.clients@,
        after.subscribers@ == before.subscribers@,
        after.group_clients@ == before.group_clients@,
        after.calls@ == before.calls@,
        after.group_floor@ == before.group_floor@,
{
}

/// Sessions live as long as is configured, and at least one second.
pub proof fn law_session_seconds(config: Config)
    ensures
        session_seconds(config) >= 1,
        config.auth.session_ttl_seconds >= 1 ==> session_seconds(config)
            == config.auth.session_ttl_seconds,
        config.auth.session_ttl_seconds == 0 ==> session_seconds(config) == 1,
{
}

/// When a client goes, exactly its own connection, its own subscribers and its
/// own memberships go; a group stays exactly where it has another member.
pub proof fn law_cleanup_clients<T>(
    before: Inner<T>,
    after: Inner<T>,
    id: ClientId,
    member: ClientId,
    issi: u32,
    g: u32,
)
    requires
        after.is_without(before, id),
    ensures
        after.clients@.contains_key(member) <==> before.clients@.contains_key(member) && member
            != id,
        after.clients@.contains_key(member) ==> after.clients@[member] == before.clients@[member],
        after.subscribers@.contains_key(issi) <==> before.subscribers@.contains_key(issi)
            && before.subscribers@[issi].client_id != id,
        after.subscribers@.contains_key(issi) ==> after.subscribers@[issi]
            == before.subscribers@[issi],
        after.group_clients@.contains_key(g) <==> before.group_clients@.contains_key(g) && exists|
            other: ClientId,
        | #[trigger] before.group_clients@[g]@.contains(other) && other != id,
        after.group_clients@.contains_key(g) ==> (after.group_clients@[g]@.contains(member)
            <==> before.group_clients@[g]@.contains(member) && member != id),
{
    let was = memberships(before.group_clients@);
    let left = memberships(after.group_clients@);
    assert(was.contains_key(g) == before.group_clients@.contains_key(g));
    assert(left.contains_key(g) == after.group_clients@.contains_key(g));
    if before.group_clients@.contains_key(g) {
        let members = before.group_clients@[g]@;
        assert(was[g] == members);
        if exists|other: ClientId| #[trigger] members.contains(other) && other != id {
            let other = choose|other: ClientId| #[trigger] members.contains(other) && other != id;
            assert(members.remove(id).contains(other));
        } else {
            assert(members.remove(id) =~= Set::<ClientId>::empty());
        }
        if members.remove(id) != Set::<ClientId>::empty() {
            assert(exists|other: ClientId| #[trigger] members.contains(other) && other != id) by {
                if !exists|other: ClientId| #[trigger] members.contains(other) && other != id {
                    assert(members.remove(id) =~= Set::<ClientId>::empty());
                }
            }
        }
    }
    if left.contains_key(g) {
        assert(left[g] == after.group_clients@[g]@);
    }
}

/// When a client goes, exactly the calls that it owns or takes part in and the
/// routes of messages that it sent or gets go, and the floors that those calls
/// hold as group calls to the floor's group.
pub proof fn law_cleanup_calls<T>(
    before: Inner<T>,
    after: Inner<T>,
    id: ClientId,
    uuid: CallId,
    g: u32,
)
    requires
        after.is_without(before, id),
    ensures
        after.calls@.contains_key(uuid) <==> before.calls@.contains_key(uuid)
            && before.calls@[uuid].owner != id && !before.calls@[uuid].peers@.contains(id),
        after.calls@.contains_key(uuid) ==> after.calls@[uuid] == before.calls@[uuid],
        after.sds_routes@.contains_key(uuid) <==> before.sds_routes@.contains_key(uuid)
            && before.sds_routes@[uuid].source_client != id
            && !before.sds_routes@[uuid].targets@.contains(id),
        after.sds_routes@.contains_key(uuid) ==> after.sds_routes@[uuid]
            == before.sds_routes@[uuid],
        after.group_floor@.contains_key(g) <==> before.group_floor@.contains_key(g) && !({
            let holder = before.group_floor@[g];
            &&& before.calls@.contains_key(holder)
            &&& before.calls@[holder].kind == CallKind::Group
            &&& before.calls@[holder].destination == g
            &&& before.calls@[holder].owner == id || before.calls@[holder].peers@.contains(id)
        }),
        after.group_floor@.contains_key(g) ==> after.group_floor@[g] == before.group_floor@[g],
        after.digest_nonces@ == before.digest_nonces@,
        after.auth_sessions@ == before.auth_sessions@,
{
}

/// A server that knows nothing has no entry anywhere.
pub proof fn law_blank<T>(inner: Inner<T>, id: u128, number: u32, token: Seq<char>)
    requires
        inner.is_blank(),
    ensures
        !inner.clients@.contains_key(id),
        !inner.subscribers@.contains_key(number),
        !inner.group_clients@.contains_key(number),
        !inner.calls@.contains_key(id),
        !inner.group_floor@.contains_key(number),
        !inner.sds_routes@.contains_key(id),
        !inner.digest_nonces@.contains_key(token),
        !inner.auth_sessions@.contains_key(token),
{
}

} // verus!
