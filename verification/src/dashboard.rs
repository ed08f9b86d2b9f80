//! What the web dashboard shows.
use crate::monitor::Snapshot;
use crate::state::AppState;
use crate::telemetry::{shows_stations, TelemetryBts};
use vstd::prelude::*;

verus! {

/// The state of the network: clients, subscribers and groups in numbers, calls
/// and short messages in lists.
pub fn snapshot<T>(state: &AppState<T>) -> (r: Snapshot)
    requires
        state.monitor@.consistent(),
    ensures
        r.connected_bluestations == state.inner.clients@.dom().len(),
        r.subscribers == state.inner.subscribers@.dom().len(),
        r.groups == state.inner.group_clients@.dom().len(),
        r.shows(state.monitor@),
{
    let counts = state.counts();
    state.monitor.snapshot(counts.0, counts.1, counts.2)
}

/// The pictures of all stations that send telemetry.
pub fn telemetry_snapshot<T>(state: &AppState<T>) -> (r: Vec<TelemetryBts>)
    requires
        state.telemetry.consistent(),
    ensures
        shows_stations(r@, state.telemetry@),
{
    state.telemetry.snapshot()
}

} // verus!
