//! Gateway identity, and what one run leaves for the next: which input has which Open
//! Live source, what was started, and which Strom is ours. Without it every restart
//! would create a duplicate source.

use crate::config::hostname;
use crate::gateway::book::{ascending, listed, Book};
use crate::gateway::config::GatewayConfig;
use crate::text::{nonempty, opt_text};
use vstd::prelude::*;

verus! {

/// What is kept between runs.
#[derive(Debug)]
pub struct PersistedState {
    /// Local input id to Open Live source id.
    pub source_ids: Book<String>,
    /// What the last run started, by input id. Kept apart from registration: status and
    /// teardown have to work when registration is off, and after a hard kill.
    pub started: Book<StartedInput>,
    /// The pid of a Strom this gateway started. An adopted Strom is never recorded, and
    /// so never stopped.
    pub strom_pid: Option<u32>,
}

/// Enough about a started input to report on it and to tear it down.
#[derive(Debug)]
pub struct StartedInput {
    pub device_name: String,
    pub port: u16,
}

impl Default for PersistedState {
    fn default() -> (r: Self)
        ensures
            r.source_ids@ == Map::<Seq<char>, String>::empty(),
            r.started@ == Map::<Seq<char>, StartedInput>::empty(),
            r.strom_pid is None,
    {
        PersistedState { source_ids: Book::new(), started: Book::new(), strom_pid: None }
    }
}

/// The configured id unless it is empty, else the host's name, else a fixed one.
pub open spec fn resolved_id(id: Option<Seq<char>>, host: Option<Seq<char>>) -> Seq<char> {
    match id {
        Some(id) => id,
        None => match host {
            Some(h) => h,
            None => "open-live-gateway"@,
        },
    }
}

/// The gateway's id on a host of a given name.
pub fn gateway_id_on(cfg: &GatewayConfig, host: Option<String>) -> (r: String)
    ensures
        r@ == resolved_id(nonempty(cfg.gateway.id), opt_text(host)),
{
    if let Some(id) = &cfg.gateway.id {
        if !id.as_str().is_empty() {
            return id.clone();
        }
    }
    match host {
        Some(h) => h,
        None => "open-live-gateway".to_owned(),
    }
}

/// The gateway's id on this host.
pub fn resolve_gateway_id(cfg: &GatewayConfig) -> (r: String)
    ensures
        exists|host: Option<Seq<char>>|
            r@ == #[trigger] resolved_id(nonempty(cfg.gateway.id), host),
{
    let host = hostname();
    let ghost h = opt_text(host);
    let r = gateway_id_on(cfg, host);
    assert(r@ == resolved_id(nonempty(cfg.gateway.id), h));
    r
}

/// Records that an input was started.
pub fn record_started(state: &mut PersistedState, input_id: &str, device_name: &String, port: u16)
    ensures
        final(state).started@ == old(state).started@.insert(
            input_id@,
            StartedInput { device_name: *device_name, port },
        ),
        final(state).source_ids == old(state).source_ids,
        final(state).strom_pid == old(state).strom_pid,
{
    state.started.insert(input_id, StartedInput { device_name: device_name.clone(), port });
}

/// Forgets a torn-down input, and the source that went with it.
pub fn forget_started(state: &mut PersistedState, input_id: &str)
    ensures
        final(state).started@ == old(state).started@.remove(input_id@),
        final(state).source_ids@ == old(state).source_ids@.remove(input_id@),
        final(state).strom_pid == old(state).strom_pid,
{
    state.started.remove(input_id);
    state.source_ids.remove(input_id);
}

/// Records the pid of a Strom we started.
pub fn record_strom_pid(state: &mut PersistedState, pid: u32)
    ensures
        final(state).started == old(state).started,
        final(state).source_ids == old(state).source_ids,
        final(state).strom_pid == Some(pid),
{
    state.strom_pid = Some(pid);
}

/// Forgets a Strom, once it has been stopped.
pub fn forget_strom_pid(state: &mut PersistedState)
    ensures
        final(state).started == old(state).started,
        final(state).source_ids == old(state).source_ids,
        final(state).strom_pid is None,
{
    state.strom_pid = None;
}

/// An input that any run recorded, whether or not it reached Open Live.
pub open spec fn is_recorded(state: PersistedState, id: Seq<char>) -> bool {
    state.started@.contains_key(id) || state.source_ids@.contains_key(id)
}

/// Every recorded input, in order.
pub fn recorded_inputs(state: &PersistedState) -> (r: Vec<String>)
    ensures
        ascending(r@),
        forall|id: Seq<char>| #[trigger] listed(r@, id) <==> is_recorded(*state, id),
{
    let mut ids: Vec<String> = Vec::new();
    state.started.list_names(&mut ids);
    state.source_ids.list_names(&mut ids);
    ids
}

/// What was started is found again, and what was torn down is not, whatever else is on
/// record: recording an input lists it, forgetting it unlists it, and neither touches
/// any other.
pub proof fn law_what_is_started_is_found_until_it_is_forgotten(
    before: PersistedState,
    started: PersistedState,
    forgotten: PersistedState,
    id: Seq<char>,
    entry: StartedInput,
)
    requires
        started.started@ == before.started@.insert(id, entry),
        started.source_ids@ == before.source_ids@,
        forgotten.started@ == started.started@.remove(id),
        forgotten.source_ids@ == started.source_ids@.remove(id),
    ensures
        is_recorded(started, id),
        !is_recorded(forgotten, id),
        forall|other: Seq<char>|
            other != id ==> #[trigger] is_recorded(started, other) == is_recorded(before, other)
                && is_recorded(forgotten, other) == is_recorded(before, other),
{
}

/// The id that was set names the gateway; without one the host does.
pub proof fn law_a_set_id_names_the_gateway(
    id: Seq<char>,
    host: Seq<char>,
    any: Option<Seq<char>>,
)
    ensures
        resolved_id(Some(id), any) == id,
        resolved_id(None, Some(host)) == host,
        resolved_id(None, None) == "open-live-gateway"@,
{
}

/// An input is on record exactly when it was started or has a source.
pub proof fn law_what_was_started_or_registered_is_on_record(state: PersistedState, id: Seq<char>)
    ensures
        is_recorded(state, id) <==> state.started@.contains_key(id)
            || state.source_ids@.contains_key(id),
{
}

} // verus!
