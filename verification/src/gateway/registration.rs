//! Source registration: each input's Open Live source is found by the id that was kept,
//! brought up to date, and created only where there is none. Keeping the id is what
//! stops every reboot from leaving another orphaned source behind.

use crate::gateway::config::{GatewayConfig, InputConfig};
use crate::gateway::identity::PersistedState;
use crate::gateway::state::SharedState;
use crate::gateway::status::{InputState, InputStatus};
use crate::openlive::SourcePayload;
use crate::text::same_text;
use vstd::prelude::*;

verus! {

/// A source as Open Live answers with it.
#[derive(Debug)]
pub struct SourceResponse {
    pub id: String,
    pub name: String,
    /// Returned with any passphrase masked, which is why the gateway treats its own
    /// settings as the source of truth and never reads the passphrase back.
    pub address: String,
    pub stream_type: String,
    pub status: String,
    pub latency: Option<u32>,
}

/// What registration cannot do without.
#[derive(Clone, Copy, Debug, PartialEq, Eq, Structural)]
pub enum Missing {
    Url,
    ApiKey,
}

impl Missing {
    pub fn message(self) -> (r: String)
        ensures
            r@ == (match self {
                Missing::Url => "open_live.url is unset"@,
                Missing::ApiKey => "open_live.api_key is unset"@,
            }),
    {
        match self {
            Missing::Url => "open_live.url is unset".to_owned(),
            Missing::ApiKey => "open_live.api_key is unset".to_owned(),
        }
    }
}

/// Where to register, and with which key.
pub fn registration_target(cfg: &GatewayConfig) -> (r: Result<(String, String), Missing>)
    ensures
        match (cfg.open_live.url, cfg.open_live.api_key) {
            (None, _) => r == Err::<(String, String), Missing>(Missing::Url),
            (Some(_), None) => r == Err::<(String, String), Missing>(Missing::ApiKey),
            (Some(url), Some(key)) => r == Ok::<(String, String), Missing>((url, key)),
        },
{
    let url = match &cfg.open_live.url {
        Some(url) => url.clone(),
        None => return Err(Missing::Url),
    };
    let key = match &cfg.open_live.api_key {
        Some(key) => key.clone(),
        None => return Err(Missing::ApiKey),
    };
    Ok((url, key))
}

/// Whether an input's source shows as active: only where its status is known, and
/// active.
pub open spec fn shows_active(status: Option<InputStatus>) -> bool {
    status matches Some(s) && s.state.active()
}

/// The source an input should have.
pub fn payload_for(state: &SharedState, input: &InputConfig, gateway_name: &str) -> (r:
    SourcePayload)
    requires
        state.wf(),
    ensures
        r.describes(
            input.registered_name(gateway_name@),
            input.uplink.cloud_address(),
            shows_active(state.status(input.id@)),
            input.uplink.latency_ms,
        ),
{
    let active = match state.state_of(input.id.as_str()) {
        Some(s) => s.is_active(),
        None => false,
    };
    let name = input.source_name(gateway_name);
    let address = input.uplink.cloud_uri();
    SourcePayload::new(name.as_str(), address.as_str(), active, input.uplink.latency_ms)
}

/// What is done about an input's source.
#[derive(Debug)]
pub enum SourcePlan {
    Patch(String),
    Create,
}

pub open spec fn has_source(sources: Seq<SourceResponse>, id: Seq<char>) -> bool {
    exists|i: int| 0 <= i < sources.len() && (#[trigger] sources[i]).id@ == id
}

/// A source whose id was kept is brought up to date as long as Open Live lists it. One
/// that was deleted in Studio since is created afresh rather than failing forever on a
/// dead id.
pub fn plan_source(persisted: &PersistedState, input_id: &str, listed: &Vec<SourceResponse>) -> (r:
    SourcePlan)
    ensures
        if persisted.source_ids@.contains_key(input_id@) && has_source(
            listed@,
            persisted.source_ids@[input_id@]@,
        ) {
            r == SourcePlan::Patch(persisted.source_ids@[input_id@])
        } else {
            r is Create
        },
{
    let known = match persisted.source_ids.get(input_id) {
        Some(id) => id,
        None => return SourcePlan::Create,
    };
    let mut i: usize = 0;
    while i < listed.len()
        invariant
            i <= listed@.len(),
            persisted.source_ids@.contains_key(input_id@),
            *known == persisted.source_ids@[input_id@],
            forall|j: int| 0 <= j < i ==> (#[trigger] listed@[j]).id@ != known@,
        decreases listed@.len() - i,
    {
        if same_text(listed[i].id.as_str(), known.as_str()) {
            return SourcePlan::Patch(known.clone());
        }
        i = i + 1;
    }
    SourcePlan::Create
}

/// Keeps the id of an input's source. Says whether what is kept changed and has to be
/// stored; the id is shown only once it is.
pub fn keep_source(persisted: &mut PersistedState, input_id: &str, source_id: &String) -> (r: bool)
    ensures
        r == !(old(persisted).source_ids@.contains_key(input_id@)
            && old(persisted).source_ids@[input_id@]@ == source_id@),
        !r ==> *final(persisted) == *old(persisted),
        r ==> final(persisted).source_ids@ == old(persisted).source_ids@.insert(
            input_id@,
            *source_id,
        ),
        final(persisted).started == old(persisted).started,
        final(persisted).strom_pid == old(persisted).strom_pid,
{
    let known = match persisted.source_ids.get(input_id) {
        Some(id) => same_text(id.as_str(), source_id.as_str()),
        None => false,
    };
    if known {
        return false;
    }
    persisted.source_ids.insert(input_id, source_id.clone());
    true
}

/// The id of the source to delete for an input, taken off the record.
pub fn take_source(persisted: &mut PersistedState, input_id: &str) -> (r: Option<String>)
    ensures
        match r {
            Some(id) => old(persisted).source_ids@.contains_key(input_id@) && id
                == old(persisted).source_ids@[input_id@],
            None => !old(persisted).source_ids@.contains_key(input_id@),
        },
        final(persisted).source_ids@ == old(persisted).source_ids@.remove(input_id@),
        final(persisted).started == old(persisted).started,
        final(persisted).strom_pid == old(persisted).strom_pid,
{
    let id = match persisted.source_ids.get(input_id) {
        Some(id) => Some(id.clone()),
        None => None,
    };
    persisted.source_ids.remove(input_id);
    id
}

/// A restart creates no second source: once a source's id is kept and Open Live lists
/// it, the next pass brings that source up to date.
pub proof fn law_a_registered_source_is_found_again(
    before: PersistedState,
    after: PersistedState,
    input_id: Seq<char>,
    source: SourceResponse,
    listed: Seq<SourceResponse>,
    i: int,
)
    requires
        after.source_ids@ == before.source_ids@.insert(input_id, source.id),
        0 <= i < listed.len(),
        listed[i] == source,
    ensures
        after.source_ids@.contains_key(input_id),
        has_source(listed, after.source_ids@[input_id]@),
{
}

/// A source is shown active exactly when its input is known and runs, or nothing is known
/// of how it does.
pub proof fn law_a_source_is_shown_active_with_its_input(status: Option<InputStatus>)
    ensures
        shows_active(status) <==> status is Some && (status->0.state == InputState::Running
            || status->0.state == InputState::Unknown),
{
}

/// A source is there exactly when one with its id is listed.
pub proof fn law_a_listed_source_is_there(sources: Seq<SourceResponse>, id: Seq<char>, k: int)
    ensures
        0 <= k < sources.len() ==> has_source(sources, sources[k].id@),
        (forall|i: int| 0 <= i < sources.len() ==> (#[trigger] sources[i]).id@ != id)
            ==> !has_source(sources, id),
{
}

} // verus!
