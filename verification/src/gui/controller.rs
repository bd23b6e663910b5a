//! What the app's commands do: scanning for devices, starting one, stopping one, and
//! what the window then shows.

use crate::config::parsed_range;
use crate::flow::id_of_device;
use crate::gateway::book::Book;
use crate::gateway::config::{GatewayConfig, InputConfig};
use crate::gateway::session::{
    allocate_port, captures, claimed, input_for_device, input_id_for_device, ports_in_config,
    ActiveInput, CaptureDevice, PortError,
};
use crate::text::opt_text;
use std::collections::BTreeSet;
use vstd::prelude::*;

verus! {

/// What the window asks for.
#[derive(Debug)]
pub enum Cmd {
    Rescan,
    Start(CaptureDevice),
    Stop(String),
    /// Settings were saved: what starts from now on goes by them.
    Reconfigure(Box<GatewayConfig>),
    /// Stop everything, so that the window can close cleanly.
    Shutdown,
}

/// What the window shows beside the status of the inputs.
#[derive(Debug)]
pub struct UiState {
    pub devices: Vec<CaptureDevice>,
    /// By input id.
    pub active: Book<ActiveView>,
    pub strom_reachable: bool,
    pub last_error: Option<String>,
    pub busy: bool,
}

/// A device that streams, and its registered address.
#[derive(Debug)]
pub struct ActiveView {
    pub label: String,
    pub listener_address: String,
}

impl Default for UiState {
    fn default() -> (r: Self)
        ensures
            r.devices@.len() == 0,
            r.active@ == Map::<Seq<char>, ActiveView>::empty(),
            !r.strom_reachable,
            r.last_error is None,
            !r.busy,
    {
        UiState {
            devices: Vec::new(),
            active: Book::new(),
            strom_reachable: false,
            last_error: None,
            busy: false,
        }
    }
}

impl UiState {
    /// A scan came back. One that failed keeps the devices seen before.
    pub fn on_scan(&mut self, found: Result<Vec<CaptureDevice>, String>)
        ensures
            !final(self).busy,
            final(self).active == old(self).active,
            match found {
                Ok(devices) => final(self).devices == devices && final(self).strom_reachable
                    && final(self).last_error is None,
                Err(e) => final(self).devices == old(self).devices && !final(self).strom_reachable
                    && opt_text(final(self).last_error) == Some("Strom unreachable: "@ + e@),
            },
    {
        match found {
            Ok(devices) => {
                self.devices = devices;
                self.strom_reachable = true;
                self.last_error = None;
            },
            Err(e) => {
                self.strom_reachable = false;
                self.last_error = Some("Strom unreachable: ".to_owned().concat(e.as_str()));
            },
        }
        self.busy = false;
    }

    /// An input was started.
    pub fn on_started(&mut self, active: &ActiveInput)
        ensures
            !final(self).busy,
            final(self).last_error is None,
            final(self).devices == old(self).devices,
            final(self).strom_reachable == old(self).strom_reachable,
            exists|shown: ActiveView|
                #[trigger] old(self).active@.insert(active.input.id@, shown)
                    == final(self).active@ && shown.label == (match active.input.name {
                    Some(name) => name,
                    None => active.input.id,
                }) && shown.listener_address@ == active.input.uplink.cloud_address(),
    {
        let view = active.view();
        let shown = ActiveView { label: view.label, listener_address: view.listener_address };
        let ghost s = shown;
        self.active.insert(active.input.id.as_str(), shown);
        assert(old(self).active@.insert(active.input.id@, s) == self.active@);
        self.last_error = None;
        self.busy = false;
    }

    /// An input was stopped.
    pub fn on_stopped(&mut self, input_id: &str)
        ensures
            !final(self).busy,
            final(self).active@ == old(self).active@.remove(input_id@),
            final(self).devices == old(self).devices,
            final(self).strom_reachable == old(self).strom_reachable,
            final(self).last_error == old(self).last_error,
    {
        self.active.remove(input_id);
        self.busy = false;
    }

    /// A command failed.
    pub fn fail(&mut self, err: &String)
        ensures
            *final(self) == (UiState { last_error: Some(*err), ..*old(self) }),
    {
        self.last_error = Some(err.clone());
    }

    pub fn set_busy(&mut self, busy: bool)
        ensures
            *final(self) == (UiState { busy, ..*old(self) }),
    {
        self.busy = busy;
    }
}

/// A port that an active input streams on.
pub open spec fn streamed(active: Seq<(String, ActiveInput)>, port: u16) -> bool {
    exists|i: int| 0 <= i < active.len() && (#[trigger] active[i]).1.input.uplink.port == port
}

/// A port that must not be handed out again.
pub open spec fn in_use(cfg: GatewayConfig, active: Seq<(String, ActiveInput)>, port: u16) -> bool {
    claimed(cfg.inputs@, port) || streamed(active, port)
}

/// The ports that declared inputs claim or active ones stream on.
pub fn ports_in_use(cfg: &GatewayConfig, active: &Book<ActiveInput>) -> (r: BTreeSet<u16>)
    ensures
        forall|port: u16| #[trigger]
            r@.contains(port) <==> in_use(*cfg, active.entries@, port),
{
    broadcast use vstd::std_specs::btree::group_btree_axioms;

    let mut taken = ports_in_config(cfg);
    let entries = &active.entries;
    let ghost declared = taken@;
    let mut i: usize = 0;
    while i < entries.len()
        invariant
            i <= entries@.len(),
            entries == &active.entries,
            forall|port: u16| #[trigger] declared.contains(port) <==> claimed(cfg.inputs@, port),
            forall|port: u16| #[trigger]
                taken@.contains(port) <==> declared.contains(port) || streamed(
                    entries@.subrange(0, i as int),
                    port,
                ),
        decreases entries@.len() - i,
    {
        let ghost upto = entries@.subrange(0, i as int);
        let ghost next = entries@.subrange(0, i + 1);
        let ghost before = taken@;
        taken.insert(entries[i].1.input.uplink.port);
        proof {
            assert forall|port: u16| #[trigger] taken@.contains(port) <==> declared.contains(port)
                || streamed(next, port) by {
                assert(taken@.contains(port) <==> before.contains(port) || port
                    == entries@[i as int].1.input.uplink.port);
                if streamed(upto, port) {
                    let j = choose|j: int|
                        0 <= j < upto.len() && (#[trigger] upto[j]).1.input.uplink.port == port;
                    assert(next[j].1.input.uplink.port == port);
                }
                if streamed(next, port) {
                    let j = choose|j: int|
                        0 <= j < next.len() && (#[trigger] next[j]).1.input.uplink.port == port;
                    if j < i {
                        assert(upto[j].1.input.uplink.port == port);
                    }
                }
                assert(next[i as int] == entries@[i as int]);
            }
        }
        i = i + 1;
    }
    assert(entries@.subrange(0, entries@.len() as int) =~= entries@);
    taken
}

/// What starting a device comes to.
#[derive(Debug)]
pub enum StartPlan {
    /// It streams already.
    Nothing,
    Start(InputConfig),
    Refuse(PortError),
}

/// The input that a chosen device becomes, on a port that nothing else uses. A device
/// that streams already is left as it is.
pub fn plan_start(
    cfg: &GatewayConfig,
    active: &Book<ActiveInput>,
    device: &CaptureDevice,
    cloud_host: &str,
) -> (r: StartPlan)
    ensures
        active@.contains_key(id_of_device(device.id@)) <==> r is Nothing,
        !(r is Nothing) ==> match parsed_range(cfg.app.uplink.port_range@) {
            Err(fault) => r matches StartPlan::Refuse(e) && (e matches PortError::Range(c) && c@
                == fault),
            Ok(range) => match r {
                StartPlan::Start(input) => {
                    &&& captures(
                        input,
                        cfg.app,
                        *device,
                        input.uplink.port,
                        cloud_host@,
                        cfg.gateway.name@,
                    )
                    &&& range.has(input.uplink.port as int)
                    &&& !in_use(*cfg, active.entries@, input.uplink.port)
                    &&& forall|p: int|
                        range.first <= p < input.uplink.port ==> in_use(
                            *cfg,
                            active.entries@,
                            #[trigger] (p as u16),
                        )
                },
                StartPlan::Refuse(e) => {
                    &&& e matches PortError::Exhausted { range: text } && text@
                        == cfg.app.uplink.port_range@
                    &&& forall|p: int|
                        range.has(p) ==> in_use(*cfg, active.entries@, #[trigger] (p as u16))
                },
                StartPlan::Nothing => true,
            },
        },
{
    let id = input_id_for_device(device.id.as_str());
    if active.get(id.as_str()).is_some() {
        return StartPlan::Nothing;
    }
    let taken = ports_in_use(cfg, active);
    proof {
        if let Ok(range) = parsed_range(cfg.app.uplink.port_range@) {
            crate::gateway::session::law_the_lowest_free_port_is_allocated(
                range.first as int,
                range.last as int,
                taken@,
            );
        }
    }
    match allocate_port(&cfg.app.uplink, &taken) {
        Ok(port) => StartPlan::Start(
            input_for_device(&cfg.app, device, port, cloud_host, cfg.gateway.name.as_str()),
        ),
        Err(e) => StartPlan::Refuse(e),
    }
}

/// A port is in use exactly when an input is declared on it or a device streams on it.
pub proof fn law_a_port_in_use_is_declared_or_streamed(
    cfg: GatewayConfig,
    active: Seq<(String, ActiveInput)>,
    port: u16,
)
    ensures
        in_use(cfg, active, port) <==> (exists|i: int|
            0 <= i < cfg.inputs@.len() && (#[trigger] cfg.inputs@[i]).uplink.port == port) || (
        exists|i: int|
            0 <= i < active.len() && (#[trigger] active[i]).1.input.uplink.port == port),
{
}

} // verus!
