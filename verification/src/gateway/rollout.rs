//! Chosen devices being brought up one after the other, each on a port of its own.

use crate::config::parsed_range;
use crate::devices::Device;
use crate::flow::id_of_device;
use crate::gateway::book::Book;
use crate::gateway::config::{GatewayConfig, InputConfig};
use crate::gateway::session::{
    allocate_port, captures, claimed, input_for_device, law_the_lowest_free_port_is_allocated,
    lowest_free, ports_in_config, ActiveInput, CaptureDevice, PortError,
};
use crate::text::copy_opt;
use std::collections::BTreeSet;
use vstd::prelude::*;

verus! {

#[derive(Debug)]
pub struct Rollout {
    pub devices: Vec<Device>,
    /// How many were tried.
    pub tried: usize,
    /// Ports that must not be handed out again.
    pub taken: BTreeSet<u16>,
    /// What streams, by input id.
    pub active: Book<ActiveInput>,
}

/// A chosen device as one to capture from.
pub open spec fn as_capture(d: Device) -> CaptureDevice {
    CaptureDevice { id: d.id, display_name: d.name, provider: d.provider }
}

impl Rollout {
    pub open spec fn wf(&self) -> bool {
        self.tried <= self.devices@.len()
    }

    /// The ports that declared inputs claim are taken from the start. Without a device
    /// there is nothing to bring up.
    pub fn new(cfg: &GatewayConfig, devices: Vec<Device>) -> (r: Result<Rollout, String>)
        ensures
            match r {
                Ok(rollout) => {
                    &&& devices@.len() > 0
                    &&& rollout.wf()
                    &&& rollout.devices == devices
                    &&& rollout.tried == 0
                    &&& forall|port: u16| #[trigger]
                        rollout.taken@.contains(port) <==> claimed(cfg.inputs@, port)
                    &&& rollout.active@ == Map::<Seq<char>, ActiveInput>::empty()
                },
                Err(e) => devices@.len() == 0 && e@
                    == "Strom reports no capture devices (virtual ones are skipped; --all includes them)"@,
            },
    {
        if devices.len() == 0 {
            return Err(
                "Strom reports no capture devices (virtual ones are skipped; --all includes them)".to_owned(),
            );
        }
        Ok(Rollout { devices, tried: 0, taken: ports_in_config(cfg), active: Book::new() })
    }

    /// The port for the next device came from the range and is taken from now on, whether
    /// or not the device can be started.
    pub open spec fn offered(
        &self,
        after: Rollout,
        cfg: GatewayConfig,
        cloud_host: Seq<char>,
        input: InputConfig,
    ) -> bool {
        let port = input.uplink.port;
        &&& self.tried < self.devices@.len()
        &&& captures(
            input,
            cfg.app,
            as_capture(self.devices@[self.tried as int]),
            port,
            cloud_host,
            cfg.gateway.name@,
        )
        &&& parsed_range(cfg.app.uplink.port_range@) matches Ok(range) && lowest_free(
            range.first as int,
            range.last as int,
            self.taken@,
        ) == Some(port as int)
        &&& after.taken@ == self.taken@.insert(port)
        &&& after.tried == self.tried + 1
        &&& after.devices == self.devices
        &&& after.active == self.active
    }

    /// The input for the next device, as long as there is one.
    pub fn next_input(&mut self, cfg: &GatewayConfig, cloud_host: &str) -> (r: Result<
        Option<InputConfig>,
        PortError,
    >)
        requires
            old(self).wf(),
        ensures
            final(self).wf(),
            match r {
                Ok(None) => old(self).tried == old(self).devices@.len() && *final(self)
                    == *old(self),
                Ok(Some(input)) => old(self).offered(*final(self), *cfg, cloud_host@, input),
                Err(e) => {
                    &&& old(self).tried < old(self).devices@.len()
                    &&& *final(self) == *old(self)
                    &&& match parsed_range(cfg.app.uplink.port_range@) {
                        Err(fault) => e matches PortError::Range(c) && c@ == fault,
                        Ok(range) => {
                            &&& lowest_free(
                                range.first as int,
                                range.last as int,
                                old(self).taken@,
                            ) is None
                            &&& e matches PortError::Exhausted { range: text } && text@
                                == cfg.app.uplink.port_range@
                        },
                    }
                },
            },
    {
        broadcast use vstd::std_specs::btree::group_btree_axioms;

        if self.tried == self.devices.len() {
            return Ok(None);
        }
        let port: u16 = match allocate_port(&cfg.app.uplink, &self.taken) {
            Ok(port) => port,
            Err(e) => return Err(e),
        };
        let device = CaptureDevice {
            id: self.devices[self.tried].id.clone(),
            display_name: self.devices[self.tried].name.clone(),
            provider: copy_opt(&self.devices[self.tried].provider),
        };
        self.taken.insert(port);
        self.tried = self.tried + 1;
        Ok(
            Some(
                input_for_device(&cfg.app, &device, port, cloud_host, cfg.gateway.name.as_str()),
            ),
        )
    }

    /// The last input came up.
    pub fn on_started(&mut self, started: ActiveInput)
        ensures
            final(self).active@ == old(self).active@.insert(started.input.id@, started),
            final(self).devices == old(self).devices,
            final(self).tried == old(self).tried,
            final(self).taken == old(self).taken,
    {
        let id = started.input.id.clone();
        self.active.insert(id.as_str(), started);
    }

    /// What streams, once every device was tried.
    pub fn finish(self) -> (r: Result<Book<ActiveInput>, String>)
        ensures
            if self.active.entries@.len() == 0 {
                r matches Err(e) && e@ == "no device could be started"@
            } else {
                r == Ok::<Book<ActiveInput>, String>(self.active)
            },
    {
        if self.active.entries.len() == 0 {
            Err("no device could be started".to_owned())
        } else {
            Ok(self.active)
        }
    }
}

/// No two devices that come up share a port, and none takes a port that a declared input
/// claims: a port once handed out, or claimed, is not offered again.
pub proof fn law_no_port_is_handed_out_twice(
    before: Rollout,
    after: Rollout,
    cfg: GatewayConfig,
    cloud_host: Seq<char>,
    input: InputConfig,
)
    requires
        before.offered(after, cfg, cloud_host, input),
    ensures
        !before.taken@.contains(input.uplink.port),
        after.taken@.contains(input.uplink.port),
        forall|port: u16| #[trigger]
            before.taken@.contains(port) ==> after.taken@.contains(port) && port
                != input.uplink.port,
{
    let range = parsed_range(cfg.app.uplink.port_range@)->Ok_0;
    law_the_lowest_free_port_is_allocated(range.first as int, range.last as int, before.taken@);
}

/// Devices are tried one after the other, each once: what is offered is the next device
/// on the list, on the lowest port of the range that nothing has.
pub proof fn law_the_next_device_is_offered_on_the_lowest_port(
    before: Rollout,
    after: Rollout,
    cfg: GatewayConfig,
    cloud_host: Seq<char>,
    input: InputConfig,
    port: u16,
)
    requires
        before.offered(after, cfg, cloud_host, input),
    ensures
        after.tried == before.tried + 1,
        input.id@ == id_of_device(before.devices@[before.tried as int].id@),
        input.capture is Local && input.capture->video_device == Some(
            before.devices@[before.tried as int].id,
        ),
        parsed_range(cfg.app.uplink.port_range@) is Ok,
        ({
            let range = parsed_range(cfg.app.uplink.port_range@)->Ok_0;
            &&& range.first <= input.uplink.port <= range.last
            &&& range.first <= port < input.uplink.port ==> before.taken@.contains(port)
        }),
        after.devices == before.devices && after.active == before.active,
{
    let range = parsed_range(cfg.app.uplink.port_range@)->Ok_0;
    law_the_lowest_free_port_is_allocated(
        range.first as int,
        range.last as int,
        before.taken@,
    );
    if range.first <= port < input.uplink.port {
        let p = port as int;
        assert(before.taken@.contains(p as u16));
    }
}

/// A device keeps its id, its name and its provider when it is captured.
pub proof fn law_a_device_is_captured_as_it_was_found(d: Device)
    ensures
        as_capture(d).id == d.id,
        as_capture(d).display_name == d.name,
        as_capture(d).provider == d.provider,
{
}

} // verus!
