//! Bringing a venue up: from the devices Strom lists to the inputs that stream.
//!
//! The steps, in order: pick the devices, resolve the cloud, lay out the inputs, have
//! Open Live assign their ports where the range is Open Live's, then start one flow
//! after the other. One camera that fails does not stop the rest of the venue.

use crate::config::{format_port_range, range_text, Config, Video};
use crate::devices::{
    choose_devices, chosen, devices_view, input_count, inputs_match, inputs_within, ChooseError,
    Device, InputsError,
};
use crate::flow::{build, built, derived_id, flow_id, Flow, Input};
use crate::gateway::book::Book;
use crate::openlive::OpenLiveClient;
use crate::run::{Cloud, Live, PortSource, State};
use vstd::prelude::*;

verus! {

/// Why nothing streams.
#[derive(Debug)]
pub enum UpError {
    Choice(ChooseError),
    NoDevices,
    Inputs(InputsError),
    NothingStarted,
}

pub open spec fn no_devices_text() -> Seq<char> {
    "Strom reports no capture devices. Virtual ones are skipped unless --all; --test streams a test pattern instead."@
}

impl UpError {
    pub open spec fn text(&self) -> Seq<char> {
        match *self {
            UpError::Choice(e) => e.text(),
            UpError::NoDevices => no_devices_text(),
            UpError::Inputs(e) => e.text(),
            UpError::NothingStarted => "no input could be started"@,
        }
    }

    pub fn message(&self) -> (r: String)
        ensures
            r@ == self.text(),
    {
        match self {
            UpError::Choice(e) => e.message(),
            UpError::NoDevices =>
                "Strom reports no capture devices. Virtual ones are skipped unless --all; --test streams a test pattern instead.".to_owned(),
            UpError::Inputs(e) => e.message(),
            UpError::NothingStarted => "no input could be started".to_owned(),
        }
    }
}

/// The client for Open Live, where sources are registered there at all.
pub fn open_live_client(cfg: &Config) -> (r: Result<Option<OpenLiveClient>, String>)
    ensures
        if !cfg.open_live.register {
            r == Ok::<Option<OpenLiveClient>, String>(None)
        } else {
            match cfg.open_live.url {
                None => r matches Err(e) && e@ == "open_live.url is unset"@,
                Some(url) => r matches Ok(Some(client)) && client.serves(
                    url@,
                    cfg.open_live.auth_mode,
                    cfg.open_live.api_key,
                ),
            }
        },
{
    if !cfg.open_live.register {
        return Ok(None);
    }
    match &cfg.open_live.url {
        None => Err("open_live.url is unset".to_owned()),
        Some(url) => Ok(
            Some(
                OpenLiveClient::new(url.as_str(), cfg.open_live.auth_mode, &cfg.open_live.api_key),
            ),
        ),
    }
}

/// The devices to stream, of those Strom lists.
pub fn pick_devices(all: Vec<Device>, include_virtual: bool, selection: Option<&str>) -> (r: Result<
    Vec<Device>,
    UpError,
>)
    ensures
        match chosen(
            devices_view(all@),
            include_virtual,
            match selection {
                Some(s) => Some(s@),
                None => None,
            },
        ) {
            Err(fault) => r matches Err(UpError::Choice(e)) && e@ == fault,
            Ok(devices) => if devices.len() == 0 {
                r matches Err(e) && e is NoDevices
            } else {
                r matches Ok(picked) && devices_view(picked@) == devices
            },
        },
{
    match choose_devices(all, include_virtual, selection) {
        Err(e) => Err(UpError::Choice(e)),
        Ok(devices) => if devices.len() == 0 {
            Err(UpError::NoDevices)
        } else {
            Ok(devices)
        },
    }
}

/// The inputs for the picked devices, or for a test pattern alone, on the ports that the
/// link to the cloud uses.
pub fn lay_out(cfg: &Config, picked: &Vec<Device>, test_pattern: bool, cloud: &Cloud) -> (r: Result<
    Vec<Input>,
    UpError,
>)
    ensures
        match r {
            Ok(inputs) => input_count(devices_view(picked@), test_pattern) <= cloud.ports.count()
                && inputs_match(
                inputs@,
                devices_view(picked@),
                test_pattern,
                cfg.gateway.name@,
                cfg.uplink,
                cfg.capture,
                cloud.host@,
                cloud.ports,
            ),
            Err(e) => input_count(devices_view(picked@), test_pattern) > cloud.ports.count() && (
            e matches UpError::Inputs(why) && (why matches InputsError::NoPort { range } && range@
                == range_text(cloud.ports))),
        },
{
    let range = format_port_range(&cloud.ports);
    match inputs_within(
        picked,
        test_pattern,
        cfg.gateway.name.as_str(),
        &cfg.uplink,
        &cfg.capture,
        cloud.host.as_str(),
        cloud.ports,
        range.as_str(),
    ) {
        Ok(inputs) => Ok(inputs),
        Err(e) => Err(UpError::Inputs(e)),
    }
}

/// Whether Open Live assigns the ports: the range is its own, so the port inside it is
/// too, and each source is registered before its flow is built.
pub fn assigns_ports(registered: bool, cloud: &Cloud) -> (r: bool)
    ensures
        r == (registered && cloud.port_source is OpenLive),
{
    match cloud.port_source {
        PortSource::OpenLive => registered,
        PortSource::Settings => false,
    }
}

/// The source of each input by the input's id, the first `n` of them. Of two inputs with
/// one id the later source counts.
pub open spec fn sources_by_input(inputs: Seq<Input>, source_ids: Seq<String>, n: int) -> Map<
    Seq<char>,
    String,
>
    decreases n,
{
    if n <= 0 {
        Map::empty()
    } else {
        sources_by_input(inputs, source_ids, n - 1).insert(inputs[n - 1].id@, source_ids[n - 1])
    }
}

/// Files the sources that Open Live registered under the inputs they are for.
pub fn file_sources(inputs: &Vec<Input>, source_ids: &Vec<String>) -> (r: Book<String>)
    requires
        source_ids@.len() == inputs@.len(),
    ensures
        r@ == sources_by_input(inputs@, source_ids@, inputs@.len() as int),
{
    let mut book: Book<String> = Book::new();
    let mut i: usize = 0;
    while i < inputs.len()
        invariant
            i <= inputs@.len(),
            source_ids@.len() == inputs@.len(),
            book@ == sources_by_input(inputs@, source_ids@, i as int),
        decreases inputs@.len() - i,
    {
        book.insert(inputs[i].id.as_str(), source_ids[i].clone());
        i = i + 1;
    }
    book
}

/// Flows being started one after the other.
#[derive(Debug)]
pub struct BringUp {
    pub gateway_id: String,
    pub inputs: Vec<Input>,
    /// Of the inputs still to be started, by their ids.
    pub source_ids: Book<String>,
    /// How many were tried.
    pub tried: usize,
    pub live: Vec<Live>,
}

pub open spec fn taken_from(sources: Map<Seq<char>, String>, id: Seq<char>) -> Option<String> {
    if sources.contains_key(id) {
        Some(sources[id])
    } else {
        None
    }
}

/// A feed that was just started.
pub open spec fn fresh(
    l: Live,
    gateway_id: Seq<char>,
    input: Input,
    source_id: Option<String>,
) -> bool {
    &&& l.input == input
    &&& l.flow_id == derived_id(gateway_id, input.id@)
    &&& l.state == State::Starting
    &&& l.shown is None
    &&& l.last_bytes is None
    &&& l.quiet_polls == 0
    &&& l.source_id == source_id
}

/// The inputs that were started, of those tried so far.
pub open spec fn started_inputs(inputs: Seq<Input>, outcomes: Seq<bool>) -> Seq<Input>
    decreases outcomes.len(),
{
    if outcomes.len() == 0 {
        Seq::empty()
    } else {
        let earlier = started_inputs(inputs, outcomes.drop_last());
        if outcomes.last() {
            earlier.push(inputs[outcomes.len() - 1])
        } else {
            earlier
        }
    }
}

impl BringUp {
    pub open spec fn wf(&self) -> bool {
        &&& self.tried <= self.inputs@.len()
        &&& self.live@.len() <= self.tried
    }

    /// One more input was tried.
    pub open spec fn stepped(&self, after: BringUp, started: bool) -> bool {
        let input = self.inputs@[self.tried as int];
        &&& self.tried < self.inputs@.len()
        &&& after.gateway_id == self.gateway_id
        &&& after.inputs == self.inputs
        &&& after.tried == self.tried + 1
        &&& after.source_ids@ == self.source_ids@.remove(input.id@)
        &&& if started {
            &&& after.live@.len() == self.live@.len() + 1
            &&& after.live@.drop_last() == self.live@
            &&& fresh(
                after.live@.last(),
                self.gateway_id@,
                input,
                taken_from(self.source_ids@, input.id@),
            )
        } else {
            after.live == self.live
        }
    }

    /// The outcomes so far are these.
    pub open spec fn told_by(&self, outcomes: Seq<bool>) -> bool {
        &&& self.tried == outcomes.len()
        &&& self.live@.map_values(|l: Live| l.input) == started_inputs(self.inputs@, outcomes)
    }

    pub fn new(gateway_id: String, inputs: Vec<Input>, source_ids: Book<String>) -> (r: BringUp)
        ensures
            r.wf(),
            r.gateway_id == gateway_id,
            r.inputs == inputs,
            r.source_ids == source_ids,
            r.tried == 0,
            r.live@.len() == 0,
            r.told_by(Seq::empty()),
    {
        proof {
            assert(Seq::<Live>::empty().map_values(|l: Live| l.input) =~= Seq::<Input>::empty());
        }
        BringUp { gateway_id, inputs, source_ids, tried: 0, live: Vec::new() }
    }

    /// The flow to create and start next, as long as there is one.
    pub fn next_flow(&self, video: &Video) -> (r: Option<Flow>)
        requires
            self.wf(),
        ensures
            match r {
                Some(flow) => self.tried < self.inputs@.len() && flow@ == built(
                    self.gateway_id@,
                    self.inputs@[self.tried as int],
                    *video,
                ),
                None => self.tried == self.inputs@.len(),
            },
    {
        if self.tried < self.inputs.len() {
            Some(build(self.gateway_id.as_str(), &self.inputs[self.tried], video))
        } else {
            None
        }
    }

    /// The flow was started, or could not be. Either way the next one is due.
    pub fn on_outcome(&mut self, started: bool)
        requires
            old(self).wf(),
            old(self).tried < old(self).inputs@.len(),
        ensures
            final(self).wf(),
            old(self).stepped(*final(self), started),
    {
        let input = self.inputs[self.tried].clone();
        let source_id = match self.source_ids.get(input.id.as_str()) {
            Some(id) => Some(id.clone()),
            None => None,
        };
        self.source_ids.remove(input.id.as_str());
        assert(self.tried < self.inputs.len());
        self.tried = self.tried + 1;
        if started {
            let id = flow_id(self.gateway_id.as_str(), input.id.as_str());
            self.live.push(Live::new(input, id, source_id));
            assert(self.live@.drop_last() =~= old(self).live@);
        }
    }

    /// What streams, once every flow was tried.
    pub fn finish(self) -> (r: Result<Vec<Live>, UpError>)
        ensures
            if self.live@.len() == 0 {
                r matches Err(e) && e is NothingStarted
            } else {
                r == Ok::<Vec<Live>, UpError>(self.live)
            },
    {
        if self.live.len() == 0 {
            Err(UpError::NothingStarted)
        } else {
            Ok(self.live)
        }
    }
}

/// What a start that Strom answered comes to. Where it is an error, the flow is deleted
/// again: one that does not run must not be left behind.
pub fn read_start(answer: Result<bool, String>) -> (r: Result<(), String>)
    ensures
        match answer {
            Ok(true) => r == Ok::<(), String>(()),
            Ok(false) => r matches Err(e) && e@
                == "Strom did not report the flow running after start"@,
            Err(why) => r == Err::<(), String>(why),
        },
{
    match answer {
        Ok(running) => if running {
            Ok(())
        } else {
            Err("Strom did not report the flow running after start".to_owned())
        },
        Err(why) => Err(why),
    }
}

/// What streams is exactly what was started, in the order in which it was tried: one
/// input that fails takes no other down and stops no later one from being tried.
pub proof fn law_exactly_the_started_inputs_stream(
    before: BringUp,
    after: BringUp,
    started: bool,
    outcomes: Seq<bool>,
)
    requires
        before.wf(),
        before.told_by(outcomes),
        before.stepped(after, started),
    ensures
        after.told_by(outcomes.push(started)),
{
    let inputs = before.inputs@;
    let told = outcomes.push(started);
    assert(told.drop_last() =~= outcomes);
    if started {
        let feeds = after.live@.map_values(|l: Live| l.input);
        assert(feeds.drop_last() =~= after.live@.drop_last().map_values(|l: Live| l.input));
        assert(feeds =~= started_inputs(inputs, outcomes).push(inputs[before.tried as int]));
    }
}

// ---------------------------------------------------------------------------
// What comes of an input
// ---------------------------------------------------------------------------

/// Each input is tried once, in order. One that started is live, with the source that was
/// made for it and nothing measured yet; one that did not leaves the live feeds as they
/// were.
pub proof fn law_an_input_is_tried_once(before: BringUp, after: BringUp, started: bool)
    requires
        before.stepped(after, started),
    ensures
        after.tried == before.tried + 1,
        after.inputs == before.inputs && after.gateway_id == before.gateway_id,
        !started ==> after.live == before.live,
        started ==> {
            let input = before.inputs@[before.tried as int];
            let l = after.live@.last();
            &&& after.live@.len() == before.live@.len() + 1
            &&& after.live@.drop_last() == before.live@
            &&& l.input == input
            &&& l.flow_id == derived_id(before.gateway_id@, input.id@)
            &&& l.state is Starting && l.shown is None && l.last_bytes is None && l.quiet_polls == 0
            &&& l.source_id == if before.source_ids@.contains_key(input.id@) {
                Some(before.source_ids@[input.id@])
            } else {
                None
            }
        },
{
}

/// The inputs that started are those whose turn ended well, in their order.
pub proof fn law_started_inputs_keep_their_order(
    inputs: Seq<Input>,
    outcomes: Seq<bool>,
    started: bool,
)
    ensures
        started ==> started_inputs(inputs, outcomes.push(started)) == started_inputs(
            inputs,
            outcomes,
        ).push(inputs[outcomes.len() as int]),
        !started ==> started_inputs(inputs, outcomes.push(started)) == started_inputs(
            inputs,
            outcomes,
        ),
        started_inputs(inputs, Seq::empty()) == Seq::<Input>::empty(),
{
    assert(outcomes.push(started).drop_last() =~= outcomes);
}

/// The source of an input is the one that was made at its own place in the list.
pub proof fn law_each_input_has_the_source_made_for_it(
    inputs: Seq<Input>,
    source_ids: Seq<String>,
    n: int,
    k: int,
)
    requires
        0 <= k < n,
        forall|i: int| 0 <= i < n && i != k ==> (#[trigger] inputs[i]).id@ != inputs[k].id@,
    ensures
        sources_by_input(inputs, source_ids, n).contains_key(inputs[k].id@),
        sources_by_input(inputs, source_ids, n)[inputs[k].id@] == source_ids[k],
    decreases n,
{
    if k < n - 1 {
        law_each_input_has_the_source_made_for_it(inputs, source_ids, n - 1, k);
        assert(inputs[n - 1].id@ != inputs[k].id@);
    }
}

} // verus!
