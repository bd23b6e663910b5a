//! Inputs an operator starts rather than declares.
//!
//! Such an input exists only while the operator wants it. Two things still have to be
//! handled, because a window can be closed the hard way: leftovers from a crash, which
//! are found by their derived ids or by the device they hold, and ports, of which one is
//! allocated per input because an operator picking a camera cannot be asked for one.

use crate::config::{parsed_range, ConfigError, Fault, PortRange};
use crate::devices::{hints_at_virtual, prefix_of, virtual_name};
use crate::flow::{derived_id, device_input_id, id_of_device, uuid_text};
use crate::gateway::client::FlowState;
use crate::gateway::config::{
    or_empty, AppConfig, CaptureConfig, GatewayConfig, InputConfig, UplinkTemplate,
};
use crate::gateway::flow::{
    built, decklink_properties, encoder_json, flow_id, lemma_block_members, lemma_document_members,
    local_properties, stage_of, text_or_empty, uplink_json, BLOCK_CAPTURE, BLOCK_ENCODER,
    BLOCK_UPLINK, X_250, X_500,
};
use crate::gateway::state::{starts_out, SharedState};
use crate::json::{
    items_of, json_view, lemma_list_view, list_view, member, text_of, Json, JsonView,
};
use crate::text::{nonempty, opt_text, same_text, texts, to_lowercase, trim, trimmed};
use std::collections::BTreeSet;
use vstd::prelude::*;

verus! {

/// A capture device as Strom's discovery reports it.
#[derive(Debug)]
pub struct CaptureDevice {
    pub id: String,
    pub display_name: String,
    pub provider: Option<String>,
}

/// Whether a device looks like a virtual one rather than real capture hardware. A name
/// heuristic, because the platform providers do not distinguish them.
pub fn is_probably_virtual(device: &CaptureDevice) -> (r: bool)
    ensures
        r == virtual_name(device.display_name@),
{
    let lower = to_lowercase(device.display_name.as_str());
    hints_at_virtual(lower.as_str())
}

/// Turns a device id into an input id that is stable for that device, so that picking
/// the same camera again addresses the same flow and the same source.
pub fn input_id_for_device(device_id: &str) -> (r: String)
    ensures
        r@ == id_of_device(device_id@),
{
    device_input_id(device_id)
}

// ---------------------------------------------------------------------------
// Ports
// ---------------------------------------------------------------------------

/// The lowest port from `port` to `last` that is not taken.
pub open spec fn lowest_free(port: int, last: int, taken: Set<u16>) -> Option<int>
    decreases last + 1 - port,
{
    if port > last {
        None
    } else if !taken.contains(port as u16) {
        Some(port)
    } else {
        lowest_free(port + 1, last, taken)
    }
}

/// Why no port was allocated.
#[derive(Debug)]
pub enum PortError {
    /// The range is malformed.
    Range(ConfigError),
    /// Every port of the range is in use.
    Exhausted { range: String },
}

impl PortError {
    pub fn message(&self) -> (r: String)
        ensures
            match self {
                PortError::Range(e) => r@ == crate::config::fault_message(e.fault, e.value@),
                PortError::Exhausted { range } => r@ == "no free SRT port left in range "@ + range@
                    + " — every port is in use"@,
            },
    {
        match self {
            PortError::Range(e) => e.message(),
            PortError::Exhausted { range } => "no free SRT port left in range ".to_owned().concat(
                range.as_str(),
            ).concat(" — every port is in use"),
        }
    }
}

/// Picks the lowest free port in the template's range. Deterministic, so the same set of
/// inputs lands on the same ports across restarts, which keeps the addresses registered
/// in Open Live stable.
pub fn allocate_port(template: &UplinkTemplate, taken: &BTreeSet<u16>) -> (r: Result<
    u16,
    PortError,
>)
    ensures
        match parsed_range(template.port_range@) {
            Err(fault) => r is Err && (r->Err_0 matches PortError::Range(e) && e@ == fault),
            Ok(range) => match lowest_free(range.first as int, range.last as int, taken@) {
                Some(port) => r is Ok && r->Ok_0 == port,
                None => r is Err && (r->Err_0 matches PortError::Exhausted { range: text } && text@
                    == template.port_range@),
            },
        },
{
    broadcast use vstd::std_specs::btree::group_btree_axioms;

    let range = match template.ports() {
        Ok(range) => range,
        Err(e) => return Err(PortError::Range(e)),
    };
    let mut port: u16 = range.first;
    loop
        invariant
            range.first <= port <= range.last,
            parsed_range(template.port_range@) == Ok::<PortRange, (Fault, Seq<char>)>(range),
            lowest_free(range.first as int, range.last as int, taken@) == lowest_free(
                port as int,
                range.last as int,
                taken@,
            ),
        decreases range.last - port,
    {
        if !taken.contains(&port) {
            return Ok(port);
        }
        if port == range.last {
            assert(lowest_free(port + 1, range.last as int, taken@) is None);
            return Err(PortError::Exhausted { range: template.port_range.clone() });
        }
        port = port + 1;
    }
}

/// The port that is handed out is free and in the range, and every lower one is taken;
/// none is handed out only where the whole range is taken.
pub proof fn law_the_lowest_free_port_is_allocated(first: int, last: int, taken: Set<u16>)
    requires
        0 <= first,
        last <= u16::MAX,
    ensures
        match lowest_free(first, last, taken) {
            Some(port) => first <= port <= last && !taken.contains(port as u16) && forall|p: int|
                first <= p < port ==> taken.contains(#[trigger] (p as u16)),
            None => forall|p: int| first <= p <= last ==> taken.contains(#[trigger] (p as u16)),
        },
    decreases last + 1 - first,
{
    if first <= last && taken.contains(first as u16) {
        law_the_lowest_free_port_is_allocated(first + 1, last, taken);
    }
}

/// The ports that the inputs of the settings claim.
pub open spec fn claimed(inputs: Seq<InputConfig>, port: u16) -> bool {
    exists|i: int| 0 <= i < inputs.len() && (#[trigger] inputs[i]).uplink.port == port
}

/// The ports already claimed by declared inputs, so that run-time allocation avoids
/// colliding with an input the operator wrote down.
pub fn ports_in_config(cfg: &GatewayConfig) -> (r: BTreeSet<u16>)
    ensures
        forall|port: u16| #[trigger] r@.contains(port) <==> claimed(cfg.inputs@, port),
{
    broadcast use vstd::std_specs::btree::group_btree_axioms;

    let inputs = &cfg.inputs;
    let mut ports: BTreeSet<u16> = BTreeSet::new();
    let mut i: usize = 0;
    while i < inputs.len()
        invariant
            i <= inputs@.len(),
            inputs == &cfg.inputs,
            forall|port: u16| #[trigger]
                ports@.contains(port) <==> claimed(inputs@.subrange(0, i as int), port),
        decreases inputs@.len() - i,
    {
        let ghost upto = inputs@.subrange(0, i as int);
        let ghost next = inputs@.subrange(0, i + 1);
        let ghost before = ports@;
        ports.insert(inputs[i].uplink.port);
        proof {
            assert forall|port: u16| #[trigger] ports@.contains(port) <==> claimed(next, port) by {
                assert(ports@.contains(port) <==> before.contains(port) || port
                    == inputs@[i as int].uplink.port);
                if claimed(upto, port) {
                    let j = choose|j: int| 0 <= j < upto.len() && (#[trigger] upto[j]).uplink.port
                        == port;
                    assert(next[j].uplink.port == port);
                }
                if claimed(next, port) {
                    let j = choose|j: int| 0 <= j < next.len() && (#[trigger] next[j]).uplink.port
                        == port;
                    if j < i {
                        assert(upto[j].uplink.port == port);
                    }
                }
                assert(next[i as int] == inputs@[i as int]);
            }
        }
        i = i + 1;
    }
    assert(inputs@.subrange(0, inputs@.len() as int) =~= inputs@);
    ports
}

/// An allocated port is never one that a declared input claims.
pub proof fn law_declared_ports_are_left_alone(
    inputs: Seq<InputConfig>,
    taken: Set<u16>,
    first: int,
    last: int,
)
    requires
        forall|port: u16| claimed(inputs, port) ==> #[trigger] taken.contains(port),
        0 <= first,
        last <= u16::MAX,
        lowest_free(first, last, taken) is Some,
    ensures
        !claimed(inputs, lowest_free(first, last, taken)->0 as u16),
{
    law_the_lowest_free_port_is_allocated(first, last, taken);
}

// ---------------------------------------------------------------------------
// Inputs for devices
// ---------------------------------------------------------------------------

/// The name a device's source carries in Open Live: prefixed with the gateway's name so
/// that two venues' cameras can be told apart, and cleanup can recognise its own.
pub fn source_name_for_device(gateway_name: &str, device: &CaptureDevice) -> (r: String)
    ensures
        r@ == prefix_of(gateway_name@) + device.display_name@,
{
    trim(gateway_name).concat(" — ").concat(device.display_name.as_str())
}

/// The prefix every source from this gateway carries.
pub fn source_name_prefix(gateway_name: &str) -> (r: String)
    ensures
        r@ == prefix_of(gateway_name@),
{
    trim(gateway_name).concat(" — ")
}

/// An input that streams a device alone, without sound, with the shared encoder and
/// uplink settings, on a port of its own.
pub open spec fn captures(
    input: InputConfig,
    app: AppConfig,
    device: CaptureDevice,
    port: u16,
    cloud_host: Seq<char>,
    gateway_name: Seq<char>,
) -> bool {
    &&& input.id@ == id_of_device(device.id@)
    &&& opt_text(input.name) == Some(prefix_of(gateway_name) + device.display_name@)
    &&& input.capture == (CaptureConfig::Local {
        video_device: Some(device.id),
        video_resolution: app.video_resolution,
        video_framerate: app.video_framerate,
        audio_device: None,
        audio_channels: 2,
        audio_rate: 48000,
    })
    &&& input.video == app.video
    &&& input.uplink.mode == app.uplink.mode
    &&& input.uplink.host@ == cloud_host
    &&& input.uplink.public_host == app.uplink.public_host
    &&& input.uplink.port == port
    &&& input.uplink.latency_ms == app.uplink.latency_ms
    &&& input.uplink.passphrase == app.uplink.passphrase
    &&& input.uplink.pbkeylen == app.uplink.pbkeylen
    &&& input.uplink.stream_id is None
    &&& input.enabled
}

/// Builds the input for a chosen capture device. Audio is left out on purpose: a
/// webcam's microphone is a separate device on its own clock and drifts against video.
pub fn input_for_device(
    app: &AppConfig,
    device: &CaptureDevice,
    port: u16,
    cloud_host: &str,
    gateway_name: &str,
) -> (r: InputConfig)
    ensures
        captures(r, *app, *device, port, cloud_host@, gateway_name@),
{
    InputConfig {
        id: input_id_for_device(device.id.as_str()),
        name: Some(source_name_for_device(gateway_name, device)),
        capture: CaptureConfig::Local {
            video_device: Some(device.id.clone()),
            video_resolution: app.video_resolution.clone(),
            video_framerate: app.video_framerate.clone(),
            audio_device: None,
            audio_channels: 2,
            audio_rate: 48000,
        },
        video: app.video.clone(),
        uplink: app.uplink.materialize(port, cloud_host),
        enabled: true,
    }
}

/// Everything needed to run one input, held for as long as it is streaming.
#[derive(Debug)]
pub struct ActiveInput {
    pub input: InputConfig,
    pub flow_id: String,
    pub device_id: String,
}

/// The capture device an input opens.
pub open spec fn device_of(capture: CaptureConfig) -> Seq<char> {
    match capture {
        CaptureConfig::Local { video_device, .. } => or_empty(video_device),
        _ => Seq::empty(),
    }
}

/// What a started input is held by. A flow that Strom started but does not report
/// running is no started input.
pub fn started_input(gateway_id: &str, input: &InputConfig, started: &FlowState) -> (r: Result<
    ActiveInput,
    String,
>)
    ensures
        match r {
            Ok(active) => started.running && active.input == *input && active.flow_id@ == uuid_text(
                derived_id(gateway_id@, input.id@).value,
            ) && active.device_id@ == device_of(input.capture),
            Err(e) => !started.running && e@
                == "Strom started the flow but does not report it running"@,
        },
{
    if !started.running {
        return Err("Strom started the flow but does not report it running".to_owned());
    }
    let device_id = match &input.capture {
        CaptureConfig::Local { video_device, .. } => match video_device {
            Some(device) => device.clone(),
            None => String::new(),
        },
        _ => String::new(),
    };
    Ok(
        ActiveInput {
            input: input.clone(),
            flow_id: flow_id(gateway_id, input.id.as_str()),
            device_id,
        },
    )
}

/// One input for the operator, pairing settings with what is registered.
#[derive(Debug)]
pub struct InputView {
    pub input_id: String,
    pub device_id: String,
    pub label: String,
    pub listener_address: String,
}

impl ActiveInput {
    pub fn view(&self) -> (r: InputView)
        ensures
            r.input_id == self.input.id,
            r.device_id == self.device_id,
            r.label == (match self.input.name {
                Some(name) => name,
                None => self.input.id,
            }),
            r.listener_address@ == self.input.uplink.cloud_address(),
    {
        let label = match &self.input.name {
            Some(name) => name.clone(),
            None => self.input.id.clone(),
        };
        InputView {
            input_id: self.input.id.clone(),
            device_id: self.device_id.clone(),
            label,
            listener_address: self.input.uplink.cloud_uri(),
        }
    }
}

/// Adds a run-time input to the shared status, as a declared one starts out.
pub fn register_in_state(state: &mut SharedState, input: &InputConfig, gateway_id: &str)
    requires
        old(state).wf(),
    ensures
        final(state).wf(),
        final(state).gateway_id == old(state).gateway_id,
        final(state).strom_reachable == old(state).strom_reachable,
        final(state).status(input.id@) is Some,
        starts_out(final(state).status(input.id@)->0, gateway_id@, *input),
        forall|id: Seq<char>|
            id != input.id@ ==> #[trigger] final(state).status(id) == old(state).status(id),
{
    state.add_input(input, gateway_id);
}

// ---------------------------------------------------------------------------
// Leftovers
// ---------------------------------------------------------------------------

pub open spec fn is_local_input(block: JsonView) -> bool {
    text_of(member(block, "block_definition_id"@)) == Some("builtin.local_input"@)
}

/// The first local-input block of a flow.
pub open spec fn first_local_input(blocks: Seq<JsonView>) -> Option<JsonView>
    decreases blocks.len(),
{
    if blocks.len() == 0 {
        None
    } else if is_local_input(blocks[0]) {
        Some(blocks[0])
    } else {
        first_local_input(blocks.drop_first())
    }
}

pub open spec fn member_of(j: Option<JsonView>, key: Seq<char>) -> Option<JsonView> {
    match j {
        Some(j) => member(j, key),
        None => None,
    }
}

/// The capture device a flow opens, where it has a local input that names one.
pub open spec fn held_device(flow: JsonView) -> Option<Seq<char>> {
    text_of(
        member_of(
            member_of(first_local_input(items_of(member(flow, "blocks"@))), "properties"@),
            "video_device"@,
        ),
    )
}

fn find_local_input(blocks: &Vec<Json>) -> (r: Option<&Json>)
    ensures
        match r {
            Some(b) => first_local_input(list_view(blocks@)) == Some(b@),
            None => first_local_input(list_view(blocks@)) is None,
        },
{
    let ghost views = list_view(blocks@);
    proof {
        lemma_list_view(blocks@);
    }
    let mut i: usize = 0;
    assert(views.subrange(0, views.len() as int) =~= views);
    while i < blocks.len()
        invariant
            i <= blocks@.len(),
            views == list_view(blocks@),
            views.len() == blocks@.len(),
            forall|j: int| 0 <= j < blocks@.len() ==> #[trigger] views[j] == json_view(blocks@[j]),
            first_local_input(views) == first_local_input(
                views.subrange(i as int, views.len() as int),
            ),
        decreases blocks@.len() - i,
    {
        let ghost rest = views.subrange(i as int, views.len() as int);
        assert(rest[0] == views[i as int]);
        let hit = match blocks[i].text_at("block_definition_id") {
            Some(s) => same_text(s, "builtin.local_input"),
            None => false,
        };
        if hit {
            return Some(&blocks[i]);
        }
        assert(rest.drop_first() =~= views.subrange(i + 1, views.len() as int));
        i = i + 1;
    }
    None
}

/// The capture device a flow opens, if it has a local-input block.
pub fn flow_capture_device(flow: &Json) -> (r: Option<String>)
    ensures
        opt_text(r) == held_device(flow@),
{
    let blocks = match flow.get("blocks") {
        Some(v) => match v.as_list() {
            Some(blocks) => blocks,
            None => return None,
        },
        None => return None,
    };
    let block = match find_local_input(blocks) {
        Some(b) => b,
        None => return None,
    };
    match block.get("properties") {
        Some(p) => match p.text_at("video_device") {
            Some(s) => Some(s.to_owned()),
            None => None,
        },
        None => None,
    }
}

/// A flow that is in the way, and what it is called.
#[derive(Debug)]
pub struct Conflict {
    pub id: String,
    pub name: String,
}

pub open spec fn among(list: Seq<String>, text: Seq<char>) -> bool {
    exists|i: int| 0 <= i < list.len() && (#[trigger] list[i])@ == text
}

/// A flow that is not kept and holds one of the devices.
pub open spec fn in_the_way(flow: JsonView, devices: Seq<String>, keep: Seq<String>) -> bool {
    match text_of(member(flow, "id"@)) {
        Some(id) => !among(keep, id) && (held_device(flow) matches Some(d) && among(devices, d)),
        None => false,
    }
}

pub open spec fn conflict_view(flow: JsonView) -> (Seq<char>, Seq<char>) {
    let id = text_or_empty(member(flow, "id"@));
    (
        id,
        match text_of(member(flow, "name"@)) {
            Some(name) => name,
            None => id,
        },
    )
}

pub open spec fn conflicts_of(
    flows: Seq<JsonView>,
    devices: Seq<String>,
    keep: Seq<String>,
) -> Seq<(Seq<char>, Seq<char>)>
    decreases flows.len(),
{
    if flows.len() == 0 {
        Seq::empty()
    } else {
        let before = conflicts_of(flows.drop_last(), devices, keep);
        if in_the_way(flows.last(), devices, keep) {
            before.push(conflict_view(flows.last()))
        } else {
            before
        }
    }
}

pub open spec fn conflict_views(s: Seq<Conflict>) -> Seq<(Seq<char>, Seq<char>)> {
    s.map_values(|c: Conflict| (c.id@, c.name@))
}

fn is_among(list: &Vec<String>, text: &str) -> (r: bool)
    ensures
        r == among(list@, text@),
{
    let mut i: usize = 0;
    while i < list.len()
        invariant
            i <= list@.len(),
            forall|j: int| 0 <= j < i ==> (#[trigger] list@[j])@ != text@,
        decreases list@.len() - i,
    {
        if same_text(list[i].as_str(), text) {
            return true;
        }
        i = i + 1;
    }
    false
}

/// The flows that already hold one of the devices about to be opened. Derived ids find
/// our own leftovers only under the current gateway id, so a renamed gateway's flows
/// would stay invisible and keep the camera open; these are matched by the device.
pub fn conflicting_flows(flows: &Vec<Json>, device_ids: &Vec<String>, keep: &Vec<String>) -> (r:
    Vec<Conflict>)
    ensures
        conflict_views(r@) == conflicts_of(list_view(flows@), device_ids@, keep@),
{
    let ghost views = list_view(flows@);
    proof {
        lemma_list_view(flows@);
    }
    let mut out: Vec<Conflict> = Vec::new();
    assert(conflict_views(out@) =~= Seq::empty());
    let mut i: usize = 0;
    while i < flows.len()
        invariant
            i <= flows@.len(),
            views.len() == flows@.len(),
            forall|j: int| 0 <= j < flows@.len() ==> #[trigger] views[j] == json_view(flows@[j]),
            conflict_views(out@) == conflicts_of(
                views.subrange(0, i as int),
                device_ids@,
                keep@,
            ),
        decreases flows@.len() - i,
    {
        let ghost upto = views.subrange(0, i + 1);
        assert(upto.drop_last() =~= views.subrange(0, i as int));
        assert(upto.last() == views[i as int]);
        let flow = &flows[i];
        if let Some(id) = flow.text_at("id") {
            if !is_among(keep, id) {
                if let Some(device) = flow_capture_device(flow) {
                    if is_among(device_ids, device.as_str()) {
                        let name = match flow.text_at("name") {
                            Some(name) => name.to_owned(),
                            None => id.to_owned(),
                        };
                        let ghost before = conflict_views(out@);
                        out.push(Conflict { id: id.to_owned(), name });
                        assert(conflict_views(out@) =~= before.push(conflict_view(flow@)));
                    }
                }
            }
        }
        i = i + 1;
    }
    assert(views.subrange(0, views.len() as int) =~= views);
    out
}

/// The flows this gateway would have created for the given inputs: what a run that ended
/// without cleanup may have left.
pub fn orphan_ids(gateway_id: &str, input_ids: &Vec<String>) -> (r: Vec<String>)
    ensures
        texts(r@) == texts(input_ids@).map_values(
            |id: Seq<char>| uuid_text(derived_id(gateway_id@, id).value),
        ),
{
    let mut out: Vec<String> = Vec::new();
    let mut i: usize = 0;
    while i < input_ids.len()
        invariant
            i <= input_ids@.len(),
            out@.len() == i,
            forall|j: int|
                0 <= j < i ==> (#[trigger] out@[j])@ == uuid_text(
                    derived_id(gateway_id@, input_ids@[j]@).value,
                ),
        decreases input_ids@.len() - i,
    {
        out.push(flow_id(gateway_id, input_ids[i].as_str()));
        i = i + 1;
    }
    assert(texts(out@) =~= texts(input_ids@).map_values(
        |id: Seq<char>| uuid_text(derived_id(gateway_id@, id).value),
    ));
    out
}

proof fn lemma_other_blocks(input: InputConfig, audio: bool)
    ensures
        !is_local_input(encoder_json(input.video)),
        !is_local_input(
            uplink_json(input.uplink.venue_address(), input.uplink.latency_ms, audio),
        ),
{
    let encoder = encoder_json(input.video);
    let uplink = uplink_json(input.uplink.venue_address(), input.uplink.latency_ms, audio);
    lemma_block_members(
        BLOCK_ENCODER@,
        "builtin.videoenc"@,
        "Encoder"@,
        member(encoder, "properties"@)->0->Object_0,
        X_250,
    );
    lemma_block_members(
        BLOCK_UPLINK@,
        "builtin.mpegtssrt_output"@,
        "SRT Uplink"@,
        member(uplink, "properties"@)->0->Object_0,
        X_500,
    );
    reveal_strlit("builtin.local_input");
    reveal_strlit("builtin.videoenc");
    reveal_strlit("builtin.mpegtssrt_output");
    reveal_strlit("id");
    reveal_strlit("block_definition_id");
    reveal_strlit("name");
    reveal_strlit("properties");
    reveal_strlit("position");
    assert("builtin.local_input"@.len() == 19 && "builtin.videoenc"@.len() == 16
        && "builtin.mpegtssrt_output"@.len() == 24);
    assert("id"@.len() == 2 && "block_definition_id"@.len() == 19 && "name"@.len() == 4
        && "properties"@.len() == 10 && "position"@.len() == 8);
}

proof fn lemma_device_property(
    video_device: Option<Seq<char>>,
    resolution: Seq<char>,
    framerate: Seq<char>,
    audio_device: Option<Seq<char>>,
    channels: u32,
    rate: u32,
)
    ensures
        text_of(
            member(
                JsonView::Object(
                    local_properties(
                        video_device,
                        resolution,
                        framerate,
                        audio_device,
                        channels,
                        rate,
                    ),
                ),
                "video_device"@,
            ),
        ) == video_device,
{
    reveal_strlit("video_device");
    reveal_strlit("video_resolution");
    reveal_strlit("video_framerate");
    reveal_strlit("stream_mode");
    reveal_strlit("audio_device");
    reveal_strlit("audio_channels");
    reveal_strlit("audio_rate");
    assert("video_device"@.len() == 12 && "video_resolution"@.len() == 16 && "video_framerate"@.len()
        == 15 && "stream_mode"@.len() == 11 && "audio_channels"@.len() == 14 && "audio_rate"@.len()
        == 10);
    assert("video_device"@[0] != "audio_device"@[0]);
}

/// A flow built for a local capture holds exactly the device of its input, so a leftover
/// of it is found by that device; where the input names none, or captures otherwise, it
/// holds none.
pub proof fn law_a_built_flow_holds_its_device(
    gateway_id: Seq<char>,
    gateway_name: Seq<char>,
    input: InputConfig,
)
    requires
        built(gateway_id, gateway_name, input) is Ok,
    ensures
        held_device(built(gateway_id, gateway_name, input)->Ok_0) == (match input.capture {
            CaptureConfig::Local { video_device, .. } => nonempty(video_device),
            _ => None,
        }),
{
    let stage = stage_of(input.capture)->Ok_0;
    let flow = built(gateway_id, gateway_name, input)->Ok_0;
    let blocks = items_of(member(flow, "blocks"@));
    lemma_document_members(gateway_id, gateway_name, input, stage);
    lemma_other_blocks(input, stage.has_audio);
    reveal_strlit("builtin.local_input");
    reveal_strlit("builtin.decklink_input");
    assert("builtin.local_input"@.len() == 19 && "builtin.decklink_input"@.len() == 22);
    let tail = seq![
        encoder_json(input.video),
        uplink_json(input.uplink.venue_address(), input.uplink.latency_ms, stage.has_audio),
    ];
    assert(first_local_input(tail) is None) by {
        assert(tail.drop_first().drop_first() =~= Seq::empty());
        assert(first_local_input(tail.drop_first()) == first_local_input(
            tail.drop_first().drop_first(),
        ));
        assert(first_local_input(tail.drop_first().drop_first()) is None);
    }
    match input.capture {
        CaptureConfig::Decklink {
            device_number,
            connection,
            mode,
            video_format,
            drop_no_signal_frames,
            audio,
        } => {
            lemma_block_members(
                BLOCK_CAPTURE@,
                "builtin.decklink_input"@,
                "SDI Capture"@,
                decklink_properties(
                    device_number,
                    connection@,
                    mode@,
                    video_format@,
                    drop_no_signal_frames,
                    audio,
                ),
                0,
            );
            assert(blocks[0] == stage.blocks[0]);
            assert(blocks.drop_first() =~= tail);
        },
        CaptureConfig::Local {
            video_device,
            video_resolution,
            video_framerate,
            audio_device,
            audio_channels,
            audio_rate,
        } => {
            let properties = local_properties(
                nonempty(video_device),
                video_resolution@,
                video_framerate@,
                nonempty(audio_device),
                audio_channels,
                audio_rate,
            );
            lemma_block_members(
                BLOCK_CAPTURE@,
                "builtin.local_input"@,
                "USB Capture"@,
                properties,
                0,
            );
            assert(blocks[0] == stage.blocks[0]);
            lemma_device_property(
                nonempty(video_device),
                video_resolution@,
                video_framerate@,
                nonempty(audio_device),
                audio_channels,
                audio_rate,
            );
        },
        CaptureConfig::Test { .. } => {
            assert(blocks =~= tail);
        },
    }
}

// ---------------------------------------------------------------------------
// What a device becomes, and what stands in its way
// ---------------------------------------------------------------------------

/// A device that is captured becomes an input of its own id, named after the gateway and
/// the device, with the format, the encoding and the link that the app is set to, without
/// sound, and enabled.
pub proof fn law_a_captured_device_follows_the_settings(
    input: InputConfig,
    app: AppConfig,
    device: CaptureDevice,
    port: u16,
    cloud_host: Seq<char>,
    gateway_name: Seq<char>,
)
    requires
        captures(input, app, device, port, cloud_host, gateway_name),
    ensures
        input.id@ == id_of_device(device.id@),
        input.name is Some && input.name->0@ == trimmed(gateway_name) + " — "@
            + device.display_name@,
        input.capture is Local,
        input.capture->video_device == Some(device.id),
        input.capture->Local_video_resolution == app.video_resolution,
        input.capture->Local_video_framerate == app.video_framerate,
        input.capture->audio_device is None,
        input.video == app.video,
        input.uplink.mode == app.uplink.mode,
        input.uplink.host@ == cloud_host,
        input.uplink.public_host == app.uplink.public_host,
        input.uplink.port == port,
        input.uplink.latency_ms == app.uplink.latency_ms,
        input.uplink.passphrase == app.uplink.passphrase,
        input.uplink.pbkeylen == app.uplink.pbkeylen,
        input.uplink.stream_id is None,
        input.enabled,
{
}

/// A flow stands in the way exactly when it has an id that is not to be kept and its
/// first local capture holds one of the devices. Whatever else it does makes no
/// difference, and the flows in the way come in the order in which they are listed.
pub proof fn law_a_flow_in_the_way_holds_a_device(
    flows: Seq<JsonView>,
    flow: JsonView,
    devices: Seq<String>,
    keep: Seq<String>,
)
    ensures
        conflicts_of(flows.push(flow), devices, keep).len() == conflicts_of(
            flows,
            devices,
            keep,
        ).len() + (if text_of(member(flow, "id"@)) is Some && (forall|i: int|
            0 <= i < keep.len() ==> (#[trigger] keep[i])@ != text_of(member(flow, "id"@))->0)
            && held_device(flow) is Some && (exists|i: int|
            0 <= i < devices.len() && (#[trigger] devices[i])@ == held_device(flow)->0) {
            1int
        } else {
            0
        }),
        conflicts_of(flows, devices, keep).is_prefix_of(
            conflicts_of(flows.push(flow), devices, keep),
        ),
        conflicts_of(flows.push(flow), devices, keep).len() > conflicts_of(
            flows,
            devices,
            keep,
        ).len() ==> {
            let last = conflicts_of(flows.push(flow), devices, keep).last();
            &&& Some(last.0) == text_of(member(flow, "id"@))
            &&& last.1 == if text_of(member(flow, "name"@)) is Some {
                text_of(member(flow, "name"@))->0
            } else {
                last.0
            }
        },
{
    assert(flows.push(flow).drop_last() =~= flows);
    let c = conflicts_of(flows, devices, keep);
    assert(c.push(conflict_view(flow)).subrange(0, c.len() as int) =~= c);
}

/// The device that a flow holds is the one that the first of its local captures names.
pub proof fn law_the_first_capture_holds_the_device(flow: JsonView, k: int)
    ensures
        ({
            let blocks = items_of(member(flow, "blocks"@));
            let local = |b: JsonView|
                text_of(member(b, "block_definition_id"@)) == Some("builtin.local_input"@);
            &&& 0 <= k < blocks.len() && local(blocks[k]) && (forall|j: int|
                0 <= j < k ==> !local(#[trigger] blocks[j])) ==> held_device(flow) == (
            match member(blocks[k], "properties"@) {
                Some(p) => text_of(member(p, "video_device"@)),
                None => None,
            })
            &&& (forall|j: int| 0 <= j < blocks.len() ==> !local(#[trigger] blocks[j]))
                ==> held_device(flow) is None
        }),
{
    lemma_first_local_input(items_of(member(flow, "blocks"@)), k);
}

proof fn lemma_first_local_input(blocks: Seq<JsonView>, k: int)
    ensures
        0 <= k < blocks.len() && is_local_input(blocks[k]) && (forall|j: int|
            0 <= j < k ==> !is_local_input(#[trigger] blocks[j])) ==> first_local_input(blocks)
            == Some(blocks[k]),
        (forall|j: int| 0 <= j < blocks.len() ==> !is_local_input(#[trigger] blocks[j]))
            ==> first_local_input(blocks) is None,
    decreases blocks.len(),
{
    if blocks.len() > 0 {
        let rest = blocks.drop_first();
        lemma_first_local_input(rest, k - 1);
        assert forall|j: int| 0 <= j < rest.len() implies #[trigger] rest[j] == blocks[j + 1] by {}
        if 0 < k < blocks.len() {
            assert(rest[k - 1] == blocks[k]);
        }
    }
}

/// An input captures the device that a local capture names, and no other kind of capture
/// holds one.
pub proof fn law_only_a_local_capture_names_a_device(capture: CaptureConfig)
    ensures
        capture is Local && capture->video_device is Some ==> device_of(capture)
            == capture->video_device->0@,
        capture is Local && capture->video_device is None ==> device_of(capture).len() == 0,
        capture is Decklink || capture is Test ==> device_of(capture).len() == 0,
{
}

} // verus!
