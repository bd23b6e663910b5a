//! What the window says about each input and about where feeds go.

use crate::flow::id_of_device;
use crate::gateway::book::{ascending, listed, Book};
use crate::gateway::config::{GatewayConfig, UplinkMode};
use crate::gateway::prompt::{cloud_dials, needs_public_host};
use crate::gateway::session::{input_id_for_device, CaptureDevice};
use crate::gateway::state::SharedState;
use crate::gateway::status::{InputState, InputStatus, UplinkStats};
use crate::gui::controller::ActiveView;
use crate::text::{blank, copy_opt, is_blank, opt_text, precedes};
use vstd::prelude::*;

verus! {

/// A colour by its red, green and blue.
#[derive(Clone, Copy, Debug, PartialEq, Eq, Structural)]
pub struct Colour {
    pub red: u8,
    pub green: u8,
    pub blue: u8,
}

/// How an input's state reads to an operator.
#[derive(Clone, Copy, Debug)]
pub struct Description {
    pub colour: Colour,
    pub label: &'static str,
    pub hint: &'static str,
}

pub open spec fn colour_of(state: InputState) -> Colour {
    match state {
        InputState::Running => Colour { red: 70, green: 180, blue: 90 },
        InputState::Stalled => Colour { red: 220, green: 170, blue: 60 },
        InputState::Starting | InputState::Provisioning => Colour {
            red: 120,
            green: 150,
            blue: 200,
        },
        InputState::Unknown => Colour { red: 200, green: 130, blue: 60 },
        InputState::Failed => Colour { red: 200, green: 80, blue: 80 },
        InputState::Idle => Colour { red: 160, green: 160, blue: 160 },
    }
}

pub open spec fn label_of(state: InputState) -> Seq<char> {
    match state {
        InputState::Running => "on air"@,
        InputState::Stalled => "waiting for a receiver"@,
        InputState::Starting | InputState::Provisioning => "starting"@,
        InputState::Unknown => "Strom unreachable"@,
        InputState::Failed => "failed"@,
        InputState::Idle => "idle"@,
    }
}

pub open spec fn hint_of(state: InputState) -> Seq<char> {
    match state {
        InputState::Running => "the far end is receiving this feed"@,
        InputState::Stalled => "assign this source to a mixer input in Studio and activate the production"@,
        InputState::Starting | InputState::Provisioning => "building the flow in Strom"@,
        InputState::Unknown => "the feed may still be running — this app has lost contact with Strom"@,
        InputState::Failed => "see the message below"@,
        InputState::Idle => ""@,
    }
}

/// How an input's state reads to an operator. A feed that nothing receives yet is the
/// normal condition between starting a device and activating the production that takes
/// it, so it must not read as a fault.
pub fn describe(state: InputState) -> (r: Description)
    ensures
        r.colour == colour_of(state),
        r.label@ == label_of(state),
        r.hint@ == hint_of(state),
{
    match state {
        InputState::Running => Description {
            colour: Colour { red: 70, green: 180, blue: 90 },
            label: "on air",
            hint: "the far end is receiving this feed",
        },
        InputState::Stalled => Description {
            colour: Colour { red: 220, green: 170, blue: 60 },
            label: "waiting for a receiver",
            hint: "assign this source to a mixer input in Studio and activate the production",
        },
        InputState::Starting | InputState::Provisioning => Description {
            colour: Colour { red: 120, green: 150, blue: 200 },
            label: "starting",
            hint: "building the flow in Strom",
        },
        InputState::Unknown => Description {
            colour: Colour { red: 200, green: 130, blue: 60 },
            label: "Strom unreachable",
            hint: "the feed may still be running — this app has lost contact with Strom",
        },
        InputState::Failed => Description {
            colour: Colour { red: 200, green: 80, blue: 80 },
            label: "failed",
            hint: "see the message below",
        },
        InputState::Idle => Description {
            colour: Colour { red: 160, green: 160, blue: 160 },
            label: "idle",
            hint: "",
        },
    }
}

/// Whether feeds will appear in Studio.
pub fn registering(cfg: &GatewayConfig) -> (r: bool)
    ensures
        r == (cfg.open_live.register && cfg.open_live.url is Some),
{
    cfg.open_live.register && cfg.open_live.url.is_some()
}

/// Whether the settings are open to begin with: nothing to connect to yet means a first
/// run.
pub fn opens_settings(cfg: &GatewayConfig) -> (r: bool)
    ensures
        r == (cfg.open_live.url is None),
{
    cfg.open_live.url.is_none()
}

/// What the settings say, else what Open Live reported.
pub open spec fn target(cfg: GatewayConfig, reported: Option<String>) -> Option<String> {
    match cfg.app.uplink.host {
        Some(h) => if blank(h@) {
            reported
        } else {
            Some(h)
        },
        None => reported,
    }
}

/// Where feeds are sent, as far as it is known.
pub fn sending_to(cfg: &GatewayConfig, reported: &Option<String>) -> (r: Option<String>)
    ensures
        r == target(*cfg, *reported),
{
    if let Some(h) = &cfg.app.uplink.host {
        if !is_blank(h.as_str()) {
            return Some(h.clone());
        }
    }
    copy_opt(reported)
}

/// What stands in place of an empty list of devices.
pub fn empty_list(strom_reachable: bool) -> (r: &'static str)
    ensures
        r@ == (if strom_reachable {
            "Strom reports no video sources on this machine."@
        } else {
            "Cannot reach Strom. Is it running?"@
        }),
{
    if strom_reachable {
        "Strom reports no video sources on this machine."
    } else {
        "Cannot reach Strom. Is it running?"
    }
}

// ---------------------------------------------------------------------------
// The header and the footer
// ---------------------------------------------------------------------------

/// One line of the header: a dot that is green or red, what it is about, and its value,
/// or in its place what is not known.
#[derive(Debug)]
pub struct HeaderLine {
    pub good: bool,
    pub label: &'static str,
    pub value: Option<String>,
    pub otherwise: &'static str,
}

/// What the window says on top: the local Strom, Open Live, and where feeds go.
pub fn header(cfg: &GatewayConfig, strom_reachable: bool, reported: &Option<String>) -> (r: (
    HeaderLine,
    HeaderLine,
    HeaderLine,
))
    ensures
        r.0.good == strom_reachable,
        r.0.label@ == "Strom"@,
        r.0.value == Some(cfg.strom.url),
        r.1.good == (cfg.open_live.register && cfg.open_live.url is Some),
        r.1.label@ == "Open Live"@,
        r.1.value == (if cfg.open_live.register {
            cfg.open_live.url
        } else {
            None
        }),
        r.1.otherwise@ == "not registering — feeds will not appear in Studio"@,
        r.2.good == r.2.value is Some,
        r.2.label@ == "Sending to"@,
        r.2.value == target(*cfg, *reported),
        r.2.otherwise@ == "unknown — Open Live has not reported its Strom host"@,
{
    let strom = HeaderLine {
        good: strom_reachable,
        label: "Strom",
        value: Some(cfg.strom.url.clone()),
        otherwise: "",
    };
    let listed = registering(cfg);
    let open_live = HeaderLine {
        good: listed,
        label: "Open Live",
        value: if listed {
            copy_opt(&cfg.open_live.url)
        } else {
            None
        },
        otherwise: "not registering — feeds will not appear in Studio",
    };
    let host = sending_to(cfg, reported);
    let sending = HeaderLine {
        good: host.is_some(),
        label: "Sending to",
        value: host,
        otherwise: "unknown — Open Live has not reported its Strom host",
    };
    (strom, open_live, sending)
}

/// What the window says at the bottom: the last error, else what closing it does.
pub fn footer(last_error: &Option<String>) -> (r: (bool, String))
    ensures
        r.0 == last_error is Some,
        r.1@ == (match *last_error {
            Some(e) => e@,
            None => "Closing this window stops every feed and removes its flow from Strom."@,
        }),
{
    match last_error {
        Some(e) => (true, e.clone()),
        None => (
            false,
            "Closing this window stops every feed and removes its flow from Strom.".to_owned(),
        ),
    }
}

// ---------------------------------------------------------------------------
// Devices and streams
// ---------------------------------------------------------------------------

/// One capture device: what it is called, and whether it can be started or stopped.
#[derive(Debug)]
pub struct DeviceRow {
    pub input_id: String,
    pub label: String,
    pub provider: Option<String>,
    pub streaming: bool,
}

pub open spec fn is_row(row: DeviceRow, device: CaptureDevice, active: Map<Seq<char>, ActiveView>) -> bool {
    &&& row.input_id@ == id_of_device(device.id@)
    &&& row.label == device.display_name
    &&& opt_text(row.provider) == (match device.provider {
        Some(p) => Some("["@ + p@ + "]"@),
        None => None,
    })
    &&& row.streaming == active.contains_key(id_of_device(device.id@))
}

/// The devices, each with what can be done about it.
pub fn device_rows(devices: &Vec<CaptureDevice>, active: &Book<ActiveView>) -> (r: Vec<DeviceRow>)
    ensures
        r@.len() == devices@.len(),
        forall|i: int| 0 <= i < r@.len() ==> is_row(#[trigger] r@[i], devices@[i], active@),
{
    let mut rows: Vec<DeviceRow> = Vec::new();
    let mut i: usize = 0;
    while i < devices.len()
        invariant
            i <= devices@.len(),
            rows@.len() == i,
            forall|j: int| 0 <= j < i ==> is_row(#[trigger] rows@[j], devices@[j], active@),
        decreases devices@.len() - i,
    {
        let device = &devices[i];
        let input_id = input_id_for_device(device.id.as_str());
        let streaming = active.get(input_id.as_str()).is_some();
        let provider = match &device.provider {
            Some(p) => Some("[".to_owned().concat(p.as_str()).concat("]")),
            None => None,
        };
        rows.push(
            DeviceRow { input_id, label: device.display_name.clone(), provider, streaming },
        );
        i = i + 1;
    }
    rows
}

/// One feed: how it stands, and where it goes.
#[derive(Debug)]
pub struct StreamRow {
    pub input_id: String,
    pub label: String,
    pub description: Description,
    pub uplink: Option<UplinkStats>,
    pub address: String,
    pub error: Option<String>,
}

/// An input without a status counts as idle.
pub open spec fn shown_state(status: Option<InputStatus>) -> InputState {
    match status {
        Some(s) => s.state,
        None => InputState::Idle,
    }
}

pub open spec fn is_stream(row: StreamRow, view: ActiveView, status: Option<InputStatus>) -> bool {
    &&& row.label == view.label
    &&& row.address == view.listener_address
    &&& row.description.colour == colour_of(shown_state(status))
    &&& row.description.label@ == label_of(shown_state(status))
    &&& row.description.hint@ == hint_of(shown_state(status))
    &&& row.uplink == (match status {
        Some(s) => s.uplink,
        None => None,
    })
    &&& row.error == (match status {
        Some(s) => s.last_error,
        None => None,
    })
}

/// The feeds in the order of their ids, each once.
pub open spec fn in_order(rows: Seq<StreamRow>) -> bool {
    forall|i: int, j: int|
        0 <= i < j < rows.len() ==> precedes(
            (#[trigger] rows[i]).input_id@,
            (#[trigger] rows[j]).input_id@,
        )
}

pub open spec fn row_for(rows: Seq<StreamRow>, id: Seq<char>) -> bool {
    exists|i: int| 0 <= i < rows.len() && (#[trigger] rows[i]).input_id@ == id
}

fn stream_row(id: &String, view: &ActiveView, state: &SharedState) -> (r: StreamRow)
    requires
        state.wf(),
    ensures
        r.input_id == *id,
        is_stream(r, *view, state.status(id@)),
{
    match state.find(id.as_str()) {
        Some(s) => StreamRow {
            input_id: id.clone(),
            label: view.label.clone(),
            description: describe(s.state),
            uplink: s.uplink,
            address: view.listener_address.clone(),
            error: copy_opt(&s.last_error),
        },
        None => StreamRow {
            input_id: id.clone(),
            label: view.label.clone(),
            description: describe(InputState::Idle),
            uplink: None,
            address: view.listener_address.clone(),
            error: None,
        },
    }
}

/// The feeds that stream, by input id.
pub fn stream_rows(active: &Book<ActiveView>, state: &SharedState) -> (r: Vec<StreamRow>)
    requires
        state.wf(),
    ensures
        in_order(r@),
        forall|id: Seq<char>| #[trigger] row_for(r@, id) <==> active@.contains_key(id),
        forall|i: int|
            0 <= i < r@.len() ==> is_stream(
                #[trigger] r@[i],
                active@[r@[i].input_id@],
                state.status(r@[i].input_id@),
            ),
{
    let mut names: Vec<String> = Vec::new();
    active.list_names(&mut names);
    let mut rows: Vec<StreamRow> = Vec::new();
    let mut i: usize = 0;
    while i < names.len()
        invariant
            i <= names@.len(),
            state.wf(),
            ascending(names@),
            forall|id: Seq<char>| #[trigger] listed(names@, id) <==> active@.contains_key(id),
            rows@.len() == i,
            forall|j: int| 0 <= j < i ==> (#[trigger] rows@[j]).input_id == names@[j],
            forall|j: int|
                0 <= j < i ==> is_stream(
                    #[trigger] rows@[j],
                    active@[rows@[j].input_id@],
                    state.status(rows@[j].input_id@),
                ),
        decreases names@.len() - i,
    {
        assert(listed(names@, names@[i as int]@));
        if let Some(view) = active.get(names[i].as_str()) {
            rows.push(stream_row(&names[i], view, state));
        }
        i = i + 1;
    }
    proof {
        assert forall|i: int, j: int| 0 <= i < j < rows@.len() implies precedes(
            (#[trigger] rows@[i]).input_id@,
            (#[trigger] rows@[j]).input_id@,
        ) by {
            assert(rows@[i].input_id == names@[i] && rows@[j].input_id == names@[j]);
        }
        assert forall|id: Seq<char>| #[trigger] row_for(rows@, id) <==> active@.contains_key(
            id,
        ) by {
            if row_for(rows@, id) {
                let k = choose|k: int| 0 <= k < rows@.len() && (#[trigger] rows@[k]).input_id@ == id;
                assert(names@[k]@ == id);
                assert(listed(names@, id));
            }
            if active@.contains_key(id) {
                assert(listed(names@, id));
                let k = choose|k: int| 0 <= k < names@.len() && (#[trigger] names@[k])@ == id;
                assert(rows@[k].input_id@ == id);
            }
        }
    }
    rows
}

// ---------------------------------------------------------------------------
// The settings form
// ---------------------------------------------------------------------------

/// The fields of the settings form.
#[derive(Clone, Copy, Debug, PartialEq, Eq, Structural)]
pub enum Field {
    Name,
    OpenLiveUrl,
    Credential,
    CredentialKind,
    Register,
    StromUrl,
    CloudHost,
    Direction,
    PublicHost,
    PortRange,
    Latency,
    CaptureFormat,
    Bitrate,
}

pub open spec fn field_label(field: Field) -> Seq<char> {
    match field {
        Field::Name => "Name"@,
        Field::OpenLiveUrl => "Open Live URL"@,
        Field::Credential => "Credential"@,
        Field::CredentialKind => "Credential kind"@,
        Field::Register => "Register sources"@,
        Field::StromUrl => "Local Strom"@,
        Field::CloudHost => "Cloud Strom host"@,
        Field::Direction => "Uplink"@,
        Field::PublicHost => "Our public address"@,
        Field::PortRange => "SRT ports"@,
        Field::Latency => "SRT latency (ms)"@,
        Field::CaptureFormat => "Capture format"@,
        Field::Bitrate => "Bitrate (kbps)"@,
    }
}

pub fn label_field(field: Field) -> (r: &'static str)
    ensures
        r@ == field_label(field),
{
    match field {
        Field::Name => "Name",
        Field::OpenLiveUrl => "Open Live URL",
        Field::Credential => "Credential",
        Field::CredentialKind => "Credential kind",
        Field::Register => "Register sources",
        Field::StromUrl => "Local Strom",
        Field::CloudHost => "Cloud Strom host",
        Field::Direction => "Uplink",
        Field::PublicHost => "Our public address",
        Field::PortRange => "SRT ports",
        Field::Latency => "SRT latency (ms)",
        Field::CaptureFormat => "Capture format",
        Field::Bitrate => "Bitrate (kbps)",
    }
}

/// The fields in order. This machine's address is asked for only where the cloud dials
/// it.
pub open spec fn fields_shown(mode: UplinkMode) -> Seq<Field> {
    let before = seq![
        Field::Name,
        Field::OpenLiveUrl,
        Field::Credential,
        Field::CredentialKind,
        Field::Register,
        Field::StromUrl,
        Field::CloudHost,
        Field::Direction,
    ];
    let after = seq![Field::PortRange, Field::Latency, Field::CaptureFormat, Field::Bitrate];
    if cloud_dials(mode) {
        before.push(Field::PublicHost) + after
    } else {
        before + after
    }
}

pub fn settings_form(mode: UplinkMode) -> (r: Vec<Field>)
    ensures
        r@ == fields_shown(mode),
{
    let mut fields: Vec<Field> = Vec::new();
    fields.push(Field::Name);
    fields.push(Field::OpenLiveUrl);
    fields.push(Field::Credential);
    fields.push(Field::CredentialKind);
    fields.push(Field::Register);
    fields.push(Field::StromUrl);
    fields.push(Field::CloudHost);
    fields.push(Field::Direction);
    if needs_public_host(mode) {
        fields.push(Field::PublicHost);
    }
    fields.push(Field::PortRange);
    fields.push(Field::Latency);
    fields.push(Field::CaptureFormat);
    fields.push(Field::Bitrate);
    assert(fields@ =~= fields_shown(mode));
    fields
}

/// A live input keeps the connection it was started with, so the settings are locked
/// while anything streams.
pub fn settings_lock(streaming: bool) -> (r: Option<&'static str>)
    ensures
        r is Some <==> streaming,
        r is Some ==> r->0@
            == "Stop every feed before changing these — a live input keeps the connection it was started with."@,
{
    if streaming {
        Some(
            "Stop every feed before changing these — a live input keeps the connection it was started with.",
        )
    } else {
        None
    }
}

// ---------------------------------------------------------------------------
// What the window shows
// ---------------------------------------------------------------------------

/// Each state has a label of its own, and only the two that build a flow share one: an
/// input that runs is the only one called on air.
pub proof fn law_states_are_told_apart_by_their_labels(a: InputState, b: InputState)
    ensures
        label_of(a) == "on air"@ <==> a == InputState::Running,
        label_of(a) == label_of(b) ==> a == b || ((a == InputState::Starting || a
            == InputState::Provisioning) && (b == InputState::Starting || b
            == InputState::Provisioning)),
        colour_of(a) == colour_of(b) <==> label_of(a) == label_of(b),
{
    reveal_strlit("on air");
    reveal_strlit("waiting for a receiver");
    reveal_strlit("starting");
    reveal_strlit("Strom unreachable");
    reveal_strlit("failed");
    reveal_strlit("idle");
    assert("on air"@.len() == 6 && "waiting for a receiver"@.len() == 22 && "starting"@.len() == 8
        && "Strom unreachable"@.len() == 17 && "failed"@.len() == 6 && "idle"@.len() == 4);
    assert("on air"@[0] == 'o' && "failed"@[0] == 'f');
}

/// Feeds go to the host that is set, and to the one that was reported where none is.
pub proof fn law_feeds_go_to_the_host_that_is_set(cfg: GatewayConfig, reported: Option<String>)
    ensures
        cfg.app.uplink.host is Some && !blank(cfg.app.uplink.host->0@) ==> target(cfg, reported)
            == cfg.app.uplink.host,
        cfg.app.uplink.host is None || blank(cfg.app.uplink.host->0@) ==> target(cfg, reported)
            == reported,
{
}

/// A device's row has its name, what found it in brackets, and whether it streams.
pub proof fn law_a_row_shows_its_device(
    row: DeviceRow,
    device: CaptureDevice,
    active: Map<Seq<char>, ActiveView>,
)
    requires
        is_row(row, device, active),
    ensures
        row.input_id@ == id_of_device(device.id@),
        row.label == device.display_name,
        device.provider is Some ==> row.provider is Some && row.provider->0@ == "["@
            + device.provider->0@ + "]"@,
        device.provider is None ==> row.provider is None,
        row.streaming <==> active.contains_key(id_of_device(device.id@)),
{
}

/// A stream's row shows the state of its own input, idle where nothing is known of it,
/// with the last measurement and the last error.
pub proof fn law_a_stream_shows_its_own_input(
    row: StreamRow,
    view: ActiveView,
    status: Option<InputStatus>,
)
    requires
        is_stream(row, view, status),
    ensures
        row.label == view.label,
        row.address == view.listener_address,
        status is None ==> row.description.label@ == "idle"@ && row.uplink is None && row.error
            is None,
        status is Some ==> row.uplink == status->0.uplink && row.error == status->0.last_error,
        status is Some && status->0.state == InputState::Running ==> row.description.label@
            == "on air"@,
        status is Some && status->0.state == InputState::Stalled ==> row.description.label@
            == "waiting for a receiver"@,
        status is Some && status->0.state == InputState::Unknown ==> row.description.label@
            == "Strom unreachable"@,
        status is Some && status->0.state == InputState::Failed ==> row.description.label@
            == "failed"@,
{
}

/// The own address is asked for only where the cloud dials, and every other field always.
pub proof fn law_the_own_address_is_asked_for_where_it_is_dialled(mode: UplinkMode, field: Field)
    ensures
        fields_shown(mode).contains(Field::PublicHost) <==> mode != UplinkMode::Caller,
        field != Field::PublicHost ==> fields_shown(mode).contains(field),
        fields_shown(mode).no_duplicates(),
{
    let shown = fields_shown(mode);
    if cloud_dials(mode) {
        assert(shown =~= seq![
            Field::Name,
            Field::OpenLiveUrl,
            Field::Credential,
            Field::CredentialKind,
            Field::Register,
            Field::StromUrl,
            Field::CloudHost,
            Field::Direction,
            Field::PublicHost,
            Field::PortRange,
            Field::Latency,
            Field::CaptureFormat,
            Field::Bitrate,
        ]);
        assert(shown[8] == Field::PublicHost);
        assert(shown[9] == Field::PortRange && shown[10] == Field::Latency && shown[11]
            == Field::CaptureFormat && shown[12] == Field::Bitrate);
    } else {
        assert(shown =~= seq![
            Field::Name,
            Field::OpenLiveUrl,
            Field::Credential,
            Field::CredentialKind,
            Field::Register,
            Field::StromUrl,
            Field::CloudHost,
            Field::Direction,
            Field::PortRange,
            Field::Latency,
            Field::CaptureFormat,
            Field::Bitrate,
        ]);
        assert(shown[8] == Field::PortRange && shown[9] == Field::Latency && shown[10]
            == Field::CaptureFormat && shown[11] == Field::Bitrate);
    }
    assert(shown[0] == Field::Name && shown[1] == Field::OpenLiveUrl && shown[2]
        == Field::Credential && shown[3] == Field::CredentialKind && shown[4] == Field::Register
        && shown[5] == Field::StromUrl && shown[6] == Field::CloudHost && shown[7]
        == Field::Direction);
}

} // verus!
