//! The three things the gateway's command line does: bring devices up, tear them down,
//! report.

use crate::devices::{
    choice, devices_view, select_devices, selected, sorted_by_name, virtual_name,
    ChooseError, ChooseFault, Device, DeviceView,
};
use crate::flow::id_of_device;
use crate::gateway::book::Book;
use crate::gateway::client::SrtUplink;
use crate::gateway::config::GatewayConfig;
use crate::gateway::identity::PersistedState;
use crate::gateway::registration::SourceResponse;
use crate::gateway::session::{input_id_for_device, is_probably_virtual, ActiveInput, CaptureDevice};
use crate::gateway::status::{InputState, InputStatus};
use crate::report::{nearest, total_mbps};
use crate::text::{
    copy_opt, dec, decimal, join, joined, nonempty, opt_text, pad, padded, quote, quoted_text,
    same_text, shorten, shortened,
};
use vstd::prelude::*;

verus! {

// ---------------------------------------------------------------------------
// Devices
// ---------------------------------------------------------------------------

/// A capture device as a device that can be chosen.
pub open spec fn plain(d: CaptureDevice) -> DeviceView {
    DeviceView { id: d.id@, name: d.display_name@, provider: opt_text(d.provider) }
}

pub open spec fn plain_all(s: Seq<CaptureDevice>) -> Seq<DeviceView> {
    s.map_values(|d: CaptureDevice| plain(d))
}

fn plain_devices(all: &Vec<CaptureDevice>) -> (r: Vec<Device>)
    ensures
        devices_view(r@) == plain_all(all@),
{
    let mut out: Vec<Device> = Vec::new();
    let mut i: usize = 0;
    while i < all.len()
        invariant
            i <= all@.len(),
            out@.len() == i,
            forall|j: int| 0 <= j < i ==> (#[trigger] out@[j])@ == plain(all@[j]),
        decreases all@.len() - i,
    {
        out.push(
            Device {
                id: all[i].id.clone(),
                name: all[i].display_name.clone(),
                provider: copy_opt(&all[i].provider),
            },
        );
        i = i + 1;
    }
    assert(devices_view(out@) =~= plain_all(all@));
    out
}

/// Devices to bring up, after filtering and selection: in name order, or in the order of
/// the selection's entries where there is one. Matched by id or by name, never
/// by position, and an ambiguous name is refused rather than resolved.
pub fn choose_devices(
    all: &Vec<CaptureDevice>,
    include_virtual: bool,
    selection: Option<&str>,
) -> (r: Result<Vec<Device>, ChooseError>)
    ensures
        choice(r) == selected(
            plain_all(all@),
            include_virtual,
            match selection {
                Some(s) => Some(s@),
                None => None,
            },
        ),
{
    select_devices(plain_devices(all), include_virtual, selection)
}

/// Why a selection was refused, in words.
pub open spec fn choose_text(fault: ChooseFault) -> Seq<char> {
    match fault {
        ChooseFault::NoMatch(wanted) => "no device matches "@ + quoted_text(wanted)
            + ". Run `open-live-gateway devices` to see them."@,
        ChooseFault::Several(wanted, names) => quoted_text(wanted) + " matches "@ + dec(names.len())
            + " devices ("@ + joined(names, ", "@) + "). Use a longer name or an id."@,
        ChooseFault::Nothing => "--devices selected nothing"@,
    }
}

pub fn say_choose_error(e: &ChooseError) -> (r: String)
    ensures
        r@ == choose_text(e@),
{
    match e {
        ChooseError::NoMatch { wanted } => "no device matches ".to_owned().concat(
            quote(wanted.as_str()).as_str(),
        ).concat(". Run `open-live-gateway devices` to see them."),
        ChooseError::Several { wanted, names } => quote(wanted.as_str()).concat(" matches ").concat(
            decimal(names.len() as u64).as_str(),
        ).concat(" devices (").concat(join(names, ", ").as_str()).concat(
            "). Use a longer name or an id.",
        ),
        ChooseError::Nothing => "--devices selected nothing".to_owned(),
    }
}

pub open spec fn device_row(d: DeviceView) -> Seq<char> {
    padded(shortened(d.name, 30), 30) + " "@ + padded(shortened(d.id, 24), 24) + " "@ + (
    if virtual_name(d.name) {
        "virtual — skipped unless --all"@
    } else {
        ""@
    }) + "\n"@
}

pub open spec fn device_rows(s: Seq<DeviceView>) -> Seq<char>
    decreases s.len(),
{
    if s.len() == 0 {
        Seq::empty()
    } else {
        device_rows(s.drop_last()) + device_row(s.last())
    }
}

pub open spec fn device_table(s: Seq<DeviceView>) -> Seq<char> {
    if s.len() == 0 {
        "Strom reports no video sources on this machine.\n"@
    } else {
        padded("DEVICE"@, 30) + " ID\n"@ + device_rows(s)
            + "\n`up` starts all of these except the virtual ones.\nPick some with `up --devices \"FaceTime\"` or by id.\n"@
    }
}

fn write_device_row(d: &Device) -> (r: String)
    ensures
        r@ == device_row(d@),
{
    let note = if crate::devices::is_probably_virtual(d) {
        "virtual — skipped unless --all"
    } else {
        ""
    };
    pad(shorten(d.name.as_str(), 30).as_str(), 30).concat(" ").concat(
        pad(shorten(d.id.as_str(), 24).as_str(), 24).as_str(),
    ).concat(" ").concat(note).concat("\n")
}

/// What Strom can see, in name order, so that an operator can pick before starting
/// anything.
pub fn devices(all: &Vec<CaptureDevice>) -> (r: String)
    ensures
        r@ == device_table(crate::devices::candidates(plain_all(all@), true)),
{
    let sorted = sorted_by_name(plain_devices(all));
    let ghost views = devices_view(sorted@);
    if sorted.len() == 0 {
        return "Strom reports no video sources on this machine.\n".to_owned();
    }
    let mut rows = String::new();
    assert(rows@ =~= device_rows(views.subrange(0, 0)));
    let mut i: usize = 0;
    while i < sorted.len()
        invariant
            i <= sorted@.len(),
            views == devices_view(sorted@),
            rows@ == device_rows(views.subrange(0, i as int)),
        decreases sorted@.len() - i,
    {
        assert(views.subrange(0, i + 1).drop_last() =~= views.subrange(0, i as int));
        assert(views.subrange(0, i + 1).last() == sorted@[i as int]@);
        rows.append(write_device_row(&sorted[i]).as_str());
        i = i + 1;
    }
    assert(views.subrange(0, views.len() as int) =~= views);
    pad("DEVICE", 30).concat(" ID\n").concat(rows.as_str()).concat(
        "\n`up` starts all of these except the virtual ones.\nPick some with `up --devices \"FaceTime\"` or by id.\n",
    )
}

/// The line that says what is about to start. Each device costs an encoder and its own
/// share of the uplink.
pub fn bring_up_line(devices: u32, cloud_host: &str, bitrate_kbps: u32) -> (r: String)
    ensures
        r@ == "Bringing up "@ + dec(devices as nat) + " device(s) to "@ + cloud_host@
            + " — about "@ + dec(nearest(devices as int * bitrate_kbps as int, 1000) as nat)
            + " Mbps in total."@,
{
    "Bringing up ".to_owned().concat(decimal(devices as u64).as_str()).concat(
        " device(s) to ",
    ).concat(cloud_host).concat(" — about ").concat(
        decimal(total_mbps(devices, bitrate_kbps)).as_str(),
    ).concat(" Mbps in total.")
}

// ---------------------------------------------------------------------------
// Where feeds go
// ---------------------------------------------------------------------------

/// Where feeds are sent.
#[derive(Debug)]
pub enum HostPlan {
    /// The settings say it.
    Use(String),
    /// Open Live is asked.
    Ask,
    /// Nobody can be asked.
    Refuse(String),
}

pub open spec fn nobody_to_ask() -> Seq<char> {
    "no cloud Strom host configured, and registration is off so there is nobody to ask"@
}

/// Where feeds are sent: configured, or asked of Open Live where registration is on.
pub fn plan_cloud_host(cfg: &GatewayConfig) -> (r: HostPlan)
    ensures
        match nonempty(cfg.app.uplink.host) {
            Some(host) => r matches HostPlan::Use(h) && h@ == host,
            None => if cfg.open_live.register {
                r is Ask
            } else {
                r matches HostPlan::Refuse(e) && e@ == nobody_to_ask()
            },
        },
{
    if let Some(host) = &cfg.app.uplink.host {
        if !host.as_str().is_empty() {
            return HostPlan::Use(host.clone());
        }
    }
    if cfg.open_live.register {
        HostPlan::Ask
    } else {
        HostPlan::Refuse(
            "no cloud Strom host configured, and registration is off so there is nobody to ask".to_owned(),
        )
    }
}

/// What Open Live answered about its Strom.
pub fn on_cloud_host(reported: Option<String>) -> (r: Result<String, String>)
    ensures
        match reported {
            Some(host) => r == Ok::<String, String>(host),
            None => r is Err && r->Err_0@
                == "Open Live did not report a Strom host — set [app.uplink] host"@,
        },
{
    match reported {
        Some(host) => Ok(host),
        None => Err("Open Live did not report a Strom host — set [app.uplink] host".to_owned()),
    }
}

// ---------------------------------------------------------------------------
// What is running
// ---------------------------------------------------------------------------

pub fn truncate(s: &str, width: usize) -> (r: String)
    ensures
        r@ == shortened(s@, width as int),
{
    shorten(s, width)
}

pub open spec fn shown_name(a: ActiveInput) -> Seq<char> {
    match a.input.name {
        Some(name) => name@,
        None => a.input.id@,
    }
}

pub open spec fn active_row(d: DeviceView, a: ActiveInput) -> Seq<char> {
    padded(shortened(d.name, 28), 28) + " "@ + padded(shortened(shown_name(a), 22), 22) + " "@
        + padded(dec(a.input.uplink.port as nat), 7) + " "@ + a.input.uplink.cloud_address()
        + "\n"@
}

/// One row per device that was started.
pub open spec fn active_rows(s: Seq<DeviceView>, active: Map<Seq<char>, ActiveInput>) -> Seq<char>
    decreases s.len(),
{
    if s.len() == 0 {
        Seq::empty()
    } else {
        let before = active_rows(s.drop_last(), active);
        let id = id_of_device(s.last().id);
        if active.contains_key(id) {
            before + active_row(s.last(), active[id])
        } else {
            before
        }
    }
}

pub open spec fn summary_text(s: Seq<DeviceView>, active: Map<Seq<char>, ActiveInput>) -> Seq<char> {
    "\n"@ + padded("DEVICE"@, 28) + " "@ + padded("SOURCE"@, 22) + " "@ + padded("PORT"@, 7)
        + " REGISTERED ADDRESS\n"@ + active_rows(s, active)
        + "\nAssign these in Studio and activate the production; they read as inactive until\nsomething is receiving them. Ctrl-C stops and removes them.\n\n"@
}

fn write_active_row(d: &Device, a: &ActiveInput) -> (r: String)
    ensures
        r@ == active_row(d@, *a),
{
    let name = match &a.input.name {
        Some(name) => name.as_str(),
        None => a.input.id.as_str(),
    };
    pad(shorten(d.name.as_str(), 28).as_str(), 28).concat(" ").concat(
        pad(shorten(name, 22).as_str(), 22).as_str(),
    ).concat(" ").concat(
        pad(decimal(a.input.uplink.port as u64).as_str(), 7).as_str(),
    ).concat(" ").concat(a.input.uplink.cloud_uri().as_str()).concat("\n")
}

/// What was started, by device.
pub fn summary(devices: &Vec<Device>, active: &Book<ActiveInput>) -> (r: String)
    ensures
        r@ == summary_text(devices_view(devices@), active@),
{
    let ghost views = devices_view(devices@);
    let mut rows = String::new();
    assert(rows@ =~= active_rows(views.subrange(0, 0), active@));
    let mut i: usize = 0;
    while i < devices.len()
        invariant
            i <= devices@.len(),
            views == devices_view(devices@),
            rows@ == active_rows(views.subrange(0, i as int), active@),
        decreases devices@.len() - i,
    {
        assert(views.subrange(0, i + 1).drop_last() =~= views.subrange(0, i as int));
        assert(views.subrange(0, i + 1).last() == devices@[i as int]@);
        let id = input_id_for_device(devices[i].id.as_str());
        if let Some(a) = active.get(id.as_str()) {
            rows.append(write_active_row(&devices[i], a).as_str());
        }
        i = i + 1;
    }
    assert(views.subrange(0, views.len() as int) =~= views);
    "\n".to_owned().concat(pad("DEVICE", 28).as_str()).concat(" ").concat(
        pad("SOURCE", 22).as_str(),
    ).concat(" ").concat(pad("PORT", 7).as_str()).concat(" REGISTERED ADDRESS\n").concat(
        rows.as_str(),
    ).concat(
        "\nAssign these in Studio and activate the production; they read as inactive until\nsomething is receiving them. Ctrl-C stops and removes them.\n\n",
    )
}

/// How a state reads in the log.
pub open spec fn detail_text(state: InputState, last_error: Option<Seq<char>>) -> Seq<char> {
    match state {
        InputState::Running => "on air — the far end is receiving"@,
        InputState::Stalled => "waiting for a receiver"@,
        InputState::Unknown => "lost contact with Strom"@,
        InputState::Failed => match last_error {
            Some(e) => e,
            None => "failed"@,
        },
        InputState::Starting | InputState::Provisioning => "starting"@,
        InputState::Idle => "idle"@,
    }
}

fn write_detail(status: &InputStatus) -> (r: String)
    ensures
        r@ == detail_text(status.state, opt_text(status.last_error)),
{
    match status.state {
        InputState::Running => "on air — the far end is receiving".to_owned(),
        InputState::Stalled => "waiting for a receiver".to_owned(),
        InputState::Unknown => "lost contact with Strom".to_owned(),
        InputState::Failed => match &status.last_error {
            Some(e) => e.clone(),
            None => "failed".to_owned(),
        },
        InputState::Starting | InputState::Provisioning => "starting".to_owned(),
        InputState::Idle => "idle".to_owned(),
    }
}

/// The line for an input whose state changed since it was last looked at, and none for
/// one whose state did not.
pub fn state_change(previous: &mut Book<InputState>, status: &InputStatus) -> (r: Option<String>)
    ensures
        final(previous)@ == old(previous)@.insert(status.id@, status.state),
        opt_text(r) == (if old(previous)@.contains_key(status.id@) && old(previous)@[status.id@]
            == status.state {
            None
        } else {
            Some(
                "  "@ + status.id@ + " — "@ + detail_text(
                    status.state,
                    opt_text(status.last_error),
                ),
            )
        }),
{
    let unchanged = match previous.get(status.id.as_str()) {
        Some(state) => *state == status.state,
        None => false,
    };
    previous.insert(status.id.as_str(), status.state);
    if unchanged {
        return None;
    }
    Some(
        "  ".to_owned().concat(status.id.as_str()).concat(" — ").concat(
            write_detail(status).as_str(),
        ),
    )
}

// ---------------------------------------------------------------------------
// Teardown and status
// ---------------------------------------------------------------------------

/// What teardown says where nothing is on record. A run that was asked to stop tears
/// down what it started, so an empty record then means that it did the work.
pub fn nothing_to_tear_down(signalled: bool) -> (r: String)
    ensures
        r@ == (if signalled {
            "It stopped and removed its feeds."@
        } else {
            "Nothing recorded as running."@
        }),
{
    if signalled {
        "It stopped and removed its feeds.".to_owned()
    } else {
        "Nothing recorded as running.".to_owned()
    }
}

/// The Strom to stop: one that a run started and that is still alive. An adopted Strom
/// is never recorded, so never stopped.
pub fn strom_to_stop(persisted: &PersistedState, alive: bool) -> (r: Option<u32>)
    ensures
        r == (if alive {
            persisted.strom_pid
        } else {
            None
        }),
{
    if alive {
        persisted.strom_pid
    } else {
        None
    }
}

/// What Strom answered about a flow.
#[derive(Clone, Copy, Debug, PartialEq, Eq, Structural)]
pub enum FlowFound {
    Running,
    Stopped,
    Missing,
    Unreachable,
}

pub open spec fn flow_word(found: FlowFound) -> Seq<char> {
    match found {
        FlowFound::Running => "running"@,
        FlowFound::Stopped => "stopped"@,
        FlowFound::Missing => "missing"@,
        FlowFound::Unreachable => "unreachable"@,
    }
}

/// The status of the first source with an id.
pub open spec fn source_status(sources: Seq<SourceResponse>, id: Seq<char>) -> Option<Seq<char>>
    decreases sources.len(),
{
    if sources.len() == 0 {
        None
    } else if sources[0].id@ == id {
        Some(sources[0].status@)
    } else {
        source_status(sources.drop_first(), id)
    }
}

/// What Open Live says of an input's source.
pub open spec fn source_word(
    source_ids: Map<Seq<char>, String>,
    sources: Seq<SourceResponse>,
    input_id: Seq<char>,
) -> Seq<char> {
    let known = if source_ids.contains_key(input_id) {
        source_status(sources, source_ids[input_id]@)
    } else {
        None
    };
    match known {
        Some(status) => status,
        None => "not registered"@,
    }
}

fn find_source_status(sources: &Vec<SourceResponse>, id: &str) -> (r: Option<String>)
    ensures
        opt_text(r) == source_status(sources@, id@),
{
    let mut i: usize = 0;
    assert(sources@.subrange(0, sources@.len() as int) =~= sources@);
    while i < sources.len()
        invariant
            i <= sources@.len(),
            source_status(sources@, id@) == source_status(
                sources@.subrange(i as int, sources@.len() as int),
                id@,
            ),
        decreases sources@.len() - i,
    {
        let ghost rest = sources@.subrange(i as int, sources@.len() as int);
        assert(rest[0] == sources@[i as int]);
        if same_text(sources[i].id.as_str(), id) {
            return Some(sources[i].status.clone());
        }
        assert(rest.drop_first() =~= sources@.subrange(i + 1, sources@.len() as int));
        i = i + 1;
    }
    None
}

/// The uplink column: the rate and the round trip where both are known, with two digits
/// and one behind the point as they are handed in, else the bytes that went out.
pub open spec fn uplink_word(
    uplink: Option<SrtUplink>,
    rate: Seq<char>,
    rtt: Seq<char>,
) -> Seq<char> {
    match uplink {
        Some(u) => if u.send_rate_mbps is Some && u.rtt_ms is Some {
            rate + " Mbps, rtt "@ + rtt + " ms"@
        } else {
            dec(u.bytes_sent as nat) + " bytes sent"@
        },
        None => "-"@,
    }
}

pub open spec fn status_header() -> Seq<char> {
    padded("INPUT"@, 22) + " "@ + padded("FLOW"@, 10) + " "@ + padded("OPEN LIVE"@, 14)
        + " UPLINK\n"@
}

pub fn write_status_header() -> (r: String)
    ensures
        r@ == status_header(),
{
    pad("INPUT", 22).concat(" ").concat(pad("FLOW", 10).as_str()).concat(" ").concat(
        pad("OPEN LIVE", 14).as_str(),
    ).concat(" UPLINK\n")
}

/// One line of the status report.
pub fn status_row(
    persisted: &PersistedState,
    sources: &Vec<SourceResponse>,
    input_id: &str,
    flow: FlowFound,
    uplink: &Option<SrtUplink>,
    rate: &str,
    rtt: &str,
) -> (r: String)
    ensures
        r@ == padded(shortened(input_id@, 22), 22) + " "@ + padded(flow_word(flow), 10) + " "@
            + padded(
            shortened(source_word(persisted.source_ids@, sources@, input_id@), 14),
            14,
        ) + " "@ + uplink_word(*uplink, rate@, rtt@) + "\n"@,
{
    let flow_state = match flow {
        FlowFound::Running => "running",
        FlowFound::Stopped => "stopped",
        FlowFound::Missing => "missing",
        FlowFound::Unreachable => "unreachable",
    };
    let known = match persisted.source_ids.get(input_id) {
        Some(id) => find_source_status(sources, id.as_str()),
        None => None,
    };
    let source_state = match known {
        Some(status) => status,
        None => "not registered".to_owned(),
    };
    let uplink_cell = match uplink {
        Some(u) => if u.send_rate_mbps.is_some() && u.rtt_ms.is_some() {
            rate.to_owned().concat(" Mbps, rtt ").concat(rtt).concat(" ms")
        } else {
            decimal(u.bytes_sent).concat(" bytes sent")
        },
        None => "-".to_owned(),
    };
    pad(shorten(input_id, 22).as_str(), 22).concat(" ").concat(
        pad(flow_state, 10).as_str(),
    ).concat(" ").concat(pad(shorten(source_state.as_str(), 14).as_str(), 14).as_str()).concat(
        " ",
    ).concat(uplink_cell.as_str()).concat("\n")
}

// ---------------------------------------------------------------------------
// What is printed
// ---------------------------------------------------------------------------

/// A device is chosen and listed by its id, its name and its provider, as they are.
pub proof fn law_a_capture_device_is_told_as_it_is(s: Seq<CaptureDevice>, i: int)
    requires
        0 <= i < s.len(),
    ensures
        plain_all(s).len() == s.len(),
        plain_all(s)[i].id == s[i].id@,
        plain_all(s)[i].name == s[i].display_name@,
        plain_all(s)[i].provider is Some <==> s[i].provider is Some,
        s[i].provider is Some ==> plain_all(s)[i].provider == Some(s[i].provider->0@),
{
}

/// Lines follow one another, one per device; in the summary only the devices that stream
/// have one, each with its own name, port and the address that the cloud is given.
pub proof fn law_each_device_has_its_line(
    s: Seq<DeviceView>,
    d: DeviceView,
    active: Map<Seq<char>, ActiveInput>,
)
    ensures
        device_rows(s.push(d)) == device_rows(s) + device_row(d),
        device_row(d) == padded(shortened(d.name, 30), 30) + " "@ + padded(
            shortened(d.id, 24),
            24,
        ) + " "@ + (if virtual_name(d.name) {
            "virtual — skipped unless --all"@
        } else {
            ""@
        }) + "\n"@,
        !active.contains_key(id_of_device(d.id)) ==> active_rows(s.push(d), active) == active_rows(
            s,
            active,
        ),
        active.contains_key(id_of_device(d.id)) ==> {
            let a = active[id_of_device(d.id)];
            active_rows(s.push(d), active) == active_rows(s, active) + (padded(
                shortened(d.name, 28),
                28,
            ) + " "@ + padded(
                shortened(
                    if a.input.name is Some {
                        a.input.name->0@
                    } else {
                        a.input.id@
                    },
                    22,
                ),
                22,
            ) + " "@ + padded(dec(a.input.uplink.port as nat), 7) + " "@
                + a.input.uplink.cloud_address() + "\n"@)
        },
{
    assert(s.push(d).drop_last() =~= s);
}

/// An input is said to be on air exactly when it runs, and a failure says its reason.
pub proof fn law_only_a_running_input_is_said_to_be_on_air(
    state: InputState,
    last_error: Option<Seq<char>>,
)
    ensures
        state == InputState::Running ==> detail_text(state, last_error)
            == "on air — the far end is receiving"@,
        state == InputState::Stalled ==> detail_text(state, last_error)
            == "waiting for a receiver"@,
        state == InputState::Unknown ==> detail_text(state, last_error)
            == "lost contact with Strom"@,
        state == InputState::Failed && last_error is Some ==> detail_text(state, last_error)
            == last_error->0,
        state == InputState::Failed && last_error is None ==> detail_text(state, last_error)
            == "failed"@,
        state == InputState::Starting || state == InputState::Provisioning ==> detail_text(
            state,
            last_error,
        ) == "starting"@,
        state == InputState::Idle ==> detail_text(state, last_error) == "idle"@,
{
}

/// The status of an input's source is that of the first listed source with the id that
/// was recorded for the input; without either it is not registered.
pub proof fn law_a_source_is_found_by_its_recorded_id(
    source_ids: Map<Seq<char>, String>,
    sources: Seq<SourceResponse>,
    input_id: Seq<char>,
    k: int,
)
    ensures
        !source_ids.contains_key(input_id) ==> source_word(source_ids, sources, input_id)
            == "not registered"@,
        source_ids.contains_key(input_id) && 0 <= k < sources.len() && sources[k].id@
            == source_ids[input_id]@ && (forall|j: int|
            0 <= j < k ==> (#[trigger] sources[j]).id@ != source_ids[input_id]@) ==> source_word(
            source_ids,
            sources,
            input_id,
        ) == sources[k].status@,
        source_ids.contains_key(input_id) && (forall|j: int|
            0 <= j < sources.len() ==> (#[trigger] sources[j]).id@ != source_ids[input_id]@)
            ==> source_word(source_ids, sources, input_id) == "not registered"@,
{
    if source_ids.contains_key(input_id) {
        lemma_source_status(sources, source_ids[input_id]@, k);
    }
}

proof fn lemma_source_status(s: Seq<SourceResponse>, id: Seq<char>, k: int)
    ensures
        0 <= k < s.len() && s[k].id@ == id && (forall|j: int|
            0 <= j < k ==> (#[trigger] s[j]).id@ != id) ==> source_status(s, id) == Some(
            s[k].status@,
        ),
        (forall|j: int| 0 <= j < s.len() ==> (#[trigger] s[j]).id@ != id) ==> source_status(s, id)
            is None,
    decreases s.len(),
{
    if s.len() > 0 {
        let rest = s.drop_first();
        lemma_source_status(rest, id, k - 1);
        assert forall|j: int| 0 <= j < rest.len() implies #[trigger] rest[j] == s[j + 1] by {}
        if 0 < k < s.len() {
            assert(rest[k - 1] == s[k]);
        }
    }
}

/// An uplink is told by its rate and round trip where both were measured, and else by
/// the bytes sent; a flow by what was found of it.
pub proof fn law_an_uplink_is_told_by_what_was_measured(
    u: SrtUplink,
    rate: Seq<char>,
    rtt: Seq<char>,
)
    ensures
        uplink_word(None, rate, rtt) == "-"@,
        u.send_rate_mbps is Some && u.rtt_ms is Some ==> uplink_word(Some(u), rate, rtt) == rate
            + " Mbps, rtt "@ + rtt + " ms"@,
        u.send_rate_mbps is None || u.rtt_ms is None ==> uplink_word(Some(u), rate, rtt) == dec(
            u.bytes_sent as nat,
        ) + " bytes sent"@,
        flow_word(FlowFound::Running) == "running"@,
        flow_word(FlowFound::Stopped) == "stopped"@,
        flow_word(FlowFound::Missing) == "missing"@,
        flow_word(FlowFound::Unreachable) == "unreachable"@,
{
}

/// Devices are listed under a heading, one line each, and where there are none it says so.
pub proof fn law_devices_are_listed_under_a_heading(s: Seq<DeviceView>)
    ensures
        s.len() == 0 ==> device_table(s) == "Strom reports no video sources on this machine.\n"@,
        s.len() > 0 ==> device_table(s) == padded("DEVICE"@, 30) + " ID\n"@ + device_rows(s)
            + "\n`up` starts all of these except the virtual ones.\nPick some with `up --devices \"FaceTime\"` or by id.\n"@,
        status_header() == padded("INPUT"@, 22) + " "@ + padded("FLOW"@, 10) + " "@ + padded(
            "OPEN LIVE"@,
            14,
        ) + " UPLINK\n"@,
{
}

/// A refused choice quotes the entry that it is about and, where several devices are
/// meant, counts and lists them.
pub proof fn law_a_refused_choice_quotes_its_entry(wanted: Seq<char>, names: Seq<Seq<char>>)
    ensures
        choose_text(ChooseFault::NoMatch(wanted)) == "no device matches "@ + quoted_text(wanted)
            + ". Run `open-live-gateway devices` to see them."@,
        choose_text(ChooseFault::Several(wanted, names)) == quoted_text(wanted) + " matches "@
            + dec(names.len()) + " devices ("@ + joined(names, ", "@)
            + "). Use a longer name or an id."@,
        choose_text(ChooseFault::Nothing) == "--devices selected nothing"@,
{
}

} // verus!
