use open_live_ingest::devices::{ChooseError, Device};
use open_live_ingest::gateway::book::Book;
use open_live_ingest::gateway::client::SrtUplink;
use open_live_ingest::gateway::config::{AppConfig, GatewayConfig};
use open_live_ingest::gateway::identity::PersistedState;
use open_live_ingest::gateway::registration::SourceResponse;
use open_live_ingest::gateway::runner::{
    bring_up_line, choose_devices as pick_devices, devices as list_devices, nothing_to_tear_down,
    on_cloud_host, plan_cloud_host, say_choose_error, state_change, status_row, strom_to_stop,
    summary, truncate, write_status_header, FlowFound, HostPlan,
};
use open_live_ingest::gateway::session::{input_for_device, ActiveInput, CaptureDevice};
use open_live_ingest::gateway::status::{InputState, InputStatus};
use open_live_ingest::json::Number;

fn device(id: &str, name: &str) -> CaptureDevice {
    CaptureDevice {
        id: id.to_string(),
        display_name: name.to_string(),
        provider: None,
    }
}

fn devices() -> Vec<CaptureDevice> {
    vec![
        device("d1", "OBS Virtual Camera"),
        device("d2", "FaceTime HD Camera"),
        device("d3", "DeckLink Mini Recorder"),
    ]
}

fn choose_devices(
    all: Vec<CaptureDevice>,
    include_virtual: bool,
    selection: Option<&str>,
) -> Result<Vec<Device>, ChooseError> {
    pick_devices(&all, include_virtual, selection)
}

#[test]
fn virtual_devices_are_skipped_by_default() {
    let chosen = choose_devices(devices(), false, None).unwrap();
    let names: Vec<&str> = chosen.iter().map(|d| d.name.as_str()).collect();
    assert_eq!(names, vec!["DeckLink Mini Recorder", "FaceTime HD Camera"]);
}

#[test]
fn all_includes_virtual_devices() {
    let chosen = choose_devices(devices(), true, None).unwrap();
    assert_eq!(chosen.len(), 3);
}

/// A fragment of a name is enough where it means one device only.
#[test]
fn a_device_can_be_selected_by_name_fragment() {
    let chosen = choose_devices(devices(), false, Some("facetime")).unwrap();
    assert_eq!(chosen.len(), 1);
    assert_eq!(chosen[0].name, "FaceTime HD Camera");
}

#[test]
fn a_device_can_be_selected_by_id() {
    let chosen = choose_devices(devices(), true, Some("d1")).unwrap();
    assert_eq!(chosen[0].name, "OBS Virtual Camera");
}

#[test]
fn several_devices_can_be_named_at_once() {
    let chosen = choose_devices(devices(), true, Some("facetime,obs")).unwrap();
    assert_eq!(chosen.len(), 2);
}

#[test]
fn a_chosen_device_keeps_what_is_known_of_it() {
    let mut all = devices();
    all[1].provider = Some("avfprovider".to_string());
    let chosen = choose_devices(all, true, Some("d2,d3")).unwrap();
    assert_eq!(chosen[0].provider.as_deref(), Some("avfprovider"));
    assert_eq!(chosen[1].provider, None);
}

/// Selection must not depend on position: a device list changes between runs, and a
/// number that meant one camera yesterday can mean another today.
#[test]
fn positions_are_not_accepted_as_selectors() {
    assert!(
        choose_devices(devices(), false, Some("1")).is_err(),
        "a bare number must not select by position"
    );
}

/// Starting the wrong camera is worse than asking again, so an ambiguous name is
/// refused rather than resolved by picking the first match.
#[test]
fn runner_an_ambiguous_name_is_refused() {
    let mut list = devices();
    list.push(device("d4", "Camera Link Pro"));
    let err = say_choose_error(&choose_devices(list, true, Some("camera")).unwrap_err());
    assert!(err.contains("matches"), "got {err}");
    assert_eq!(
        err,
        "\"camera\" matches 3 devices (Camera Link Pro, FaceTime HD Camera, OBS Virtual \
         Camera). Use a longer name or an id."
    );
}

#[test]
fn an_unknown_name_is_an_error() {
    assert!(choose_devices(devices(), false, Some("nonexistent")).is_err());
}

#[test]
fn runner_truncation_keeps_names_within_the_column() {
    assert_eq!(truncate("short", 10), "short");
    assert_eq!(
        truncate("an extremely long device name", 10)
            .chars()
            .count(),
        10
    );
}

#[test]
fn each_refused_choice_of_devices_says_why() {
    let none = choose_devices(devices(), false, Some("tape")).unwrap_err();
    assert_eq!(
        say_choose_error(&none),
        "no device matches \"tape\". Run `open-live-gateway devices` to see them."
    );
    let nothing = choose_devices(devices(), false, Some(" , ")).unwrap_err();
    assert_eq!(say_choose_error(&nothing), "--devices selected nothing");
}

#[test]
fn the_device_list_marks_what_is_skipped() {
    let shown = list_devices(&vec![
        device("v", "OBS Virtual Camera"),
        device("d", "DeckLink"),
    ]);
    let lines: Vec<&str> = shown.lines().collect();
    assert_eq!(lines[0], format!("{:<30} ID", "DEVICE"));
    assert_eq!(lines[1], format!("{:<30} {:<24} {}", "DeckLink", "d", ""));
    assert_eq!(
        lines[2],
        format!("{:<30} {:<24} {}", "OBS Virtual Camera", "v", "virtual — skipped unless --all")
    );
    assert_eq!(
        list_devices(&vec![]).trim_end(),
        "Strom reports no video sources on this machine."
    );
}

/// The total is rounded as a double prints without decimals: half to even.
#[test]
fn the_bring_up_line_rounds_the_total() {
    for (n, kbps) in [(1u32, 6000u32), (3, 2500), (1, 500), (1, 1500), (2, 1250), (1, 499)] {
        let total = n as f64 * kbps as f64 / 1000.0;
        assert_eq!(
            bring_up_line(n, "cloud", kbps),
            format!("Bringing up {n} device(s) to cloud — about {total:.0} Mbps in total.")
        );
    }
}

#[test]
fn feeds_go_to_the_configured_host_or_to_the_one_open_live_names() {
    let mut cfg = GatewayConfig::default();
    assert!(matches!(plan_cloud_host(&cfg), HostPlan::Ask));
    cfg.open_live.register = false;
    match plan_cloud_host(&cfg) {
        HostPlan::Refuse(why) => assert_eq!(
            why,
            "no cloud Strom host configured, and registration is off so there is nobody to ask"
        ),
        other => panic!("{other:?}"),
    }
    cfg.app.uplink.host = Some("h".to_string());
    assert!(matches!(plan_cloud_host(&cfg), HostPlan::Use(h) if h == "h"));
    assert_eq!(on_cloud_host(Some("x".to_string())).unwrap(), "x");
    assert_eq!(
        on_cloud_host(None).unwrap_err(),
        "Open Live did not report a Strom host — set [app.uplink] host"
    );
}

#[test]
fn the_summary_lists_what_came_up() {
    let cam = device("d1", "Cam 1");
    let input = input_for_device(&AppConfig::default(), &cam, 9000, "c", "Venue");
    let mut active = Book::new();
    active.insert(
        "dev-d1",
        ActiveInput {
            input,
            flow_id: "f".to_string(),
            device_id: "d1".to_string(),
        },
    );
    let shown = summary(
        &vec![
            Device { id: "d1".to_string(), name: "Cam 1".to_string(), provider: None },
            Device { id: "d2".to_string(), name: "Cam 2".to_string(), provider: None },
        ],
        &active,
    );
    let lines: Vec<&str> = shown.lines().collect();
    assert_eq!(lines[0], "");
    assert_eq!(
        lines[1],
        format!("{:<28} {:<22} {:<7} REGISTERED ADDRESS", "DEVICE", "SOURCE", "PORT")
    );
    assert_eq!(
        lines[2],
        format!("{:<28} {:<22} {:<7} {}", "Cam 1", "Venue — Cam 1", 9000, "srt://:9000?mode=listener")
    );
    assert_eq!(lines[3], "", "a device that did not come up has no row");
}

fn status(state: InputState, error: Option<&str>) -> InputStatus {
    InputStatus {
        id: "dev-a".to_string(),
        state,
        flow_id: "f".to_string(),
        gst_state: None,
        source_id: None,
        listener_address: "srt://:9000?mode=listener".to_string(),
        restarts: 0,
        last_error: error.map(str::to_string),
        uplink: None,
    }
}

#[test]
fn a_state_is_reported_when_it_changes_and_not_again() {
    let mut previous = Book::new();
    let stalled = status(InputState::Stalled, None);
    assert_eq!(
        state_change(&mut previous, &stalled).as_deref(),
        Some("  dev-a — waiting for a receiver")
    );
    assert_eq!(state_change(&mut previous, &stalled), None);
    for (state, error, said) in [
        (InputState::Running, None, "on air — the far end is receiving"),
        (InputState::Unknown, None, "lost contact with Strom"),
        (InputState::Failed, Some("boom"), "boom"),
        (InputState::Starting, None, "starting"),
        (InputState::Failed, None, "failed"),
        (InputState::Provisioning, None, "starting"),
        (InputState::Idle, None, "idle"),
    ] {
        assert_eq!(
            state_change(&mut previous, &status(state, error)),
            Some(format!("  dev-a — {said}"))
        );
    }
}

#[test]
fn a_strom_is_stopped_only_where_it_was_recorded_and_lives() {
    let mut persisted = PersistedState::default();
    assert_eq!(strom_to_stop(&persisted, true), None);
    persisted.strom_pid = Some(7);
    assert_eq!(strom_to_stop(&persisted, true), Some(7));
    assert_eq!(strom_to_stop(&persisted, false), None);
    assert_eq!(nothing_to_tear_down(true).trim_end(), "It stopped and removed its feeds.");
    assert_eq!(nothing_to_tear_down(false).trim_end(), "Nothing recorded as running.");
}

#[test]
fn a_status_row_names_flow_source_and_uplink() {
    assert_eq!(
        write_status_header().trim_end_matches('\n'),
        format!("{:<22} {:<10} {:<14} UPLINK", "INPUT", "FLOW", "OPEN LIVE")
    );
    let mut persisted = PersistedState::default();
    persisted.source_ids.insert("dev-a", "s1".to_string());
    let sources = vec![SourceResponse {
        id: "s1".to_string(),
        name: "n".to_string(),
        address: "a".to_string(),
        stream_type: "srt".to_string(),
        status: "active".to_string(),
        latency: None,
    }];
    let uplink = SrtUplink {
        bytes_sent: 12,
        rtt_ms: Some(Number::Float(31.4f64.to_bits())),
        send_rate_mbps: Some(Number::Float(2.0f64.to_bits())),
        packets_retransmitted: None,
        packets_sent_dropped: None,
        negotiated_latency_ms: None,
    };
    let row = |input: &str, flow: FlowFound, uplink: &Option<SrtUplink>| {
        status_row(&persisted, &sources, input, flow, uplink, "2.00", "31.4")
            .trim_end_matches('\n')
            .to_string()
    };
    let want = |input: &str, flow: &str, source: &str, uplink: &str| {
        format!("{input:<22} {flow:<10} {source:<14} {uplink}")
    };
    assert_eq!(
        row("dev-a", FlowFound::Running, &Some(uplink)),
        want("dev-a", "running", "active", "2.00 Mbps, rtt 31.4 ms")
    );
    assert_eq!(
        row("dev-b", FlowFound::Missing, &None),
        want("dev-b", "missing", "not registered", "-")
    );
    let bare = SrtUplink {
        bytes_sent: 12,
        rtt_ms: None,
        send_rate_mbps: Some(Number::PosInt(2)),
        packets_retransmitted: None,
        packets_sent_dropped: None,
        negotiated_latency_ms: None,
    };
    assert_eq!(
        row("dev-a", FlowFound::Stopped, &Some(bare)),
        want("dev-a", "stopped", "active", "12 bytes sent")
    );
    assert_eq!(
        row("dev-a", FlowFound::Unreachable, &None),
        want("dev-a", "unreachable", "active", "-")
    );
}
