use open_live_ingest::gateway::client::FlowState;
use open_live_ingest::gateway::config::{
    AppConfig, CaptureConfig, GatewayConfig, InputConfig, UplinkConfig, UplinkMode, UplinkTemplate,
    VideoConfig,
};
use open_live_ingest::gateway::flow::{build, flow_id};
use open_live_ingest::gateway::session::{
    allocate_port, conflicting_flows, flow_capture_device, input_for_device, input_id_for_device,
    is_probably_virtual, orphan_ids, ports_in_config, source_name_for_device, source_name_prefix,
    started_input, CaptureDevice,
};
use open_live_ingest::json::{Fields, Json};
use std::collections::BTreeSet;

fn device(id: &str, name: &str) -> CaptureDevice {
    CaptureDevice {
        id: id.to_string(),
        display_name: name.to_string(),
        provider: Some("avfprovider".to_string()),
    }
}

fn block(id: &str, definition: &str, properties: Json) -> Json {
    Fields::new()
        .with("id", Json::text(id))
        .with("block_definition_id", Json::text(definition))
        .with("properties", properties)
        .object()
}

fn flow(id: &str, blocks: Vec<Json>) -> Json {
    Fields::new()
        .with("id", Json::text(id))
        .with("blocks", Json::List(blocks))
        .object()
}

fn capture_of(device: &str) -> Json {
    let properties = Fields::new().with("video_device", Json::text(device)).object();
    block("capture", "builtin.local_input", properties)
}

/// Picking the same camera after a restart must address the same flow and source,
/// or Studio's source list fills up with duplicates of one device.
#[test]
fn a_flows_capture_device_is_read_from_its_local_input_block() {
    let flow = flow(
        "f1",
        vec![
            capture_of("dev-abc"),
            block("encoder", "builtin.videoenc", Fields::new().object()),
        ],
    );
    assert_eq!(flow_capture_device(&flow).as_deref(), Some("dev-abc"));
}

/// A flow with no local input, a test pattern, an SRT relay, someone else's work, must
/// not be mistaken for one holding a camera.
#[test]
fn a_flow_without_a_local_input_has_no_capture_device() {
    let other = flow("f1", vec![block("e", "builtin.videoenc", Fields::new().object())]);
    assert!(flow_capture_device(&other).is_none());

    let unset = flow("f2", vec![block("c", "builtin.local_input", Fields::new().object())]);
    assert!(
        flow_capture_device(&unset).is_none(),
        "no device set is not a device"
    );
}

/// Two venues streaming the same model of camera must be distinguishable in Studio,
/// and cleanup has to be able to recognise its own sources.
#[test]
fn source_names_carry_the_gateway_name() {
    let name = source_name_for_device("Venue A", &device("d", "FaceTime HD Camera"));
    assert_eq!(name, "Venue A — FaceTime HD Camera");
    assert!(name.starts_with(&source_name_prefix("Venue A")));
    assert!(!name.starts_with(&source_name_prefix("Venue B")));
}

#[test]
fn a_padded_gateway_name_still_produces_a_matching_prefix() {
    let name = source_name_for_device("  Venue A  ", &device("d", "Cam"));
    assert!(name.starts_with(&source_name_prefix("Venue A")));
}

#[test]
fn virtual_devices_are_recognised_by_name() {
    assert!(is_probably_virtual(&device("d1", "OBS Virtual Camera")));
    assert!(is_probably_virtual(&device("d2", "Screen Capture")));
    assert!(is_probably_virtual(&device("d3", "v4l2loopback")));
}

/// Real hardware must never be filtered out: a venue whose camera vanished from the
/// list because of a name heuristic is a worse outcome than a stray virtual device.
#[test]
fn real_capture_hardware_is_not_filtered() {
    for name in [
        "FaceTime HD Camera",
        "DeckLink Mini Recorder 4K",
        "Magewell USB Capture SDI",
        "Luddes Camera",
        "Logitech BRIO",
    ] {
        assert!(
            !is_probably_virtual(&device("d", name)),
            "{name} must not be treated as virtual"
        );
    }
}

#[test]
fn input_ids_are_stable_per_device() {
    let a = input_id_for_device("dev-d24eb9fb6733c220");
    assert_eq!(a, input_id_for_device("dev-d24eb9fb6733c220"));
    assert_ne!(a, input_id_for_device("dev-f8bbeeb309724160"));
}

#[test]
fn input_ids_survive_awkward_device_ids() {
    assert_eq!(
        input_id_for_device("v4l2:/dev/video0"),
        "dev-v4l2--dev-video0"
    );
    assert_eq!(input_id_for_device("plain"), "dev-plain");
}

fn template(range: &str) -> UplinkTemplate {
    UplinkTemplate {
        port_range: range.to_string(),
        ..UplinkTemplate::default()
    }
}

#[test]
fn ports_are_allocated_lowest_first_and_skip_taken_ones() {
    let t = template("9000-9002");
    let mut taken = BTreeSet::new();
    assert_eq!(allocate_port(&t, &taken).unwrap(), 9000);
    taken.insert(9000);
    assert_eq!(allocate_port(&t, &taken).unwrap(), 9001);
    taken.insert(9001);
    assert_eq!(allocate_port(&t, &taken).unwrap(), 9002);
}

/// Better a clear error than silently reusing a port and having two inputs fight over
/// one SRT listener.
#[test]
fn session_an_exhausted_range_is_an_error() {
    let t = template("9000-9001");
    let taken = BTreeSet::from([9000, 9001]);
    let err = allocate_port(&t, &taken).expect_err("exhausted range must fail");
    assert!(err.message().contains("9000-9001"));
}

#[test]
fn a_malformed_range_is_an_error() {
    for bad in ["9000", "9100-9000", "", "abc-def"] {
        assert!(
            allocate_port(&template(bad), &BTreeSet::new()).is_err(),
            "{bad:?} should be rejected"
        );
    }
}

#[test]
fn a_device_becomes_a_local_capture_input_named_after_it() {
    let app = AppConfig::default();
    let input = input_for_device(
        &app,
        &device("dev-abc", "FaceTime HD Camera"),
        9000,
        "cloud.example.com",
        "Venue A",
    );

    assert_eq!(input.name.as_deref(), Some("Venue A — FaceTime HD Camera"));
    assert_eq!(input.uplink.port, 9000);
    assert_eq!(input.uplink.host, "cloud.example.com");
    match input.capture {
        CaptureConfig::Local {
            video_device,
            audio_device,
            ..
        } => {
            assert_eq!(video_device.as_deref(), Some("dev-abc"));
            // Video-only on purpose: a webcam mic drifts against its video.
            assert!(audio_device.is_none());
        }
        other => panic!("expected a local capture input, got {other:?}"),
    }
}

#[test]
fn config_ports_are_reserved_against_runtime_allocation() {
    let mut cfg = GatewayConfig::default();
    cfg.gateway.name = "GW".to_string();
    cfg.strom.url = "http://127.0.0.1:8080".to_string();
    cfg.inputs.push(InputConfig {
        id: "cam1".to_string(),
        name: None,
        capture: CaptureConfig::Test {
            video_resolution: "1920x1080".to_string(),
            video_framerate: "25/1".to_string(),
            audio_rate: 48000,
            audio_channels: 2,
        },
        video: VideoConfig::default(),
        uplink: UplinkConfig {
            mode: UplinkMode::default(),
            host: "h".to_string(),
            public_host: None,
            port: 9000,
            latency_ms: 200,
            passphrase: None,
            pbkeylen: None,
            stream_id: None,
        },
        enabled: true,
    });

    let taken = ports_in_config(&cfg);
    assert!(taken.contains(&9000));
    assert_eq!(
        allocate_port(&template("9000-9100"), &taken).unwrap(),
        9001,
        "a runtime input must not take the port a config input declared"
    );
}

#[test]
fn a_flow_built_for_a_device_is_found_to_hold_it() {
    let cam = device("dev-abc", "Cam");
    let input = input_for_device(&AppConfig::default(), &cam, 9000, "cloud", "Venue");
    let built = build("gw", "Venue", &input).unwrap();
    assert_eq!(flow_capture_device(&built).as_deref(), Some("dev-abc"));
}

#[test]
fn only_foreign_flows_on_a_wanted_device_conflict() {
    let flows = vec![
        flow("ours", vec![capture_of("d1")]),
        flow("theirs", vec![capture_of("d1")]),
        flow("elsewhere", vec![capture_of("d2")]),
        flow("pattern", vec![]),
    ];
    let found = conflicting_flows(&flows, &vec!["d1".to_string()], &vec!["ours".to_string()]);
    assert_eq!(found.len(), 1);
    assert_eq!(found[0].id, "theirs");
}

#[test]
fn orphans_are_looked_up_by_the_ids_flows_get() {
    let ids = vec!["dev-a".to_string(), "dev-b".to_string()];
    assert_eq!(
        orphan_ids("gw", &ids),
        vec![flow_id("gw", "dev-a"), flow_id("gw", "dev-b")]
    );
}

#[test]
fn an_input_is_active_only_once_strom_says_its_flow_runs() {
    let input = input_for_device(&AppConfig::default(), &device("d", "Cam"), 9001, "c", "Venue");
    let mut state = FlowState {
        id: flow_id("gw", &input.id),
        name: "x".to_string(),
        running: true,
        gst_state: None,
    };
    let active = started_input("gw", &input, &state).unwrap();
    assert_eq!(active.device_id, "d");
    assert_eq!(active.flow_id, flow_id("gw", &input.id));
    let view = active.view();
    assert_eq!(view.label, "Venue — Cam");
    assert_eq!(view.listener_address, "srt://:9001?mode=listener");
    state.running = false;
    assert!(started_input("gw", &input, &state).is_err());
}
