use open_live_ingest::config::{Uplink, Video};
use open_live_ingest::flow::{
    build, capture_device_of, device_input_id, flow_id, input_id_of, is_ours, BlockInstance, Flow,
    FlowId, Input, PropertyValue, Source, TEST_INPUT_ID,
};

fn input(source: Source) -> Input {
    Input {
        id: match &source {
            Source::Device { device_id, .. } => device_input_id(device_id),
            Source::Test { .. } => TEST_INPUT_ID.to_string(),
        },
        name: "Venue A — Cam".to_string(),
        source,
        endpoint: Uplink::default().endpoint("strom.example.com", 9000),
    }
}

fn device(resolution: Option<&str>, framerate: Option<&str>) -> Source {
    Source::Device {
        device_id: "dev-abc".to_string(),
        resolution: resolution.map(str::to_string),
        framerate: framerate.map(str::to_string),
    }
}

fn test_pattern() -> Source {
    Source::Test {
        resolution: "1920x1080".to_string(),
        framerate: "25/1".to_string(),
    }
}

fn block_of<'a>(flow: &'a Flow, id: &str) -> &'a BlockInstance {
    flow.blocks.iter().find(|b| b.id == id).unwrap()
}

fn text(block: &BlockInstance, key: &str) -> Option<String> {
    match block.properties.get(key)? {
        PropertyValue::Text(s) => Some(s.clone()),
        other => panic!("{key} is not a string: {other:?}"),
    }
}

fn number(block: &BlockInstance, key: &str) -> u64 {
    match block.properties.get(key) {
        Some(PropertyValue::UInt(n)) => *n,
        other => panic!("{key} is not a number: {other:?}"),
    }
}

fn links_of(flow: &Flow) -> Vec<(String, String)> {
    flow.links.iter().map(|l| (l.from.clone(), l.to.clone())).collect()
}

/// The id is how the gateway finds its own flows again with nothing stored.
#[test]
fn flow_ids_are_deterministic_and_scoped() {
    assert_eq!(flow_id("venue-a", "cam1"), flow_id("venue-a", "cam1"));
    assert_ne!(flow_id("venue-a", "cam1"), flow_id("venue-a", "cam2"));
    assert_ne!(flow_id("venue-a", "cam1"), flow_id("venue-b", "cam1"));
}

/// The derivation is the one every other tool computes: a version 5 UUID over
/// `gateway/input` in the gateway's namespace.
#[test]
fn flow_ids_are_version_5_uuids_in_the_usual_form() {
    let namespace = uuid::Uuid::from_bytes([
        0x6f, 0x70, 0x65, 0x6e, 0x2d, 0x6c, 0x69, 0x76, 0x65, 0x2d, 0x67, 0x77, 0x00, 0x00, 0x00,
        0x01,
    ]);
    let want = uuid::Uuid::new_v5(&namespace, b"venue-a/cam1");
    assert_eq!(flow_id("venue-a", "cam1").value, want.as_u128());
    assert_eq!(flow_id("venue-a", "cam1").text(), want.to_string());
}

#[test]
fn device_input_ids_are_stable_and_survive_awkward_device_ids() {
    assert_eq!(device_input_id("dev-d24eb9fb6733c220"), "dev-d24eb9fb6733c220");
    assert_eq!(device_input_id("v4l2:/dev/video0"), "dev-v4l2--dev-video0");
}

#[test]
fn a_device_flow_wires_video_through_the_encoder_and_declares_no_audio() {
    let flow = build("gw", &input(device(None, None)), &Video::default());
    let links = links_of(&flow);
    assert!(links.contains(&("capture:video_out".into(), "encoder:video_in".into())));
    assert!(links.contains(&("encoder:encoded_out".into(), "uplink:video_in".into())));
    assert_eq!(links.len(), 2);
    assert_eq!(number(block_of(&flow, "uplink"), "num_audio_tracks"), 0);
    assert_eq!(text(block_of(&flow, "capture"), "video_device").as_deref(), Some("dev-abc"));
    assert_eq!(block_of(&flow, "capture").block_definition_id, "builtin.local_input");
    assert_eq!(flow.id, flow_id("gw", "dev-abc"));
    assert_eq!(flow.name, "Venue A — Cam");
}

/// The default is "whatever the device offers": a requested format the device does not
/// advertise fails negotiation instead of being converted.
#[test]
fn the_capture_format_is_only_constrained_when_asked() {
    let flow = build("gw", &input(device(None, Some(""))), &Video::default());
    let capture = block_of(&flow, "capture");
    assert!(text(capture, "video_resolution").is_none());
    assert!(text(capture, "video_framerate").is_none());

    let flow = build("gw", &input(device(Some("1280x720"), Some("25/1"))), &Video::default());
    let capture = block_of(&flow, "capture");
    assert_eq!(text(capture, "video_resolution").as_deref(), Some("1280x720"));
    assert_eq!(text(capture, "video_framerate").as_deref(), Some("25/1"));
}

#[test]
fn the_uplink_block_gets_the_venue_uri_and_the_video_settings_land_on_the_encoder() {
    let video = Video {
        bitrate_kbps: 4000,
        ..Video::default()
    };
    let flow = build("gw", &input(device(None, None)), &video);
    assert_eq!(
        text(block_of(&flow, "uplink"), "srt_uri").as_deref(),
        Some("srt://strom.example.com:9000?mode=caller&latency=200")
    );
    assert_eq!(number(block_of(&flow, "encoder"), "bitrate"), 4000);
}

/// Without capsfilters the test sources negotiate 320x240 and 44.1 kHz mono, which
/// commissions nothing like a real feed.
#[test]
fn the_test_pattern_uses_raw_elements_with_pinned_caps_and_a_tone() {
    let flow = build("gw", &input(test_pattern()), &Video::default());
    assert_eq!(flow.elements.len(), 4);
    assert!(flow.blocks.iter().all(|b| b.id != "capture"));
    let caps: Vec<&str> = flow
        .elements
        .iter()
        .filter_map(|e| match e.properties.get("caps") {
            Some(PropertyValue::Text(c)) => Some(c.as_str()),
            _ => None,
        })
        .collect();
    assert!(caps.contains(&"video/x-raw,width=1920,height=1080,framerate=25/1"));
    assert!(caps.contains(&"audio/x-raw,rate=48000,channels=2"));
    assert_eq!(number(block_of(&flow, "uplink"), "num_audio_tracks"), 1);
    assert!(links_of(&flow).contains(&("testaudiocaps:src".into(), "uplink:audio_in_0".into())));
    let tone = flow.elements.iter().find_map(|e| match e.properties.get("freq") {
        Some(PropertyValue::Float(bits)) => Some(f64::from_bits(*bits)),
        _ => None,
    });
    assert_eq!(tone, Some(1000.0));
}

/// Ownership is by derived id, so `down` and `status` need no stored state, and a
/// hand-built flow on the same camera is left alone.
#[test]
fn a_flow_is_ours_only_when_its_id_is_the_one_we_would_derive() {
    let video = Video::default();
    let ours = build("gw", &input(device(None, None)), &video);
    assert!(is_ours(&ours, "gw"));
    assert!(!is_ours(&ours, "other-gateway"));
    assert!(is_ours(&build("gw", &input(test_pattern()), &video), "gw"));

    let mut hand_built = build("gw", &input(device(None, None)), &video);
    hand_built.id = FlowId { value: 1 };
    assert!(!is_ours(&hand_built, "gw"));

    let mut unrelated = build("gw", &input(device(None, None)), &video);
    unrelated.blocks.clear();
    assert!(!is_ours(&unrelated, "gw"), "a flow with no capture is not one of ours");
}

#[test]
fn the_capture_device_is_read_from_the_local_input_block() {
    let flow = build("gw", &input(device(None, None)), &Video::default());
    assert_eq!(capture_device_of(&flow), Some("dev-abc"));
    assert_eq!(input_id_of(&flow).as_deref(), Some("dev-abc"));
    let test = build("gw", &input(test_pattern()), &Video::default());
    assert_eq!(capture_device_of(&test), None);
    assert_eq!(input_id_of(&test).as_deref(), Some(TEST_INPUT_ID));
}
