use open_live_ingest::gateway::config::{
    CaptureConfig, InputConfig, UplinkConfig, UplinkMode, VideoConfig,
};
use open_live_ingest::gateway::flow::{
    build, differs, flow_id, parse_resolution, preserving_strom_state, ResolutionError,
};
use open_live_ingest::gateway::session::flow_capture_device;
use open_live_ingest::json::{same_json, Fields, Json, Number};

fn input(capture: CaptureConfig) -> InputConfig {
    InputConfig {
        id: "cam1".to_string(),
        name: None,
        capture,
        video: VideoConfig::default(),
        uplink: UplinkConfig {
            mode: UplinkMode::Caller,
            host: "strom.example.com".to_string(),
            public_host: None,
            port: 9000,
            latency_ms: 200,
            passphrase: None,
            pbkeylen: None,
            stream_id: None,
        },
        enabled: true,
    }
}

fn test_capture() -> CaptureConfig {
    CaptureConfig::Test {
        video_resolution: "1920x1080".to_string(),
        video_framerate: "25/1".to_string(),
        audio_rate: 48000,
        audio_channels: 2,
    }
}

fn decklink(audio: bool) -> CaptureConfig {
    CaptureConfig::Decklink {
        device_number: 0,
        connection: "sdi".to_string(),
        mode: "1080p25".to_string(),
        video_format: "auto".to_string(),
        drop_no_signal_frames: true,
        audio,
    }
}

fn built(capture: CaptureConfig) -> Json {
    build("venue-a", "Venue A", &input(capture)).unwrap()
}

fn items<'a>(flow: &'a Json, key: &str) -> &'a Vec<Json> {
    flow.get(key).and_then(Json::as_list).expect("a list")
}

fn links_of(flow: &Json) -> Vec<(String, String)> {
    items(flow, "links")
        .iter()
        .map(|l| {
            (
                l.text_at("from").unwrap().to_string(),
                l.text_at("to").unwrap().to_string(),
            )
        })
        .collect()
}

fn block<'a>(flow: &'a Json, id: &str) -> &'a Json {
    items(flow, "blocks")
        .iter()
        .find(|b| b.text_at("id") == Some(id))
        .unwrap()
}

fn properties<'a>(flow: &'a Json, id: &str) -> &'a Json {
    block(flow, id).get("properties").unwrap()
}

/// The flow id must be stable: it is how the agent finds its own flow after a reboot
/// without consulting local state.
#[test]
fn flow_id_is_deterministic_and_input_scoped() {
    assert_eq!(flow_id("venue-a", "cam1"), flow_id("venue-a", "cam1"));
    assert_ne!(flow_id("venue-a", "cam1"), flow_id("venue-a", "cam2"));
    assert_ne!(flow_id("venue-a", "cam1"), flow_id("venue-b", "cam1"));
    assert!(uuid::Uuid::parse_str(&flow_id("venue-a", "cam1")).is_ok());
}

#[test]
fn decklink_flow_wires_video_through_the_encoder_and_audio_around_it() {
    let flow = built(decklink(true));
    let links = links_of(&flow);

    assert!(links.contains(&("capture:video_out".into(), "encoder:video_in".into())));
    assert!(links.contains(&("encoder:encoded_out".into(), "uplink:video_in".into())));
    // Audio bypasses videoenc, which is video-only, and the TS block encodes it.
    assert!(links.contains(&("capture:audio_out".into(), "uplink:audio_in_0".into())));
    assert_eq!(links.len(), 3);
    assert_eq!(flow.text_at("name"), Some("Venue A — cam1 uplink"));
}

/// Declaring an audio track the flow does not deliver leaves the TS output waiting on a
/// pad that never produces, which stalls the whole pipeline.
#[test]
fn video_only_capture_declares_no_audio_track() {
    let flow = built(decklink(false));
    let uplink = properties(&flow, "uplink");

    assert_eq!(uplink.get("num_audio_tracks").unwrap().as_uint(), Some(0));
    assert!(!links_of(&flow).iter().any(|(_, to)| to.contains("audio_in_0")));
}

#[test]
fn local_input_without_an_audio_device_is_video_only() {
    let flow = built(CaptureConfig::Local {
        video_device: Some("usb-camera-0".to_string()),
        video_resolution: "1920x1080".to_string(),
        video_framerate: "25/1".to_string(),
        audio_device: None,
        audio_channels: 2,
        audio_rate: 48000,
    });
    assert_eq!(
        block(&flow, "capture").text_at("block_definition_id"),
        Some("builtin.local_input")
    );
    let capture = properties(&flow, "capture");
    assert_eq!(capture.text_at("stream_mode"), Some("video"));
    assert_eq!(capture.text_at("video_device"), Some("usb-camera-0"));
    assert!(capture.get("audio_device").is_none());
    assert_eq!(flow_capture_device(&flow).as_deref(), Some("usb-camera-0"));
}

/// With no device id configured, the property must be absent rather than empty so
/// Strom's autovideosrc fallback picks the OS default camera.
#[test]
fn local_input_without_a_device_id_omits_the_property() {
    let flow = built(CaptureConfig::Local {
        video_device: None,
        video_resolution: "1280x720".to_string(),
        video_framerate: "25/1".to_string(),
        audio_device: None,
        audio_channels: 2,
        audio_rate: 48000,
    });
    let properties = properties(&flow, "capture");
    assert!(properties.get("video_device").is_none());
    assert_eq!(properties.text_at("video_resolution"), Some("1280x720"));
    assert_eq!(flow_capture_device(&flow), None);
}

#[test]
fn a_local_input_with_an_audio_device_carries_it() {
    let flow = built(CaptureConfig::Local {
        video_device: Some(String::new()),
        video_resolution: "1280x720".to_string(),
        video_framerate: "25/1".to_string(),
        audio_device: Some("mic".to_string()),
        audio_channels: 1,
        audio_rate: 44100,
    });
    let capture = properties(&flow, "capture");
    assert!(capture.get("video_device").is_none());
    assert_eq!(capture.text_at("stream_mode"), Some("audio_video"));
    assert_eq!(capture.text_at("audio_device"), Some("mic"));
    assert_eq!(capture.get("audio_channels").unwrap().as_uint(), Some(1));
    assert_eq!(capture.get("audio_rate").unwrap().as_uint(), Some(44100));
    assert_eq!(
        properties(&flow, "uplink").get("num_audio_tracks").unwrap().as_uint(),
        Some(1)
    );
}

/// The uplink block must receive the caller URI. Sending it the listener form would
/// have the venue box bind a port and wait for the cloud to dial in, which venue NAT
/// makes impossible.
#[test]
fn uplink_block_gets_the_caller_uri() {
    let flow = built(decklink(true));
    let uri = properties(&flow, "uplink").text_at("srt_uri").unwrap();

    assert!(uri.starts_with("srt://strom.example.com:9000?mode=caller"));
    assert!(!uri.contains("listener"));
}

#[test]
fn bitrate_is_passed_in_kbps_as_strom_expects() {
    let flow = built(decklink(true));
    let encoder = properties(&flow, "encoder");

    assert_eq!(encoder.get("bitrate").unwrap().as_uint(), Some(6000));
    assert_eq!(encoder.text_at("codec"), Some("h264"));
}

#[test]
fn test_capture_builds_raw_elements_instead_of_a_capture_block() {
    let flow = built(test_capture());

    assert_eq!(items(&flow, "elements").len(), 4);
    assert!(!items(&flow, "blocks").iter().any(|b| b.text_at("id") == Some("capture")));
    assert!(links_of(&flow).contains(&("testvideocaps:src".into(), "encoder:video_in".into())));
}

/// Without capsfilters the test sources negotiate 320x240 and 44.1 kHz mono, which
/// exercises nothing like the real uplink it is meant to commission.
#[test]
fn test_capture_pins_broadcast_caps() {
    let flow = built(test_capture());
    let caps: Vec<String> = items(&flow, "elements")
        .iter()
        .filter(|e| e.text_at("element_type") == Some("capsfilter"))
        .map(|e| e.get("properties").unwrap().text_at("caps").unwrap().to_string())
        .collect();

    assert!(caps
        .iter()
        .any(|c| c == "video/x-raw,width=1920,height=1080,framerate=25/1"));
    assert!(caps.iter().any(|c| c == "audio/x-raw,rate=48000,channels=2"));
}

#[test]
fn a_malformed_test_resolution_is_rejected() {
    let capture = CaptureConfig::Test {
        video_resolution: "1080p".to_string(),
        video_framerate: "25/1".to_string(),
        audio_rate: 48000,
        audio_channels: 2,
    };
    assert!(build("venue-a", "Venue A", &input(capture)).is_err());
}

/// The messages are those of the standard number parser.
#[test]
fn each_trouble_with_a_resolution_is_told_apart() {
    assert_eq!(parse_resolution("1920x1080").unwrap(), (1920, 1080));
    assert_eq!(parse_resolution(" 1280 X +720").unwrap(), (1280, 720));
    assert!(matches!(parse_resolution("1080p"), Err(ResolutionError::NotWxH { .. })));
    assert_eq!(
        parse_resolution("1080p").unwrap_err().message(),
        "resolution must be WxH, got 1080p"
    );
    for (text, side) in [
        ("x1", ""),
        ("ax1", "a"),
        ("+x1", "+"),
        ("1 2x1", "1 2"),
        ("4294967296x1", "4294967296"),
        ("99999999999zx1", "99999999999z"),
        ("42949672z6x1", "42949672z6"),
    ] {
        let want = side.parse::<u32>().unwrap_err().to_string();
        assert_eq!(parse_resolution(text).unwrap_err().message(), want, "{text}");
    }
}

#[test]
fn an_unchanged_flow_does_not_drift() {
    let flow = built(test_capture());
    assert!(!differs(&flow, &flow));
}

fn with(flow: &Json, key: &str, value: Json) -> Json {
    match flow.copy() {
        Json::Object(entries) => Fields { entries }.with(key, value).object(),
        other => panic!("{other:?}"),
    }
}

fn map_items(flow: &Json, key: &str, f: impl Fn(&Json) -> Json) -> Json {
    let list = items(flow, key).iter().map(f).collect();
    with(flow, key, Json::List(list))
}

fn started(auto_restart: bool) -> Json {
    Fields::new()
        .with("auto_restart", Json::Bool(auto_restart))
        .with("started_at", Json::text("2026-09-07T12:00:00Z"))
        .object()
}

fn double(x: f64) -> Json {
    Json::Number(Number::Float(x.to_bits()))
}

/// Strom echoes back its own lifecycle state, runs auto-layout over editor positions,
/// and adds computed pads. None of that is drift: treating it as drift would make the
/// agent rewrite the flow on every single tick.
#[test]
fn strom_owned_fields_are_not_drift() {
    let desired = built(test_capture());
    let stored = with(&desired, "running", Json::Bool(true));
    let stored = with(&stored, "gst_state", Json::text("Playing"));
    let stored = with(&stored, "properties", started(true));
    let stored = map_items(&stored, "blocks", |b| {
        let moved = with(
            b,
            "position",
            Fields::new().with("x", double(1234.0)).with("y", double(567.0)).object(),
        );
        with(
            &moved,
            "computed_external_pads",
            Fields::new()
                .with("inputs", Json::List(vec![]))
                .with("outputs", Json::List(vec![]))
                .object(),
        )
    });
    let mut reversed: Vec<Json> = items(&stored, "blocks").iter().map(Json::copy).collect();
    reversed.reverse();
    let stored = with(&stored, "blocks", Json::List(reversed));

    assert!(!differs(&stored, &desired));
}

fn with_property(b: &Json, key: &str, value: Json) -> Json {
    let changed = with(b.get("properties").unwrap(), key, value);
    with(b, "properties", changed)
}

#[test]
fn a_changed_bitrate_is_drift() {
    let desired = built(test_capture());
    let stored = map_items(&desired, "blocks", |b| {
        if b.text_at("id") == Some("encoder") {
            with_property(b, "bitrate", Json::uint(2000))
        } else {
            b.copy()
        }
    });
    assert!(differs(&stored, &desired));
}

#[test]
fn a_changed_uplink_uri_is_drift() {
    let desired = built(test_capture());
    let stored = map_items(&desired, "blocks", |b| {
        if b.text_at("id") == Some("uplink") {
            with_property(b, "srt_uri", Json::text("srt://other.example.com:9000?mode=caller"))
        } else {
            b.copy()
        }
    });
    assert!(differs(&stored, &desired));
}

#[test]
fn a_missing_link_is_drift() {
    let desired = built(test_capture());
    let mut links: Vec<Json> = items(&desired, "links").iter().map(Json::copy).collect();
    links.pop();
    let stored = with(&desired, "links", Json::List(links));
    assert!(differs(&stored, &desired));
}

#[test]
fn another_name_is_drift() {
    let desired = built(test_capture());
    assert!(differs(&with(&desired, "name", Json::text("x")), &desired));
}

/// An update must carry Strom's lifecycle fields back, or the flow stops auto-restarting
/// and Strom reports it as stopped.
#[test]
fn an_update_body_preserves_strom_state() {
    let desired = built(test_capture());
    let stored = with(&desired, "properties", started(true));
    let stored = with(&stored, "running", Json::Bool(true));
    let stored = with(&stored, "gst_state", Json::text("Playing"));

    let body = preserving_strom_state(&desired, &stored);

    assert!(matches!(
        body.get("properties").unwrap().get("auto_restart"),
        Some(Json::Bool(true))
    ));
    assert!(matches!(body.get("running"), Some(Json::Bool(true))));
    assert_eq!(body.text_at("gst_state"), Some("Playing"));
    // And still carries the gateway's own desired shape.
    assert!(same_json(body.get("links").unwrap(), desired.get("links").unwrap()));
    assert!(!differs(&body, &desired));
}

#[test]
fn preserving_state_from_a_flow_without_properties_is_harmless() {
    let desired = built(test_capture());
    let body = preserving_strom_state(&desired, &Fields::new().object());
    assert!(same_json(&body, &desired));
    let odd = preserving_strom_state(&Json::Bool(true), &Fields::new().object());
    assert!(matches!(odd, Json::Bool(true)));
}
