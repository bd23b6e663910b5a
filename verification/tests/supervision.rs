use open_live_ingest::gateway::client::{
    read_creation, read_flow, srt_uplink, BadAnswer, Creation, FetchedFlow, FlowCreateOutcome,
    FlowState, SrtUplink,
};
use open_live_ingest::gateway::config::{
    CaptureConfig, GatewayConfig, InputConfig, UplinkConfig, UplinkMode, VideoConfig,
};
use open_live_ingest::gateway::control::{answer, authorize, Route};
use open_live_ingest::gateway::flow::{build, flow_id};
use open_live_ingest::gateway::identity::{
    forget_started, forget_strom_pid, gateway_id_on, record_started, record_strom_pid,
    recorded_inputs, resolve_gateway_id, PersistedState,
};
use open_live_ingest::gateway::registration::{
    keep_source, payload_for, plan_source, registration_target, take_source, Missing, SourcePlan,
    SourceResponse,
};
use open_live_ingest::gateway::state::SharedState;
use open_live_ingest::gateway::status::InputState;
use open_live_ingest::gateway::supervisor::{
    back_off, on_created, on_failure, on_fetched, on_measured, on_reread, on_started,
    on_unbuildable, on_updated, supervised_inputs, Ask,
};
use open_live_ingest::json::{Fields, Json, Number};

fn input(id: &str) -> InputConfig {
    InputConfig {
        id: id.to_string(),
        name: None,
        capture: CaptureConfig::Test {
            video_resolution: "1920x1080".to_string(),
            video_framerate: "25/1".to_string(),
            audio_rate: 48000,
            audio_channels: 2,
        },
        video: VideoConfig::default(),
        uplink: UplinkConfig {
            mode: UplinkMode::Caller,
            host: "h".to_string(),
            public_host: None,
            port: 9000,
            latency_ms: 200,
            passphrase: None,
            pbkeylen: None,
            stream_id: None,
        },
        enabled: true,
    }
}

fn one_input() -> (SharedState, Json) {
    let mut cfg = GatewayConfig::default();
    cfg.inputs.push(input("cam1"));
    let desired = build("gw", "Venue", &cfg.inputs[0]).unwrap();
    (SharedState::new("gw".to_string(), &cfg), desired)
}

fn flow_state(running: bool) -> FlowState {
    FlowState {
        id: flow_id("gw", "cam1"),
        name: "n".to_string(),
        running,
        gst_state: Some("Playing".to_string()),
    }
}

fn sample(bytes: u64) -> Option<SrtUplink> {
    Some(SrtUplink {
        bytes_sent: bytes,
        rtt_ms: None,
        send_rate_mbps: None,
        packets_retransmitted: None,
        packets_sent_dropped: None,
        negotiated_latency_ms: None,
    })
}

fn with(flow: &Json, key: &str, value: Json) -> Json {
    match flow.copy() {
        Json::Object(entries) => Fields { entries }.with(key, value).object(),
        other => panic!("{other:?}"),
    }
}

#[test]
fn a_missing_flow_is_created_started_and_measured() {
    let (mut state, desired) = one_input();
    assert!(matches!(on_fetched(&mut state, "cam1", &desired, &None), Ask::Create));
    assert!(state.strom_reachable);
    assert_eq!(state.state_of("cam1"), Some(InputState::Provisioning));
    let made = FlowCreateOutcome::Created(flow_state(false));
    assert!(matches!(on_created(&mut state, "cam1", &made), Ask::Start));
    assert_eq!(state.state_of("cam1"), Some(InputState::Starting));
    on_started(&mut state, "cam1", &flow_state(true));
    assert_eq!(state.state_of("cam1"), Some(InputState::Stalled));
    on_measured(&mut state, "cam1", &sample(100));
    assert_eq!(
        state.state_of("cam1"),
        Some(InputState::Stalled),
        "one sample proves nothing"
    );
    on_measured(&mut state, "cam1", &sample(200));
    assert_eq!(state.state_of("cam1"), Some(InputState::Running));
    on_measured(&mut state, "cam1", &sample(200));
    assert_eq!(state.state_of("cam1"), Some(InputState::Stalled));
    on_measured(&mut state, "cam1", &None);
    assert_eq!(state.state_of("cam1"), Some(InputState::Stalled));
    assert!(state.find("cam1").unwrap().uplink.is_none());
}

#[test]
fn another_writer_is_read_again() {
    let (mut state, desired) = one_input();
    assert!(matches!(
        on_created(&mut state, "cam1", &FlowCreateOutcome::AlreadyExists),
        Ask::Reread
    ));
    let found = Some(FetchedFlow {
        state: flow_state(true),
        raw: desired.copy(),
    });
    assert!(matches!(on_reread(&mut state, "cam1", &found), Ask::Measure));
    assert!(matches!(on_reread(&mut state, "cam1", &None), Ask::Start));
}

#[test]
fn a_flow_is_rewritten_only_where_it_drifted() {
    let (mut state, desired) = one_input();
    let same = Some(FetchedFlow {
        state: flow_state(true),
        raw: with(&desired, "running", Json::Bool(true)),
    });
    assert!(matches!(on_fetched(&mut state, "cam1", &desired, &same), Ask::Measure));
    assert_eq!(
        state.find("cam1").unwrap().gst_state.as_deref(),
        Some("Playing")
    );
    let drifted = Some(FetchedFlow {
        state: flow_state(true),
        raw: with(&with(&desired, "name", Json::text("x")), "running", Json::Bool(true)),
    });
    match on_fetched(&mut state, "cam1", &desired, &drifted) {
        Ask::Update { body, stop } => {
            assert!(stop, "a running flow is restarted");
            assert!(matches!(body.get("running"), Some(Json::Bool(true))));
            assert_eq!(body.text_at("name"), desired.text_at("name"));
        }
        other => panic!("{other:?}"),
    }
    assert!(matches!(on_updated(&mut state, "cam1"), Ask::Start));
    assert_eq!(state.find("cam1").unwrap().gst_state, None);
}

#[test]
fn losing_strom_is_not_losing_the_feed() {
    let (mut state, desired) = one_input();
    on_fetched(&mut state, "cam1", &desired, &None);
    on_started(&mut state, "cam1", &flow_state(true));
    on_measured(&mut state, "cam1", &sample(1));
    on_measured(&mut state, "cam1", &sample(2));
    on_failure(&mut state, "cam1", &"refused".to_string());
    assert!(!state.strom_reachable);
    let status = state.find("cam1").unwrap();
    assert_eq!(status.state, InputState::Unknown);
    assert_eq!(status.last_error.as_deref(), Some("refused"));
    assert_eq!(status.restarts, 1);
    assert!(status.state.is_active());
}

#[test]
fn what_cannot_run_fails_with_its_reason() {
    let (mut state, _) = one_input();
    on_unbuildable(&mut state, "cam1", &"bad".to_string());
    assert_eq!(state.state_of("cam1"), Some(InputState::Failed));
    on_started(&mut state, "cam1", &flow_state(false));
    assert_eq!(
        state.find("cam1").unwrap().last_error.as_deref(),
        Some("Strom reported the flow not running after start")
    );
    // An input nobody knows changes nothing.
    on_unbuildable(&mut state, "cam9", &"bad".to_string());
    assert!(state.state_of("cam9").is_none());
    assert_eq!(state.inputs.len(), 1);
}

#[test]
fn waits_double_up_to_half_a_minute() {
    let mut secs = 1;
    let mut seen = vec![secs];
    for _ in 0..6 {
        secs = back_off(secs);
        seen.push(secs);
    }
    assert_eq!(seen, vec![1, 2, 4, 8, 16, 30, 30]);
}

#[test]
fn disabled_inputs_are_not_supervised() {
    let mut cfg = GatewayConfig::default();
    cfg.inputs.push(input("a"));
    cfg.inputs.push(InputConfig {
        enabled: false,
        ..input("b")
    });
    let ids: Vec<String> = supervised_inputs(&cfg).into_iter().map(|i| i.id).collect();
    assert_eq!(ids, vec!["a"]);
}

#[test]
fn inputs_come_and_go_in_order() {
    let (mut state, _) = one_input();
    state.add_input(&input("b"), "gw");
    state.add_input(&input("a"), "gw");
    let snapshot = state.snapshot("1.2.3", 60);
    let ids: Vec<&str> = snapshot.inputs.iter().map(|i| i.id.as_str()).collect();
    assert_eq!(ids, vec!["a", "b", "cam1"]);
    assert_eq!(snapshot.version, "1.2.3");
    assert_eq!(snapshot.gateway_id, "gw");
    assert_eq!(snapshot.uptime_seconds, 60);
    let a = state.find("a").unwrap();
    assert_eq!(a.flow_id, flow_id("gw", "a"));
    assert_eq!(a.listener_address, "srt://:9000?mode=listener");
    assert_eq!(a.state, InputState::Idle);
    state.remove_input("b");
    assert!(state.find("b").is_none());
    assert_eq!(state.inputs.len(), 2);
}

#[test]
fn answers_are_read_or_refused() {
    let flow = Fields::new()
        .with("id", Json::text("f"))
        .with("name", Json::text("n"))
        .with("running", Json::Bool(true))
        .object();
    let body = Fields::new().with("flow", flow).object();
    let read = read_flow(&body).unwrap();
    assert_eq!(read.state.id, "f");
    assert!(read.state.running);
    assert_eq!(read.state.gst_state, None);
    assert!(matches!(
        read_flow(&Fields::new().object()),
        Err(BadAnswer::NoFlow)
    ));
    let wrong = Fields::new().with("flow", Json::uint(1)).object();
    assert!(matches!(read_flow(&wrong), Err(BadAnswer::NotAFlow)));
    let fields = vec![Json::text("f"), Json::text("n"), Json::Bool(true)];
    let listed = Fields::new().with("flow", Json::List(fields)).object();
    let read = read_flow(&listed).unwrap();
    assert_eq!((read.state.id.as_str(), read.state.running), ("f", true));
    assert_eq!(read.state.gst_state, None);
    let many = (0..5).map(|_| Json::text("f")).collect();
    let long = Fields::new().with("flow", Json::List(many)).object();
    assert!(matches!(read_flow(&long), Err(BadAnswer::NotAFlow)));
    assert_eq!(read_creation(201), Creation::Made);
    assert_eq!(read_creation(409), Creation::Exists);
    assert_eq!(read_creation(500), Creation::Refused);
    assert!(srt_uplink(&Fields::new().object()).is_none());
}

fn source(id: &str) -> SourceResponse {
    SourceResponse {
        id: id.to_string(),
        name: "n".to_string(),
        address: "a".to_string(),
        stream_type: "srt".to_string(),
        status: "inactive".to_string(),
        latency: None,
    }
}

#[test]
fn a_source_is_found_again_by_the_id_that_was_kept() {
    let (mut state, _) = one_input();
    let mut persisted = PersistedState::default();
    assert!(matches!(plan_source(&persisted, "cam1", &vec![]), SourcePlan::Create));
    let s1 = "s1".to_string();
    assert!(keep_source(&mut persisted, "cam1", &s1), "a new id is stored");
    state.set_source_id("cam1", &s1);
    assert!(!keep_source(&mut persisted, "cam1", &s1));
    assert_eq!(state.find("cam1").unwrap().source_id.as_deref(), Some("s1"));
    assert!(
        matches!(plan_source(&persisted, "cam1", &vec![source("s1")]), SourcePlan::Patch(id) if id == "s1")
    );
    assert!(matches!(
        plan_source(&persisted, "cam1", &vec![source("s2")]),
        SourcePlan::Create
    ));
    assert_eq!(take_source(&mut persisted, "cam1").as_deref(), Some("s1"));
    assert_eq!(take_source(&mut persisted, "cam1"), None);
}

#[test]
fn a_source_says_active_only_while_its_input_is() {
    let (mut state, _) = one_input();
    let payload = payload_for(&state, &input("cam1"), "Venue");
    assert_eq!(payload.name, "Venue — cam1");
    assert_eq!(payload.address, "srt://:9000?mode=listener");
    assert_eq!(payload.status, "inactive");
    state.set_state("cam1", InputState::Running);
    assert_eq!(payload_for(&state, &input("cam1"), "Venue").status, "active");
    assert_eq!(payload_for(&state, &input("cam9"), "Venue").status, "inactive");
}

#[test]
fn registering_needs_an_address_and_a_key() {
    let mut cfg = GatewayConfig::default();
    assert_eq!(registration_target(&cfg), Err(Missing::Url));
    cfg.open_live.url = Some("u".to_string());
    assert_eq!(registration_target(&cfg), Err(Missing::ApiKey));
    assert_eq!(Missing::ApiKey.message(), "open_live.api_key is unset");
    cfg.open_live.api_key = Some("k".to_string());
    assert_eq!(registration_target(&cfg), Ok(("u".to_string(), "k".to_string())));
}

#[test]
fn what_was_started_is_found_until_it_is_forgotten() {
    let mut persisted = PersistedState::default();
    record_started(&mut persisted, "dev-b", &"Cam".to_string(), 9001);
    persisted.source_ids.insert("dev-a", "s".to_string());
    assert_eq!(recorded_inputs(&persisted), vec!["dev-a", "dev-b"]);
    assert_eq!(persisted.started.get("dev-b").unwrap().port, 9001);
    forget_started(&mut persisted, "dev-b");
    assert_eq!(recorded_inputs(&persisted), vec!["dev-a"]);
    record_strom_pid(&mut persisted, 9);
    assert_eq!(persisted.strom_pid, Some(9));
    forget_strom_pid(&mut persisted);
    assert_eq!(persisted.strom_pid, None);
}

#[test]
fn the_gateway_goes_by_its_id_or_by_the_machines_name() {
    let mut cfg = GatewayConfig::default();
    assert_eq!(gateway_id_on(&cfg, Some("box".to_string())), "box");
    assert_ne!(resolve_gateway_id(&cfg), "");
    cfg.gateway.id = Some("venue-a".to_string());
    assert_eq!(gateway_id_on(&cfg, Some("box".to_string())), "venue-a");
    assert_eq!(resolve_gateway_id(&cfg), "venue-a");
}

#[test]
fn a_token_guards_everything_but_liveness() {
    assert_eq!(answer(Route::Health, Some("t"), None), 200);
    assert_eq!(answer(Route::Status, None, None), 200);
    for route in [Route::Status, Route::StartInput, Route::StopInput, Route::Metrics] {
        assert_eq!(answer(route, Some("t"), None), 401);
        assert_eq!(answer(route, Some("t"), Some("Bearer wrong")), 401);
    }
    assert_eq!(answer(Route::Status, Some("t"), Some("Bearer t")), 200);
    assert_eq!(answer(Route::StartInput, Some("t"), Some("Bearer t")), 501);
    assert_eq!(authorize(Some("t"), Some("t")), Err(401));
    assert_eq!(authorize(None, None), Ok(()));
}

#[test]
fn uplink_statistics_are_those_of_the_first_dialling_sink() {
    let peer = |bytes: u64| {
        Fields::new()
            .with("bytes_sent", Json::uint(bytes))
            .with("rtt_ms", Json::Number(Number::Float(1.5f64.to_bits())))
            .with("packets_retransmitted", Json::uint(3))
            .object()
    };
    let connection = |role: &str, mode: &str, peers: Vec<Json>| {
        Fields::new()
            .with("role", Json::text(role))
            .with("mode", Json::text(mode))
            .with("callers", Json::List(peers))
            .object()
    };
    let body = |connections: Json| {
        Fields::new()
            .with("stats", Fields::new().with("connections", connections).object())
            .object()
    };
    let read = srt_uplink(&body(
        Fields::new()
            .with("c", connection("sink", "caller", vec![peer(9)]))
            .with("b", connection("sink", "caller", vec![peer(42), peer(7)]))
            .with("a", connection("source", "listener", vec![peer(1)]))
            .object(),
    ))
    .unwrap();
    assert_eq!(read.bytes_sent, 42);
    assert_eq!(read.rtt_ms, Some(Number::Float(1.5f64.to_bits())));
    assert_eq!(read.packets_retransmitted, Some(3));
    assert_eq!(read.send_rate_mbps, None);
    let waiting = Fields::new().with("a", connection("sink", "caller", vec![])).object();
    assert!(srt_uplink(&body(waiting)).is_none(), "nothing receives yet");
}
