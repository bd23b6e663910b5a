use open_live_ingest::gateway::book::Book;
use open_live_ingest::gateway::client::FlowState;
use open_live_ingest::gateway::config::{GatewayConfig, UplinkMode};
use open_live_ingest::gateway::flow::flow_id;
use open_live_ingest::gateway::session::{started_input, ActiveInput, CaptureDevice, PortError};
use open_live_ingest::gateway::state::SharedState;
use open_live_ingest::gateway::status::InputState;
use open_live_ingest::gui::controller::{plan_start, ports_in_use, StartPlan, UiState};
use open_live_ingest::gui::window::{
    describe, device_rows, empty_list, footer, header, label_field, opens_settings, sending_to,
    settings_form, settings_lock, stream_rows, Field,
};

fn device(id: &str, name: &str) -> CaptureDevice {
    CaptureDevice {
        id: id.to_string(),
        display_name: name.to_string(),
        provider: Some("v4l2".to_string()),
    }
}

fn start(cfg: &GatewayConfig, active: &Book<ActiveInput>, id: &str) -> ActiveInput {
    match plan_start(cfg, active, &device(id, "Cam"), "cloud") {
        StartPlan::Start(input) => started_input(
            "gw",
            &input,
            &FlowState {
                id: flow_id("gw", &input.id),
                name: "n".to_string(),
                running: true,
                gst_state: None,
            },
        )
        .unwrap(),
        other => panic!("{other:?}"),
    }
}

#[test]
fn each_started_device_gets_a_port_of_its_own() {
    let mut cfg = GatewayConfig::default();
    cfg.gateway.name = "Venue".to_string();
    cfg.app.uplink.port_range = "9000-9001".to_string();
    let mut active = Book::new();
    let first = start(&cfg, &active, "a");
    assert_eq!(first.input.uplink.port, 9000);
    active.insert("dev-a", first);
    assert!(matches!(
        plan_start(&cfg, &active, &device("a", "Cam"), "cloud"),
        StartPlan::Nothing
    ));
    let second = start(&cfg, &active, "b");
    assert_eq!(second.input.uplink.port, 9001);
    active.insert("dev-b", second);
    assert!(ports_in_use(&cfg, &active).contains(&9000));
    match plan_start(&cfg, &active, &device("c", "Cam"), "cloud") {
        StartPlan::Refuse(PortError::Exhausted { range }) => assert_eq!(range, "9000-9001"),
        other => panic!("{other:?}"),
    }
    cfg.app.uplink.port_range = "soon".to_string();
    assert!(matches!(
        plan_start(&cfg, &active, &device("c", "Cam"), "cloud"),
        StartPlan::Refuse(PortError::Range(_))
    ));
}

#[test]
fn the_window_follows_what_the_commands_did() {
    let mut cfg = GatewayConfig::default();
    cfg.gateway.name = "Venue".to_string();
    let mut ui = UiState::default();
    ui.set_busy(true);
    ui.on_scan(Ok(vec![device("a", "Cam A"), device("b", "Cam B")]));
    assert!(ui.strom_reachable && !ui.busy);
    ui.on_scan(Err("refused".to_string()));
    assert_eq!(ui.devices.len(), 2, "a failed scan keeps what was seen");
    assert_eq!(ui.last_error.as_deref(), Some("Strom unreachable: refused"));

    let started = start(&cfg, &Book::new(), "a");
    ui.on_started(&started);
    assert_eq!(ui.last_error, None);
    let rows = device_rows(&ui.devices, &ui.active);
    assert_eq!(rows.len(), 2);
    assert!(rows[0].streaming && !rows[1].streaming);

    let mut state = SharedState::new("gw".to_string(), &cfg);
    state.add_input(&started.input, "gw");
    state.set_state("dev-a", InputState::Stalled);
    let streams = stream_rows(&ui.active, &state);
    assert_eq!(streams.len(), 1);
    assert_eq!(streams[0].label, "Venue — Cam");
    assert_eq!(streams[0].description.label, "waiting for a receiver");
    assert_eq!(streams[0].address, "srt://:9000?mode=listener");

    ui.on_stopped("dev-a");
    assert!(stream_rows(&ui.active, &state).is_empty());
    ui.fail(&"boom".to_string());
    assert_eq!(footer(&ui.last_error), (true, "boom".to_string()));
    assert!(!footer(&None).0);
}

#[test]
fn the_header_says_what_is_known() {
    let mut cfg = GatewayConfig::default();
    let (strom, open_live, sending) = header(&cfg, false, &None);
    assert!(!strom.good && !open_live.good && !sending.good);
    assert_eq!(open_live.value, None);
    cfg.open_live.url = Some("https://ol".to_string());
    let (_, open_live, sending) = header(&cfg, true, &Some("h".to_string()));
    assert_eq!(open_live.value.as_deref(), Some("https://ol"));
    assert_eq!(sending.value.as_deref(), Some("h"));
    cfg.app.uplink.host = Some("mine".to_string());
    assert_eq!(sending_to(&cfg, &Some("h".to_string())).as_deref(), Some("mine"));
    assert_ne!(empty_list(true), empty_list(false));
}

#[test]
fn the_form_asks_for_an_address_only_where_the_cloud_dials() {
    assert!(!settings_form(UplinkMode::Caller).contains(&Field::PublicHost));
    assert!(settings_form(UplinkMode::Listener).contains(&Field::PublicHost));
    assert!(settings_form(UplinkMode::Rendezvous).contains(&Field::PublicHost));
    assert_ne!(label_field(Field::Name), label_field(Field::Bitrate));
    assert!(settings_lock(true).is_some());
    assert!(settings_lock(false).is_none());
    assert_eq!(describe(InputState::Running).label, "on air");
    let mut cfg = GatewayConfig::default();
    assert!(opens_settings(&cfg));
    cfg.gateway.name = "Venue".to_string();
    cfg.open_live.url = Some("https://ol".to_string());
    assert!(!opens_settings(&cfg));
}
