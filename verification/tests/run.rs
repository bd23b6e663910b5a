use open_live_ingest::config::{Config, PortRange, Uplink, UplinkMode, Video};
use open_live_ingest::documents::{devices_document, status_document};
use open_live_ingest::flow::{build, device_input_id, flow_id, Input, Source as Captured};
use open_live_ingest::heartbeat::{FlowState, Uplink as HeartbeatUplink};
use open_live_ingest::json::{Json, Number};
use open_live_ingest::openlive::{ServerInfo, Source};
use open_live_ingest::report::{
    bring_up_line, gather_status, render_devices, render_status, show_rate, show_whole, snapshot,
    summary, truncate,
    DeviceReport, EndpointReport, FlowReport, Gathered, InputReport, ProcessReport, Reading,
    Samples, SourceReport, StatusReport, UplinkReport, UplinkStatsReport,
};
use open_live_ingest::run::{
    choose_ports, conflicts, find_by_id, find_by_name, ignored_range_warning, is_running_gateway,
    plan_port, read_pid, removal_line, resolve_cloud, sources_to_sweep, Asked, AssignError,
    AssignStep, Cloud, CloudError, Conflict, Live, PollStep, PortAssignment, PortPlan, PortSource,
    SourceAction, State,
};

fn reading(value: f64, shown: u64) -> Option<Reading> {
    Some(Reading {
        bits: value.to_bits(),
        negative: false,
        shown,
    })
}

fn sample_status() -> StatusReport {
    StatusReport {
        process: ProcessReport {
            running: true,
            pid: Some(4242),
        },
        uplink: Some(UplinkReport {
            host: "cloud.example.com".to_string(),
            ports: "47110-47129".to_string(),
            port_source: PortSource::OpenLive.text(),
        }),
        uplink_error: None,
        strom: EndpointReport {
            url: "http://127.0.0.1:8080".to_string(),
            reachable: true,
            error: None,
        },
        open_live: Some(EndpointReport {
            url: "https://open-live.example.com".to_string(),
            reachable: false,
            error: Some("connection refused".to_string()),
        }),
        inputs: vec![
            InputReport {
                name: "Venue — Camera 1".to_string(),
                flow: Some(FlowReport {
                    id: "f1".to_string(),
                    running: true,
                }),
                uplink: Some(UplinkStatsReport {
                    send_rate_mbps: reading(5.987, 599),
                    rtt_ms: reading(31.4, 31),
                    bytes_sent: Some(1_000),
                    ..UplinkStatsReport::default()
                }),
                source: Some(SourceReport {
                    id: "s1".to_string(),
                    status: "active".to_string(),
                }),
            },
            InputReport {
                name: "Venue — Camera 2".to_string(),
                flow: Some(FlowReport {
                    id: "f2".to_string(),
                    running: true,
                }),
                uplink: None,
                source: None,
            },
        ],
    }
}

#[test]
fn status_text_reads_as_before() {
    let text = render_status(&sample_status());
    assert!(text.starts_with("Gateway running (pid 4242).\n"));
    assert!(text.contains("Uplink to cloud.example.com, SRT ports 47110-47129 from Open Live.\n"));
    assert!(text.contains("Open Live is not reachable (connection refused).\n"));
    assert!(!text.contains("Strom at"), "a reachable Strom is not mentioned");
    let camera_1 = text.lines().find(|l| l.contains("Camera 1")).unwrap();
    assert!(camera_1.contains("running"));
    assert!(camera_1.contains("5.99 Mbps, rtt 31 ms"));
    assert!(camera_1.ends_with("active"));
    let camera_2 = text.lines().find(|l| l.contains("Camera 2")).unwrap();
    assert!(camera_2.contains("no receiver"));
    assert!(camera_2.ends_with("not registered"));
}

fn at<'a>(doc: &'a Json, path: &[&str]) -> &'a Json {
    let mut here = doc;
    for key in path {
        here = match here.as_list() {
            Some(items) => &items[key.parse::<usize>().unwrap()],
            None => here.get(key).unwrap_or_else(|| panic!("no {key}")),
        };
    }
    here
}

fn text_at<'a>(doc: &'a Json, path: &[&str]) -> &'a str {
    at(doc, path).as_text().unwrap()
}

/// The JSON is the contract a script reads, so its shape is pinned here.
#[test]
fn status_json_has_the_documented_shape() {
    let v = status_document(&sample_status());
    assert!(matches!(at(&v, &["process", "running"]), Json::Bool(true)));
    assert_eq!(at(&v, &["process", "pid"]).as_uint(), Some(4242));
    assert_eq!(text_at(&v, &["uplink", "host"]), "cloud.example.com");
    assert_eq!(text_at(&v, &["uplink", "port_source"]), "Open Live");
    assert!(matches!(at(&v, &["uplink_error"]), Json::Null));
    assert!(matches!(at(&v, &["strom", "reachable"]), Json::Bool(true)));
    assert!(matches!(at(&v, &["open_live", "reachable"]), Json::Bool(false)));
    assert_eq!(text_at(&v, &["open_live", "error"]), "connection refused");
    assert!(matches!(at(&v, &["inputs", "0", "flow", "running"]), Json::Bool(true)));
    assert_eq!(
        at(&v, &["inputs", "0", "uplink", "rtt_ms"]).as_number(),
        Some(Number::Float(31.4f64.to_bits()))
    );
    assert_eq!(text_at(&v, &["inputs", "0", "source", "status"]), "active");
    assert!(matches!(at(&v, &["inputs", "1", "uplink"]), Json::Null));
    assert!(matches!(at(&v, &["inputs", "1", "source"]), Json::Null));
}

#[test]
fn devices_render_as_a_table_and_as_json() {
    let all = vec![
        DeviceReport {
            name: "DeckLink SDI".to_string(),
            id: "decklink-0".to_string(),
            virtual_: false,
        },
        DeviceReport {
            name: "OBS Virtual Camera".to_string(),
            id: "obs-0".to_string(),
            virtual_: true,
        },
    ];
    let text = render_devices(&all);
    assert!(text.starts_with("DEVICE"));
    assert!(text.contains("OBS Virtual Camera"));
    assert!(text.contains("virtual, skipped unless --all"));
    assert_eq!(
        render_devices(&vec![]),
        "Strom reports no video sources on this machine.\n"
    );

    let v = devices_document(&all);
    assert_eq!(text_at(&v, &["0", "id"]), "decklink-0");
    assert!(matches!(at(&v, &["0", "virtual"]), Json::Bool(false)));
    assert!(matches!(at(&v, &["1", "virtual"]), Json::Bool(true)));
}

const CLOUD: PortRange = PortRange {
    first: 47110,
    last: 47129,
};
const LOCAL: PortRange = PortRange {
    first: 9000,
    last: 9019,
};

fn stored(address: &str) -> Source {
    Source {
        id: "src-1".to_string(),
        name: "Venue — Cam".to_string(),
        address: address.to_string(),
        stream_type: "srt".to_string(),
        status: "inactive".to_string(),
        latency: None,
    }
}

fn kept(plan: PortPlan) -> (String, u16) {
    match plan {
        PortPlan::Keep { source_id, port } => (source_id, port),
        other => panic!("{other:?}"),
    }
}

fn reassigned(plan: PortPlan) -> String {
    match plan {
        PortPlan::Reassign { source_id } => source_id,
        other => panic!("{other:?}"),
    }
}

#[test]
fn a_stored_source_keeps_its_port_only_while_it_is_inside_the_range() {
    let range = PortRange {
        first: 47100,
        last: 47109,
    };
    assert!(matches!(plan_port(None, &range), PortPlan::Create));
    assert_eq!(
        kept(plan_port(
            Some(&stored("srt://:47103?mode=listener&passphrase=***")),
            &range
        )),
        ("src-1".to_string(), 47103)
    );
    // Left by a run against the old default range: Open Live would refuse it now.
    assert_eq!(
        reassigned(plan_port(Some(&stored("srt://:47110?mode=listener")), &range)),
        "src-1"
    );
    assert_eq!(
        reassigned(plan_port(
            Some(&stored("srt://cloud.example.com:47103?mode=caller")),
            &range
        )),
        "src-1"
    );
}

fn leased() -> Option<String> {
    Some("leased".to_string())
}

#[test]
fn in_caller_mode_the_published_range_wins_over_the_settings() {
    assert_eq!(
        choose_ports(UplinkMode::Caller, Some(LOCAL), Some(CLOUD), leased()).unwrap(),
        (CLOUD, PortSource::OpenLive)
    );
    assert_eq!(
        choose_ports(UplinkMode::Caller, None, Some(CLOUD), leased()).unwrap(),
        (CLOUD, PortSource::OpenLive)
    );
}

/// An older Open Live, or one that cannot lease, leaves the settings in charge.
#[test]
fn in_caller_mode_the_settings_are_the_fallback_when_nothing_is_published() {
    for status in [None, Some("pending"), Some("unsupported"), Some("disabled")] {
        assert_eq!(
            choose_ports(UplinkMode::Caller, Some(LOCAL), None, status.map(str::to_string)).unwrap(),
            (LOCAL, PortSource::Settings),
            "{status:?}"
        );
    }
}

/// Neither side has a range: the error names both fixes, and says when the fix is
/// simply to wait for Open Live.
#[test]
fn in_caller_mode_no_range_at_all_is_an_error_that_names_the_fixes() {
    let err = choose_ports(UplinkMode::Caller, None, None, None)
        .unwrap_err()
        .message();
    assert!(err.contains("uplink.port_range"), "{err}");
    assert!(err.contains("upgrade"), "{err}");
    assert!(!err.contains("waiting"), "{err}");

    let err = choose_ports(UplinkMode::Caller, None, None, Some("pending".to_string()))
        .unwrap_err()
        .message();
    assert!(err.contains("uplink.port_range"), "{err}");
    assert!(err.contains("waiting"), "{err}");
    assert!(err.contains("try again"), "{err}");
}

/// Listener ports are this machine's own; nothing Open Live publishes applies.
#[test]
fn in_listener_mode_only_the_settings_count() {
    assert_eq!(
        choose_ports(UplinkMode::Listener, Some(LOCAL), Some(CLOUD), leased()).unwrap(),
        (LOCAL, PortSource::Settings)
    );
    let err = choose_ports(UplinkMode::Listener, None, Some(CLOUD), leased())
        .unwrap_err()
        .message();
    assert!(err.contains("uplink.port_range"), "{err}");
}

#[test]
fn run_truncation_keeps_names_within_the_column() {
    assert_eq!(truncate("short", 10), "short");
    assert_eq!(truncate("an extremely long device name", 10).chars().count(), 10);
    assert_eq!(truncate("an extremely long device name", 10), "an extrem…");
}

// What follows goes beyond single functions: one input from start to stop.

fn input(device: &str, port: u16) -> Input {
    Input {
        id: device_input_id(device),
        name: format!("Venue — {device}"),
        source: Captured::Device {
            device_id: device.to_string(),
            resolution: None,
            framerate: None,
        },
        endpoint: Uplink::default().endpoint("cloud.example.com", port),
    }
}

fn live() -> Live {
    Live::new(input("cam", 47110), flow_id("gw", "dev-cam"), None)
}

#[test]
fn a_feed_on_air_survives_two_quiet_polls_and_not_a_third() {
    let mut l = live();
    assert!(matches!(l.on_flow(None), PollStep::Recreate));
    assert!(matches!(l.on_flow(Some(false)), PollStep::Start));
    assert!(matches!(l.on_flow(Some(true)), PollStep::ReadStatistics));
    l.on_sample(Some(100));
    assert!(matches!(l.state, State::Waiting), "one sample proves nothing");
    l.on_sample(Some(200));
    assert!(matches!(l.state, State::OnAir));
    l.on_sample(Some(200));
    l.on_sample(Some(200));
    assert!(matches!(l.state, State::OnAir));
    l.on_sample(Some(200));
    assert!(matches!(l.state, State::Waiting));
}

/// A reconnect resets the counter, which is movement and no stall.
#[test]
fn a_counter_that_starts_over_is_movement() {
    let mut l = live();
    l.on_sample(Some(9000));
    l.on_sample(Some(100));
    assert!(matches!(l.state, State::OnAir));
    l.on_sample(None);
    assert!(matches!(l.state, State::Waiting));
    assert_eq!(l.last_bytes, None);
}

#[test]
fn a_state_is_announced_once() {
    let mut l = live();
    assert_eq!(l.news().as_deref(), Some("  Venue — cam — starting"));
    assert_eq!(l.news(), None);
    l.on_lost();
    assert_eq!(l.news().as_deref(), Some("  Venue — cam — lost contact with Strom"));
    l.on_started(false);
    assert_eq!(
        l.news().as_deref(),
        Some("  Venue — cam — failed: Strom did not report the flow running after start")
    );
}

#[test]
fn a_missing_source_is_created_a_stale_one_patched_and_a_matching_one_kept() {
    let mut l = live();
    let payload = match l.reconcile(&vec![]) {
        SourceAction::Create(payload) => payload,
        other => panic!("{other:?}"),
    };
    assert_eq!(payload.name, "Venue — cam");
    assert_eq!(payload.address, "srt://:47110?mode=listener");
    assert_eq!(payload.status, "inactive");
    l.on_written("src-9".to_string());
    assert_eq!(l.source_id.as_deref(), Some("src-9"));
    let mut source = Source {
        id: "src-9".to_string(),
        name: payload.name.clone(),
        address: payload.address.clone(),
        stream_type: payload.stream_type.clone(),
        status: payload.status.clone(),
        latency: Some(payload.latency),
    };
    assert!(matches!(l.reconcile(&vec![source.clone()]), SourceAction::Keep));
    source.status = "active".to_string();
    match l.reconcile(&vec![source]) {
        SourceAction::Patch { id, payload } => {
            assert_eq!(id, "src-9");
            assert_eq!(payload.status, "inactive");
        }
        other => panic!("{other:?}"),
    }
}

/// A stored source that has to be rewritten is adopted by its name, and only when
/// the write went through.
#[test]
fn a_stale_source_is_adopted_once_it_was_written() {
    let mut l = live();
    let mut source = stored("srt://:9999?mode=listener");
    source.name = "Venue — cam".to_string();
    let id = match l.reconcile(&vec![source.clone()]) {
        SourceAction::Patch { id, .. } => id,
        other => panic!("{other:?}"),
    };
    assert_eq!(id, source.id);
    assert_eq!(l.source_id, None);
    l.on_written(id);
    assert_eq!(l.source_id, Some(source.id));
}

/// Losing Strom is no evidence that a feed stopped, so the stored status stays.
#[test]
fn losing_strom_leaves_the_status_as_it_was() {
    let mut l = live();
    l.source_id = Some("src-1".to_string());
    l.on_lost();
    let mut source = stored("srt://:47110?mode=listener");
    source.name = "Venue — cam".to_string();
    source.status = "active".to_string();
    source.latency = Some(200);
    assert!(matches!(l.reconcile(&vec![source]), SourceAction::Keep));
}

fn named(id: &str, name: &str, address: &str) -> Source {
    Source {
        id: id.to_string(),
        name: name.to_string(),
        ..stored(address)
    }
}

#[test]
fn a_sweep_takes_this_gateways_sources_and_no_others() {
    let sources = vec![
        named("a", "Venue — Cam", "x"),
        named("b", "Other — Cam", "x"),
        named("c", "Venue2 — Cam", "x"),
    ];
    let swept: Vec<String> = sources_to_sweep(&sources, " Venue ").into_iter().map(|s| s.id).collect();
    assert_eq!(swept, ["a"]);
    assert_eq!(find_by_id(&sources, "b"), Some(1));
    assert_eq!(find_by_name(&sources, "Venue2 — Cam"), Some(2));
    assert_eq!(find_by_id(&sources, "z"), None);
}

/// Each input keeps its port, or gets the one Open Live names.
#[test]
fn ports_are_assigned_by_open_live() {
    let inputs = vec![input("cam1", 0), input("cam2", 0), input("cam3", 0)];
    let sources = vec![
        named("s1", "Venue — cam1", "srt://:47103?mode=listener"),
        named("s2", "Venue — cam2", "srt://:40000?mode=listener"),
    ];
    let range = PortRange {
        first: 47100,
        last: 47109,
    };
    let mut assignment = PortAssignment::new(inputs, range, sources);
    assert!(matches!(assignment.step(), AssignStep::Kept));
    match assignment.step() {
        AssignStep::Reassign { source_id, .. } => assert_eq!(source_id, "s2"),
        other => panic!("{other:?}"),
    }
    let relisted = vec![named("s2", "Venue — cam2", "srt://:47104?mode=listener")];
    assignment.on_relisted("s2".to_string(), &relisted).unwrap();
    assert!(matches!(assignment.step(), AssignStep::Create(_)));
    assignment
        .on_created(&named("s3", "Venue — cam3", "srt://:47105?mode=listener"))
        .unwrap();
    assert!(matches!(assignment.step(), AssignStep::Done));
    let ports: Vec<u16> = assignment.inputs.iter().map(|i| i.endpoint.port).collect();
    assert_eq!(ports, [47103, 47104, 47105]);
    assert_eq!(assignment.source_ids, ["s1", "s2", "s3"]);
}

#[test]
fn an_answer_without_a_port_or_a_lost_source_is_an_error() {
    let range = PortRange {
        first: 47100,
        last: 47109,
    };
    let mut assignment = PortAssignment::new(vec![input("cam1", 0)], range, vec![]);
    assert!(matches!(assignment.step(), AssignStep::Create(_)));
    let err = assignment
        .on_created(&named("s1", "Venue — cam1", "srt://h:1?mode=caller"))
        .unwrap_err();
    assert!(matches!(err, AssignError::NoPort { .. }));
    assert!(err.message().contains("srt://h:1?mode=caller"), "{}", err.message());

    let held = vec![named("s1", "Venue — cam1", "srt://:1?mode=listener")];
    let mut assignment = PortAssignment::new(vec![input("cam1", 0)], range, held);
    assert!(matches!(assignment.step(), AssignStep::Reassign { .. }));
    let err = assignment.on_relisted("s1".to_string(), &vec![]).unwrap_err();
    assert!(matches!(err, AssignError::Lost { .. }));
    assert!(err.message().contains("Venue — cam1"), "{}", err.message());
}

#[test]
fn flows_in_the_way_are_ours_or_hold_a_device() {
    let video = Video::default();
    let inputs = vec![input("cam", 47110)];
    let ours = build("gw", &inputs[0], &video);
    assert_eq!(conflicts(&ours, "gw", &inputs), Some(Conflict::LeftOver));
    let foreign = build("other", &inputs[0], &video);
    assert_eq!(conflicts(&foreign, "gw", &inputs), Some(Conflict::HoldsDevice));
    let elsewhere = build("other", &input("cam9", 1), &video);
    assert_eq!(conflicts(&elsewhere, "gw", &inputs), None);
    assert_eq!(
        removal_line("Old", Conflict::LeftOver),
        "  removed \"Old\", left over from an earlier run"
    );
}

#[test]
fn a_stale_pidfile_has_nobody_killed() {
    assert_eq!(read_pid(" 42\n"), Some(42));
    assert_eq!(read_pid("x"), None);
    assert!(is_running_gateway(true, Some("open-live-inges")));
    assert!(!is_running_gateway(true, Some("bash")));
    assert!(!is_running_gateway(false, Some("open-live-inges")));
    assert!(!is_running_gateway(true, None));
}

#[test]
fn the_cloud_is_configured_or_asked_for() {
    let mut cfg = Config::default();
    cfg.uplink.host = Some("cloud.example.com".to_string());
    cfg.uplink.port_range = "9000-9019".to_string();
    let cloud = resolve_cloud(&cfg, false, Asked::No).unwrap();
    assert_eq!(cloud.host, "cloud.example.com");
    assert_eq!((cloud.ports, cloud.port_source), (LOCAL, PortSource::Settings));

    cfg.uplink.host = None;
    let err = resolve_cloud(&cfg, false, Asked::No).unwrap_err();
    assert!(matches!(err, CloudError::NobodyToAsk));
    let err = resolve_cloud(&cfg, true, Asked::Failed("HTTP 502".to_string())).unwrap_err();
    assert!(err.message().contains("HTTP 502"), "{}", err.message());
    let info = ServerInfo::read(
        Some("strom.cloud".to_string()),
        Some("47110-47129".to_string()),
        leased(),
    );
    let cloud = resolve_cloud(&cfg, true, Asked::Info(Some(info))).unwrap();
    assert_eq!(cloud.host, "strom.cloud");
    assert_eq!((cloud.ports, cloud.port_source), (CLOUD, PortSource::OpenLive));
    let nothing = ServerInfo::read(None, None, None);
    let err = resolve_cloud(&cfg, true, Asked::Info(Some(nothing))).unwrap_err();
    assert!(matches!(err, CloudError::NoHost));
    cfg.uplink.port_range = "soon".to_string();
    let err = resolve_cloud(&cfg, true, Asked::Info(None)).unwrap_err();
    assert!(matches!(err, CloudError::Range(_)));
}

#[test]
fn a_range_that_does_not_count_is_mentioned() {
    assert!(ignored_range_warning(UplinkMode::Caller, Some(LOCAL), Some(CLOUD)).is_some());
    assert!(ignored_range_warning(UplinkMode::Caller, Some(CLOUD), Some(CLOUD)).is_none());
    assert!(ignored_range_warning(UplinkMode::Listener, Some(LOCAL), Some(CLOUD)).is_none());
}

#[test]
fn what_up_says() {
    let cloud = Cloud {
        host: "cloud.example.com".to_string(),
        ports: CLOUD,
        port_source: PortSource::OpenLive,
    };
    assert_eq!(
        bring_up_line(3, &cloud, 6000),
        "Bringing up 3 input(s) to cloud.example.com, SRT ports 47110-47129 from Open Live, \
         about 18 Mbps in total."
    );
    assert!(bring_up_line(1, &cloud, 2500).contains("about 2 Mbps"));
    assert!(bring_up_line(1, &cloud, 3500).contains("about 4 Mbps"));
    let text = summary(&vec![live()]);
    assert!(text.contains("Venue — cam"), "{text}");
    assert!(text.contains("srt://:47110?mode=listener"), "{text}");
}

/// Flows and sources meet by name; anything that is not this gateway's stays out.
#[test]
fn a_report_joins_flows_uplinks_and_sources_by_name() {
    let video = Video::default();
    let mut running = build("gw", &input("cam1", 47110), &video);
    running.running = true;
    let id = running.id;
    let foreign = build("other", &input("cam2", 47111), &video);
    let report = gather_status(
        Gathered {
            pid: None,
            cloud: Err("no host".to_string()),
            strom_url: "http://127.0.0.1:8080".to_string(),
            flows: Ok(vec![running, foreign]),
            open_live: Some((
                "https://ol".to_string(),
                Ok(vec![
                    named("s1", "Venue — cam1", "x"),
                    named("s9", "Venue — gone", "x"),
                    named("s8", "Elsewhere — cam", "x"),
                ]),
            )),
            samples: Samples {
                entries: vec![(
                    id,
                    UplinkStatsReport {
                        bytes_sent: Some(7),
                        ..UplinkStatsReport::default()
                    },
                )],
            },
        },
        "gw",
        "Venue",
    );
    assert!(!report.process.running);
    assert_eq!(report.uplink_error.as_deref(), Some("no host"));
    let names: Vec<&str> = report.inputs.iter().map(|i| i.name.as_str()).collect();
    assert_eq!(names, ["Venue — cam1", "Venue — gone"]);
    assert!(report.inputs[0].flow.as_ref().unwrap().running);
    assert_eq!(report.inputs[0].uplink.unwrap().bytes_sent, Some(7));
    assert_eq!(report.inputs[0].source.as_ref().unwrap().id, "s1");
    assert!(report.inputs[1].flow.is_none());
}

#[test]
fn the_heartbeat_counts_feeds_on_air_and_plays_those_that_run() {
    let mut first = live();
    first.on_sample(Some(100));
    first.on_sample(Some(200));
    first.source_id = Some("src-1".to_string());
    let mut second = live();
    second.on_sample(None);
    let third = live();
    let measured = HeartbeatUplink::from_srt(Some(6000), None, Some(2));
    let said = snapshot("box", "0.3.0", &vec![first, second, third], &vec![Some(measured)]);
    assert_eq!((said.host.as_str(), said.ingest_version.as_str()), ("box", "0.3.0"));
    assert_eq!((said.device_count, said.streaming_count), (3, 1));
    let states: Vec<FlowState> = said.inputs.iter().map(|i| i.flow_state).collect();
    assert_eq!(states, [FlowState::Playing, FlowState::Playing, FlowState::Idle]);
    assert_eq!(said.inputs[0].source_id.as_deref(), Some("src-1"));
    assert_eq!(said.inputs[0].uplink, Some(measured));
    assert!(said.inputs[1].uplink.is_none());
}

/// A sign is not lost on the way to the screen.
#[test]
fn a_negative_reading_keeps_its_sign() {
    let below = |shown| Reading {
        bits: (-1.5f64).to_bits(),
        negative: true,
        shown,
    };
    assert_eq!(show_rate(below(150)), "-1.50");
    assert_eq!(show_whole(below(2)), "-2");
}
