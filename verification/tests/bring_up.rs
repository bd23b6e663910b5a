use open_live_ingest::bring_up::{
    assigns_ports, file_sources, lay_out, open_live_client, pick_devices, read_start, BringUp,
    UpError,
};
use open_live_ingest::config::{Config, PortRange};
use open_live_ingest::devices::Device;
use open_live_ingest::flow::flow_id;
use open_live_ingest::gateway::book::Book;
use open_live_ingest::gateway::client::FlowState;
use open_live_ingest::gateway::config::GatewayConfig;
use open_live_ingest::gateway::rollout::Rollout;
use open_live_ingest::gateway::session::{started_input, PortError};
use open_live_ingest::run::{Cloud, PortSource, State};

fn device(id: &str, name: &str) -> Device {
    Device {
        id: id.to_string(),
        name: name.to_string(),
        provider: None,
    }
}

fn config() -> Config {
    let mut cfg = Config::default();
    cfg.gateway.name = "Venue".to_string();
    cfg
}

fn cloud(first: u16, last: u16, port_source: PortSource) -> Cloud {
    Cloud {
        host: "cloud.example.com".to_string(),
        ports: PortRange { first, last },
        port_source,
    }
}

#[test]
fn a_venue_comes_up_camera_by_camera() {
    let cfg = config();
    let picked = pick_devices(
        vec![device("b", "Cam B"), device("v", "OBS Virtual Camera"), device("a", "Cam A")],
        false,
        None,
    )
    .unwrap();
    let link = cloud(9000, 9001, PortSource::OpenLive);
    assert!(assigns_ports(true, &link) && !assigns_ports(false, &link));
    assert!(!assigns_ports(true, &cloud(9000, 9001, PortSource::Settings)));
    let inputs = lay_out(&cfg, &picked, false, &link).unwrap();
    assert_eq!(inputs.len(), 2);
    let sources = file_sources(&inputs, &vec!["s-a".to_string(), "s-b".to_string()]);

    let mut up = BringUp::new("gw".to_string(), inputs, sources);
    let first = up.next_flow(&cfg.video).unwrap();
    assert_eq!(first.id, flow_id("gw", "dev-a"));
    up.on_outcome(false);
    let second = up.next_flow(&cfg.video).unwrap();
    assert_eq!(second.id, flow_id("gw", "dev-b"));
    up.on_outcome(true);
    assert!(up.next_flow(&cfg.video).is_none());
    let live = up.finish().unwrap();
    assert_eq!(live.len(), 1, "one camera failing does not stop the rest");
    assert_eq!(live[0].input.id, "dev-b");
    assert_eq!(live[0].source_id.as_deref(), Some("s-b"));
    assert!(live[0].state.is_same(&State::Starting));
}

#[test]
fn each_reason_for_not_coming_up_is_told() {
    let cfg = config();
    assert!(matches!(
        pick_devices(vec![], false, None),
        Err(UpError::NoDevices)
    ));
    let none = pick_devices(vec![device("a", "Cam")], false, Some("tape")).unwrap_err();
    assert!(matches!(none, UpError::Choice(_)));
    assert!(none.message().contains("tape"));
    let full = lay_out(
        &cfg,
        &vec![device("a", "A"), device("b", "B")],
        false,
        &cloud(9000, 9000, PortSource::Settings),
    )
    .unwrap_err();
    assert_eq!(full.message(), "no free SRT port left in range 9000-9000");
    let mut up = BringUp::new(
        "gw".to_string(),
        lay_out(&cfg, &vec![], true, &cloud(9000, 9000, PortSource::Settings)).unwrap(),
        Book::new(),
    );
    up.on_outcome(false);
    assert_eq!(up.finish().unwrap_err().message(), "no input could be started");
    assert_eq!(read_start(Ok(true)), Ok(()));
    assert_eq!(
        read_start(Ok(false)).unwrap_err(),
        "Strom did not report the flow running after start"
    );
    assert_eq!(read_start(Err("gone".to_string())).unwrap_err(), "gone");
}

#[test]
fn open_live_is_asked_only_where_sources_are_registered() {
    let mut cfg = config();
    cfg.open_live.register = false;
    assert!(open_live_client(&cfg).unwrap().is_none());
    cfg.open_live.register = true;
    cfg.open_live.url = None;
    assert_eq!(open_live_client(&cfg).unwrap_err(), "open_live.url is unset");
    cfg.open_live.url = Some("https://ol/".to_string());
    let client = open_live_client(&cfg).unwrap().unwrap();
    assert_eq!(client.sources_url(), "https://ol/api/v1/sources");
}

#[test]
fn a_rollout_hands_out_each_port_once() {
    let mut cfg = GatewayConfig::default();
    cfg.gateway.name = "Venue".to_string();
    cfg.app.uplink.port_range = "9000-9001".to_string();
    assert_eq!(
        Rollout::new(&cfg, vec![]).unwrap_err(),
        "Strom reports no capture devices (virtual ones are skipped; --all includes them)"
    );
    let devices = vec![device("a", "A"), device("b", "B"), device("c", "C")];
    let mut rollout = Rollout::new(&cfg, devices).unwrap();
    let first = rollout.next_input(&cfg, "cloud").unwrap().unwrap();
    assert_eq!((first.id.as_str(), first.uplink.port), ("dev-a", 9000));
    // The first one could not be started; its port stays taken all the same.
    let second = rollout.next_input(&cfg, "cloud").unwrap().unwrap();
    assert_eq!((second.id.as_str(), second.uplink.port), ("dev-b", 9001));
    let state = FlowState {
        id: "f".to_string(),
        name: "n".to_string(),
        running: true,
        gst_state: None,
    };
    rollout.on_started(started_input("gw", &second, &state).unwrap());
    assert!(matches!(
        rollout.next_input(&cfg, "cloud"),
        Err(PortError::Exhausted { .. })
    ));
    let active = rollout.finish().unwrap();
    assert!(active.get("dev-a").is_none() && active.get("dev-b").is_some());
    let none = Rollout::new(&cfg, vec![device("a", "A")]).unwrap();
    assert_eq!(none.finish().unwrap_err(), "no device could be started");
}
