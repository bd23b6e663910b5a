use open_live_ingest::config::{
    validate_with, Capture, Config, ConfigError, Fault, OpenLive, PortRange, Strom, UplinkMode,
};
use open_live_ingest::devices::{choose_devices, name_prefix, Device};
use open_live_ingest::gateway::config::SettingsError;
use open_live_ingest::heartbeat::{Target, TargetError};
use open_live_ingest::local_strom::{say_refusal, StromRefusal};
use open_live_ingest::openlive::{ServerInfo, Source};
use open_live_ingest::run::{
    resolve_cloud, AssignError, AssignStep, Asked, CloudError, PortAssignment,
};

fn valid() -> Config {
    let mut cfg = Config::default();
    cfg.gateway.name = "Venue".to_string();
    cfg.open_live.url = Some("https://ol.example.com".to_string());
    cfg
}

fn refused(change: impl FnOnce(&mut Config)) -> ConfigError {
    let mut cfg = valid();
    change(&mut cfg);
    validate_with(&cfg, false).unwrap_err()
}

#[test]
fn every_refused_setting_says_what_it_is() {
    let cases: Vec<(ConfigError, Fault, &str)> = vec![
        (
            refused(|c| c.strom.url = "x".to_string()),
            Fault::StromUrl,
            "strom.url must be an http or https URL, got \"x\"",
        ),
        (
            refused(|c| c.uplink.port_range = "9".to_string()),
            Fault::PortRangeShape,
            "port_range must be \"first-last\", got \"9\"",
        ),
        (
            refused(|c| c.uplink.port_range = "a-9".to_string()),
            Fault::FirstPort,
            "invalid first port in \"a-9\"",
        ),
        (
            refused(|c| c.uplink.port_range = "9-a".to_string()),
            Fault::LastPort,
            "invalid last port in \"9-a\"",
        ),
        (
            refused(|c| c.uplink.port_range = "9-8".to_string()),
            Fault::EmptyPortRange,
            "empty port range \"9-8\"",
        ),
        (
            refused(|c| c.uplink.mode = UplinkMode::Listener),
            Fault::PublicHostMissing,
            "uplink.mode is \"listener\", where the cloud dials this machine, so \
             uplink.public_host must be its address as the cloud sees it",
        ),
        (
            refused(|c| c.uplink.pbkeylen = Some(20)),
            Fault::KeyLength,
            "uplink.pbkeylen must be 16, 24, or 32, got 20",
        ),
        (
            refused(|c| c.uplink.passphrase = Some("short".to_string())),
            Fault::PassphraseLength,
            "uplink.passphrase must be 10 to 79 characters, got 5",
        ),
        (
            refused(|c| c.uplink.passphrase = Some("ten&letters".to_string())),
            Fault::PassphraseCharacters,
            "uplink.passphrase may only contain letters, digits, and - _ . ~ ! *",
        ),
        (
            refused(|c| c.capture = format(Some("1080p"), None)),
            Fault::ResolutionShape,
            "resolution must be WxH, got \"1080p\"",
        ),
        (
            refused(|c| c.capture = format(Some("ax720"), None)),
            Fault::Width,
            "bad width in \"ax720\"",
        ),
        (
            refused(|c| c.capture = format(Some("1280xb"), None)),
            Fault::Height,
            "bad height in \"1280xb\"",
        ),
        (
            refused(|c| c.capture = format(None, Some("25"))),
            Fault::Framerate,
            "capture.video_framerate must be N/D, e.g. 25/1, got \"25\"",
        ),
        (
            refused(|c| c.open_live.url = None),
            Fault::OpenLiveUrlMissing,
            "open_live.register is on but open_live.url is unset",
        ),
    ];
    for (err, fault, message) in cases {
        assert_eq!(err.fault, fault);
        assert_eq!(err.message(), message);
    }
}

fn format(resolution: Option<&str>, framerate: Option<&str>) -> Capture {
    Capture {
        video_resolution: resolution.map(str::to_string),
        video_framerate: framerate.map(str::to_string),
    }
}

fn target(url: Option<&str>, id: Option<&str>, token: Option<&str>) -> Result<Option<Target>, TargetError> {
    Target::from_config(&OpenLive {
        url: url.map(str::to_string),
        gateway_id: id.map(str::to_string),
        gateway_token: token.map(str::to_string),
        ..OpenLive::default()
    })
}

#[test]
fn every_refused_heartbeat_target_says_what_it_is() {
    let url = Some("https://ol");
    assert!(matches!(target(url, Some("g"), None), Err(TargetError::TokenMissing)));
    assert!(matches!(target(url, None, Some("t")), Err(TargetError::IdMissing)));
    assert!(matches!(target(None, Some("g"), Some("t")), Err(TargetError::UrlMissing)));
    assert_eq!(
        target(url, Some("g 1"), Some("t")).err().unwrap().message(),
        "open_live.gateway_id may only contain letters, digits, - and _, got \"g 1\""
    );
    assert_eq!(
        target(Some("ol"), Some("g"), Some("t")).err().unwrap().message(),
        "open_live.url must start with http:// or https://, got \"ol\""
    );
}

#[test]
fn every_reason_for_not_reaching_the_cloud_is_told() {
    let info = |host: Option<&str>| {
        Asked::Info(Some(ServerInfo {
            strom_host: host.map(str::to_string),
            srt_port_range: None,
            srt_port_lease: None,
        }))
    };
    let mut cfg = valid();
    assert!(matches!(
        resolve_cloud(&cfg, false, Asked::No),
        Err(CloudError::NobodyToAsk)
    ));
    assert!(matches!(
        resolve_cloud(&cfg, true, info(None)),
        Err(CloudError::NoHost)
    ));
    let failed = resolve_cloud(&cfg, true, Asked::Failed("gone".to_string())).unwrap_err();
    assert_eq!(failed.message(), "asking Open Live where its Strom is: gone");
    cfg.uplink.port_range = String::new();
    assert!(matches!(
        resolve_cloud(&cfg, true, info(Some("h"))),
        Err(CloudError::NoRange(None))
    ));
    cfg.uplink.mode = UplinkMode::Listener;
    assert!(matches!(
        resolve_cloud(&cfg, true, info(Some("h"))),
        Err(CloudError::ListenerRange)
    ));
    cfg.uplink.port_range = "x".to_string();
    assert!(matches!(
        resolve_cloud(&cfg, true, info(Some("h"))),
        Err(CloudError::Range(_))
    ));
}

fn source(name: &str, address: &str) -> Source {
    Source {
        id: "s1".to_string(),
        name: name.to_string(),
        address: address.to_string(),
        stream_type: "srt".to_string(),
        status: "inactive".to_string(),
        latency: None,
    }
}

#[test]
fn an_assignment_that_open_live_does_not_answer_is_an_error() {
    let cfg = valid();
    let inputs = || {
        open_live_ingest::devices::inputs_for(
            &vec![Device {
                id: "a".to_string(),
                name: "Cam".to_string(),
                provider: None,
            }],
            false,
            &cfg.gateway.name,
            &cfg.uplink,
            &cfg.capture,
            "cloud",
        )
        .unwrap()
    };
    let range = PortRange {
        first: 47110,
        last: 47129,
    };
    let mut fresh = PortAssignment::new(inputs(), range, vec![]);
    assert!(matches!(fresh.step(), AssignStep::Create(_)));
    let err = fresh
        .on_created(&source("x", "srt://h:1?mode=caller&passphrase=secret-secret"))
        .unwrap_err();
    assert!(matches!(err, AssignError::NoPort { .. }));
    assert!(!err.message().contains("secret-secret"), "{}", err.message());

    let name = name_prefix(&cfg.gateway.name) + "Cam";
    let stored = vec![source(&name, "srt://:9?mode=listener")];
    let mut moved = PortAssignment::new(inputs(), range, stored);
    match moved.step() {
        AssignStep::Reassign { source_id, .. } => {
            let err = moved.on_relisted(source_id, &vec![]).unwrap_err();
            assert!(matches!(err, AssignError::Lost { .. }));
            assert!(err.message().starts_with("Open Live lost the source for "));
        }
        _ => panic!("a port outside the range is asked for anew"),
    }
}

#[test]
fn every_refused_strom_says_what_to_do() {
    let strom = Strom {
        url: "u".to_string(),
        binary: "strom".to_string(),
        ..Strom::default()
    };
    assert!(say_refusal(StromRefusal::NoBinary, &strom).starts_with("could not find \"strom\" on PATH."));
    assert!(say_refusal(StromRefusal::NeedsCredential, &strom).starts_with("Strom at u wants a credential."));
    assert!(say_refusal(StromRefusal::NotManaged, &strom).starts_with("nothing is listening at u, and [strom] manage is off."));
    assert_eq!(
        say_refusal(StromRefusal::NoPort, &strom),
        "strom.url \"u\" names no port, so there is nothing to start a Strom on"
    );
}

#[test]
fn every_refused_gateway_setting_says_what_it_is() {
    let text = |s: &str| s.to_string();
    for (err, message) in [
        (SettingsError::NoInputs, "no inputs configured"),
        (
            SettingsError::StromUrlUnset,
            "strom.url is unset — the gateway needs a local Strom instance to drive",
        ),
        (
            SettingsError::StromUrlNotHttp { url: text("x") },
            "strom.url must be an http or https URL, got x",
        ),
        (SettingsError::DuplicateId { id: text("a") }, "duplicate input id: a"),
        (
            SettingsError::PortReused { id: text("a"), port: 9 },
            "input a reuses SRT port 9 already claimed by another input",
        ),
        (SettingsError::NoHost { id: text("a") }, "input a has no uplink host"),
        (
            SettingsError::KeyLength { id: text("a"), length: 20 },
            "input a has invalid pbkeylen 20 (expected 16, 24, or 32)",
        ),
        (
            SettingsError::BadBind { bind: text("b") },
            "invalid control bind address: b",
        ),
        (
            SettingsError::OpenBind { address: text("0.0.0.0:1") },
            "control API bound to 0.0.0.0:1 without a token — set control.token or bind to loopback",
        ),
        (
            SettingsError::UrlUnset,
            "open_live.register is on but open_live.url is unset",
        ),
        (
            SettingsError::KeyUnset,
            "open_live.register is on but open_live.api_key is unset",
        ),
    ] {
        assert_eq!(err.message(), message);
    }
}

/// Devices with names of their own land in one order, however they were listed.
#[test]
fn the_order_of_discovery_does_not_matter() {
    let cam = |id: &str, name: &str| Device {
        id: id.to_string(),
        name: name.to_string(),
        provider: None,
    };
    let names = |all: Vec<Device>| -> Vec<String> {
        let chosen = choose_devices(all, false, None).unwrap();
        chosen.into_iter().map(|d| d.id).collect()
    };
    let one = names(vec![cam("1", "B"), cam("2", "A"), cam("3", "C")]);
    let other = names(vec![cam("3", "C"), cam("2", "A"), cam("1", "B")]);
    assert_eq!(one, vec!["2", "1", "3"]);
    assert_eq!(one, other);
}
