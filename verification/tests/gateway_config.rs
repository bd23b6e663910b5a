use open_live_ingest::gateway::config::{
    validate, with_overrides, BindAddress, CaptureConfig, GatewayConfig, GatewayOverrides,
    InputConfig, SettingsError, UplinkConfig, UplinkMode, VideoConfig,
};

fn input(id: &str, port: u16) -> InputConfig {
    InputConfig {
        id: id.to_string(),
        name: None,
        capture: CaptureConfig::Test {
            video_resolution: "1920x1080".to_string(),
            video_framerate: "25/1".to_string(),
            audio_rate: 48000,
            audio_channels: 2,
        },
        video: VideoConfig::default(),
        uplink: UplinkConfig {
            mode: UplinkMode::default(),
            host: "strom.example.com".to_string(),
            public_host: None,
            port,
            latency_ms: 200,
            passphrase: None,
            pbkeylen: None,
            stream_id: None,
        },
        enabled: true,
    }
}

fn base() -> GatewayConfig {
    let mut cfg = GatewayConfig::default();
    cfg.gateway.name = "Venue A".to_string();
    cfg.strom.url = "http://127.0.0.1:8080".to_string();
    cfg.open_live.register = false;
    cfg.inputs.push(input("cam1", 9000));
    cfg
}

fn check(cfg: &GatewayConfig) -> Result<(), SettingsError> {
    // The addresses of these tests are told apart by their shape alone.
    let bind = cfg.control.bind.contains(':').then_some(()).map(|_| BindAddress {
        text: cfg.control.bind.clone(),
        loopback: cfg.control.bind.starts_with("127."),
    });
    validate(cfg, &bind)
}

#[test]
fn base_config_is_valid() {
    check(&base()).expect("base config should validate");
}

/// Two inputs on one box sharing a port would have Strom bind once and silently drop
/// the second feed, so this has to fail loudly at startup.
#[test]
fn duplicate_srt_ports_are_rejected() {
    let mut cfg = base();
    cfg.inputs.push(input("cam2", 9000));
    let err = check(&cfg).expect_err("duplicate ports must be rejected").message();
    assert!(err.contains("9000"), "error should name the port: {err}");
}

#[test]
fn duplicate_input_ids_are_rejected() {
    let mut cfg = base();
    cfg.inputs.push(input("cam1", 9001));
    let err = check(&cfg).expect_err("duplicate input ids must be rejected");
    assert_eq!(err.message(), "duplicate input id: cam1");
}

/// An unauthenticated control API on a routable interface would let anyone on the venue
/// network stop the feed, so refuse to start rather than warn.
#[test]
fn non_loopback_control_bind_requires_a_token() {
    let mut cfg = base();
    cfg.control.bind = "0.0.0.0:9001".to_string();
    assert!(
        check(&cfg).is_err(),
        "non-loopback bind without a token must be rejected"
    );

    cfg.control.token = Some("secret".to_string());
    check(&cfg).expect("non-loopback bind with a token should validate");
}

#[test]
fn registration_requires_url_and_api_key() {
    let mut cfg = base();
    cfg.open_live.register = true;
    assert!(matches!(check(&cfg), Err(SettingsError::UrlUnset)));

    cfg.open_live.url = Some("https://open-live.example.com".to_string());
    assert!(matches!(check(&cfg), Err(SettingsError::KeyUnset)));

    cfg.open_live.api_key = Some("key".to_string());
    check(&cfg).expect("registration with URL and key should validate");
}

#[test]
fn invalid_pbkeylen_is_rejected() {
    let mut cfg = base();
    cfg.inputs[0].uplink.pbkeylen = Some(20);
    assert!(check(&cfg).is_err(), "pbkeylen must be 16, 24, or 32");

    cfg.inputs[0].uplink.pbkeylen = Some(32);
    check(&cfg).expect("pbkeylen 32 should validate");
}

#[test]
fn strom_url_must_be_an_http_url() {
    let mut cfg = base();
    cfg.strom.url = "127.0.0.1:8080".to_string();
    assert!(
        matches!(check(&cfg), Err(SettingsError::StromUrlNotHttp { .. })),
        "a scheme-less Strom URL must be rejected"
    );

    cfg.strom.url = String::new();
    assert!(
        matches!(check(&cfg), Err(SettingsError::StromUrlUnset)),
        "an empty Strom URL must be rejected"
    );
}

#[test]
fn empty_input_list_is_rejected() {
    let mut cfg = base();
    cfg.inputs.clear();
    assert!(
        matches!(check(&cfg), Err(SettingsError::NoInputs)),
        "a gateway with no inputs must be rejected"
    );
}

#[test]
fn a_missing_host_or_a_bind_that_is_no_address_is_rejected() {
    let mut cfg = base();
    cfg.inputs[0].uplink.host = " ".to_string();
    assert_eq!(
        check(&cfg).unwrap_err().message(),
        "input cam1 has no uplink host"
    );
    let mut cfg = base();
    cfg.control.bind = "localhost".to_string();
    assert_eq!(
        check(&cfg).unwrap_err().message(),
        "invalid control bind address: localhost"
    );
}

#[test]
fn injected_values_win_over_the_file() {
    let cfg = with_overrides(
        base(),
        GatewayOverrides {
            open_live_url: Some("https://ol".to_string()),
            open_live_api_key: None,
            control_bind: Some("127.0.0.1:7000".to_string()),
            control_token: None,
            strom_url: None,
            strom_api_key: Some("k".to_string()),
            log_level: Some("debug".to_string()),
        },
    );
    assert_eq!(cfg.open_live.url.as_deref(), Some("https://ol"));
    assert_eq!(cfg.control.bind, "127.0.0.1:7000");
    assert_eq!(cfg.strom.url, "http://127.0.0.1:8080");
    assert_eq!(cfg.strom.api_key.as_deref(), Some("k"));
    assert_eq!(cfg.log.level, "debug");
    assert_eq!(cfg.inputs.len(), 1);
}

#[test]
fn an_input_goes_by_its_own_name_or_the_gateways_and_its_id() {
    let mut i = input("cam1", 9000);
    assert_eq!(i.source_name("Venue A"), "Venue A — cam1");
    i.name = Some("Stage left".to_string());
    assert_eq!(i.source_name("Venue A"), "Stage left");
}
