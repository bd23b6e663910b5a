use open_live_ingest::config::{AuthMode, Config, PortRange, UplinkMode};
use open_live_ingest::headless::{
    capture_line, check_settings, credential_line, find_token, greeted_line, idle_strom_line,
    latency_line, name_line, published_line, settle_uplink, uplink_line, HeadlessError,
};
use open_live_ingest::openlive::ServerInfo;
use open_live_ingest::osc::{inspect, TokenInfo};
use open_live_ingest::run::PortSource;

fn some(s: &str) -> Option<String> {
    Some(s.to_string())
}

fn cloud_config() -> Config {
    let mut cfg = Config::default();
    cfg.gateway.name = "Venue A".to_string();
    cfg.open_live.register = true;
    cfg.open_live.url = some("https://x.osaas.io");
    cfg.open_live.auth_mode = AuthMode::Osc;
    cfg
}

fn refused(cfg: &Config, token: Option<String>, info: Option<TokenInfo>) -> String {
    check_settings(cfg, &token, &info, 1000).unwrap_err().message()
}

/// Each refusal names its fix.
#[test]
fn missing_settings_are_refused_with_what_to_do() {
    let mut cfg = cloud_config();
    assert!(check_settings(&cfg, &some("t"), &None, 1000).is_ok());
    assert!(refused(&cfg, None, None).contains("needs a credential"));
    let old = TokenInfo {
        workspace: None,
        expires_at: Some(1000),
    };
    assert!(refused(&cfg, some("t"), Some(old)).contains("token has expired"));
    let fresh = TokenInfo {
        workspace: None,
        expires_at: Some(1001),
    };
    assert!(check_settings(&cfg, &some("t"), &Some(fresh), 1000).is_ok());
    cfg.open_live.url = some("  ");
    assert!(refused(&cfg, some("t"), None).contains("no Open Live URL"));
    cfg.gateway.name = " ".to_string();
    assert!(refused(&cfg, some("t"), None).contains("--name"));
    let gone = HeadlessError::Unreachable {
        url: "https://x".to_string(),
    };
    assert_eq!(gone.message(), "could not reach Open Live at https://x");
}

/// Nothing of Open Live's is needed without registration, and a self-hosted one may take
/// no key at all.
#[test]
fn what_is_not_used_is_not_asked_for() {
    let mut cfg = cloud_config();
    cfg.open_live.auth_mode = AuthMode::Direct;
    assert!(check_settings(&cfg, &None, &None, 1000).is_ok());
    assert_eq!(find_token(&cfg, &some("env"), &None), None);
    cfg.open_live.register = false;
    cfg.open_live.url = None;
    assert!(check_settings(&cfg, &None, &None, 1000).is_ok());
}

#[test]
fn the_token_is_the_one_a_run_would_exchange() {
    let mut cfg = cloud_config();
    assert_eq!(find_token(&cfg, &None, &some("login\n")).as_deref(), Some("login"));
    assert_eq!(find_token(&cfg, &some("env"), &some("login")).as_deref(), Some("env"));
    cfg.open_live.api_key = some("pat");
    assert_eq!(find_token(&cfg, &some("env"), &some("login")).as_deref(), Some("pat"));
}

fn server(range: Option<&str>) -> Option<ServerInfo> {
    Some(ServerInfo::read(
        some("strom.example.com"),
        range.map(str::to_string),
        None,
    ))
}

#[test]
fn the_ports_come_from_open_live_or_have_to_be_given() {
    let mut cfg = cloud_config();
    cfg.uplink.port_range = String::new();
    let (range, source) = settle_uplink(&cfg, &server(Some("47110-47129"))).unwrap();
    assert_eq!((range.first, range.last), (47110, 47129));
    assert_eq!(
        uplink_line(cfg.uplink.mode, range, source),
        "caller; SRT port range 47110-47129 comes from Open Live"
    );
    let err = settle_uplink(&cfg, &server(None)).unwrap_err().message();
    assert!(err.contains("Open Live publishes no SRT port range"), "{err}");
    cfg.uplink.port_range = "9".to_string();
    assert!(matches!(settle_uplink(&cfg, &server(None)), Err(HeadlessError::Range(_))));
    cfg.uplink.mode = UplinkMode::Listener;
    cfg.uplink.port_range = "47110-47129".to_string();
    let err = settle_uplink(&cfg, &None).unwrap_err().message();
    assert!(err.contains("listener mode needs"), "{err}");
    cfg.uplink.public_host = some("198.51.100.7");
    assert!(settle_uplink(&cfg, &None).is_ok());
}

#[test]
fn what_checked_out_is_told() {
    let mut cfg = cloud_config();
    cfg.capture.video_resolution = None;
    cfg.capture.video_framerate = some("25/1");
    cfg.video.bitrate_kbps = 6000;
    cfg.uplink.latency_ms = 200;
    assert_eq!(name_line(&cfg), "gateway name Venue A");
    assert_eq!(latency_line(&cfg), "SRT latency 200 ms");
    assert_eq!(capture_line(&cfg), "resolution auto, framerate 25/1, 6000 kbps");
    assert_eq!(
        credential_line(&some("pat"), &some("env")),
        "Open Source Cloud credential from the settings (a personal access token)"
    );
    assert_eq!(
        credential_line(&None, &some("env")),
        "Open Source Cloud credential from OSC_ACCESS_TOKEN"
    );
    assert_eq!(
        credential_line(&None, &None),
        "Open Source Cloud credential from the OSC CLI login"
    );
    assert_eq!(
        published_line(&server(Some("47110-47129"))).as_deref(),
        Some("its Strom takes SRT on ports 47110-47129, which callers use")
    );
    assert_eq!(published_line(&server(None)), None);
    assert_eq!(
        idle_strom_line("http://127.0.0.1:8080", "refused", "/usr/local/bin/strom"),
        "nothing listening at http://127.0.0.1:8080 (refused); up will start /usr/local/bin/strom"
    );
    assert_eq!(
        greeted_line("gw-1"),
        "Open Live greets gateway gw-1; status will be pushed to it"
    );
    let range = PortRange {
        first: 1,
        last: 2,
    };
    assert_eq!(
        uplink_line(UplinkMode::Listener, range, PortSource::Settings),
        "listener; SRT port range 1-2 comes from the settings"
    );
}

/// The claims stand between the two dots: {"exp":1700000000,"team":"Åsa"}.
#[test]
fn a_token_says_when_it_expires() {
    let token = "eyJhbGciOiJub25lIn0.eyJleHAiOjE3MDAwMDAwMDAsInRlYW0iOiLDhXNhIn0.c2ln";
    let info = inspect(token, "team").unwrap();
    assert_eq!(info.expires_at, Some(1_700_000_000));
    assert_eq!(info.workspace.as_deref(), Some("Åsa"));
    assert_eq!(inspect(token, "exp").unwrap().workspace, None, "a workspace is a text");
    assert_eq!(inspect(token, "other").unwrap().workspace, None);
    assert!(inspect("a-personal-token", "team").is_none());
    assert!(inspect("a.!!.c", "team").is_none());
    assert!(inspect("a.bm90IGpzb24.c", "team").is_none());
    assert_eq!(inspect("a.e30.c", "team").unwrap().expires_at, None);
}
