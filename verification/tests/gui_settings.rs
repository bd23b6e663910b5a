use open_live_ingest::gateway::config::{GatewayConfig, GatewayIdentity, UplinkMode};
use open_live_ingest::gui::settings::Form;

fn base() -> GatewayConfig {
    GatewayConfig {
        gateway: GatewayIdentity {
            id: None,
            name: "Venue".to_string(),
        },
        ..GatewayConfig::default()
    }
}

/// A round trip must not silently change anything, or opening the settings and pressing
/// Save would rewrite an operator's config.
#[test]
fn a_round_trip_preserves_the_config() {
    let mut cfg = base();
    cfg.open_live.url = Some("https://open-live.example.com".to_string());
    cfg.open_live.api_key = Some("secret".to_string());
    cfg.app.uplink.port_range = "9500-9600".to_string();
    cfg.app.video.bitrate_kbps = 8000;

    let out = Form::from_config(&cfg).to_config(&cfg).expect("valid");

    assert_eq!(out.open_live.url, cfg.open_live.url);
    assert_eq!(out.open_live.api_key, cfg.open_live.api_key);
    assert_eq!(out.app.uplink.port_range, "9500-9600");
    assert_eq!(out.app.video.bitrate_kbps, 8000);
    assert_eq!(out.strom.url, cfg.strom.url);
}

/// Blank means "not set", not an empty string that later fails a URL parse.
#[test]
fn blank_fields_become_none() {
    let cfg = base();
    let mut form = Form::from_config(&cfg);
    form.open_live_url = "   ".to_string();
    form.cloud_host = "".to_string();

    let out = form.to_config(&cfg).expect("valid");
    assert!(out.open_live.url.is_none());
    assert!(out.app.uplink.host.is_none(), "blank means discover it");
}

#[test]
fn a_bad_port_range_is_reported_before_saving() {
    let cfg = base();
    let mut form = Form::from_config(&cfg);
    form.port_range = "9100-9000".to_string();
    assert!(form.to_config(&cfg).unwrap_err().contains("Port range"));
}

#[test]
fn a_non_numeric_bitrate_is_reported() {
    let cfg = base();
    let mut form = Form::from_config(&cfg);
    form.bitrate_kbps = "lots".to_string();
    assert!(form.to_config(&cfg).unwrap_err().contains("Bitrate"));
}

/// Catch it at Save, not at the next Start, where the cause would be far away.
#[test]
fn cloud_dialling_modes_need_a_public_host_at_save_time() {
    let cfg = base();
    let mut form = Form::from_config(&cfg);
    form.uplink_mode = UplinkMode::Listener;
    form.public_host = String::new();
    assert!(form.to_config(&cfg).is_err());

    form.public_host = "venue.example.com".to_string();
    assert!(form.to_config(&cfg).is_ok());
}

#[test]
fn an_empty_name_is_rejected() {
    let cfg = base();
    let mut form = Form::from_config(&cfg);
    form.gateway_name = "  ".to_string();
    assert!(form.to_config(&cfg).unwrap_err().contains("Name"));
}

/// Declared inputs belong to the headless daemon and are not shown in the form, so
/// saving from the app must not delete them.
#[test]
fn saving_keeps_settings_the_form_does_not_show() {
    let mut cfg = base();
    cfg.log.level = "debug".to_string();
    cfg.control.token = Some("keep-me".to_string());

    let out = Form::from_config(&cfg).to_config(&cfg).expect("valid");
    assert_eq!(out.log.level, "debug");
    assert_eq!(out.control.token.as_deref(), Some("keep-me"));
}

#[test]
fn a_non_numeric_latency_is_reported() {
    let cfg = base();
    let mut form = Form::from_config(&cfg);
    form.latency_ms = "soon".to_string();
    assert!(form.to_config(&cfg).unwrap_err().contains("atency"));
}
