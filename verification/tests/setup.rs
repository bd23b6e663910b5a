use open_live_ingest::config::{AuthMode, Config, OpenLive, UplinkMode};
use open_live_ingest::osc::TokenInfo;
use open_live_ingest::setup::{
    auth_default, blank_to_none, default_name, describe_token, hosting_default, infer_auth_mode,
    instance_default, instance_picked, needs_setup, on_auth_pick, on_login_read, on_login_run,
    on_secret, secret_label, start_setup, Answers, AuthStep, Dialogue, Start, Tone, PICK_ENV,
    PICK_LOGIN, PICK_PASTE,
};

#[test]
fn an_osaas_address_implies_the_token_exchange_and_lookalikes_do_not() {
    assert_eq!(
        infer_auth_mode("https://venue.eyevinn-open-live.auto.prod-se.osaas.io"),
        AuthMode::Osc
    );
    assert_eq!(infer_auth_mode("https://osaas.io/"), AuthMode::Osc);
    assert_eq!(infer_auth_mode("https://Open-Live.OSAAS.IO/"), AuthMode::Osc);
    assert_eq!(infer_auth_mode("http://127.0.0.1:3000"), AuthMode::Direct);
    assert_eq!(infer_auth_mode("https://open-live.example.com"), AuthMode::Direct);
    assert_eq!(infer_auth_mode("https://osaas.io.example.com"), AuthMode::Direct);
    assert_eq!(infer_auth_mode("https://myosaas.iohost.net"), AuthMode::Direct);
}

fn named() -> Config {
    let mut cfg = Config::default();
    cfg.gateway.name = "Venue".to_string();
    cfg
}

#[test]
fn setup_is_needed_for_a_missing_name_url_or_osc_token() {
    let mut cfg = named();
    cfg.gateway.name = "   ".to_string();
    assert!(needs_setup(&cfg, false));

    let cfg = named();
    assert!(needs_setup(&cfg, false), "no Open Live URL");

    let mut cfg = named();
    cfg.open_live.url = Some("https://x.osaas.io".to_string());
    cfg.open_live.auth_mode = AuthMode::Osc;
    assert!(
        needs_setup(&cfg, false),
        "an OSC deployment cannot work without a token"
    );
    assert!(
        !needs_setup(&cfg, true),
        "the OSC CLI's login stands in for a token"
    );
}

/// A self-hosted Open Live can leave API_KEY unset, and registration off needs nothing
/// from Open Live at all, so neither may re-prompt on every run.
#[test]
fn setup_is_not_needed_for_a_complete_config() {
    let mut cfg = named();
    cfg.open_live.url = Some("http://127.0.0.1:3000".to_string());
    assert!(!needs_setup(&cfg, false));

    let mut cfg = named();
    cfg.open_live.register = false;
    assert!(!needs_setup(&cfg, false));
}

#[test]
fn setup_runs_where_something_is_missing_and_there_is_a_terminal() {
    let mut complete = named();
    complete.open_live.register = false;
    assert_eq!(start_setup(&complete, false, false, false), Start::Skip);
    assert_eq!(start_setup(&complete, true, false, true), Start::Ask);
    assert_eq!(start_setup(&named(), false, false, true), Start::Ask);
    assert_eq!(start_setup(&named(), false, false, false), Start::Refuse);
}

#[test]
fn answers_given_as_flags_overlay_the_settings() {
    let mut cfg = named();
    Answers {
        non_interactive: true,
        name: None,
        open_live_url: Some("https://x.osaas.io".to_string()),
        uplink_mode: Some(UplinkMode::Listener),
        public_host: Some("198.51.100.7".to_string()),
        port_range: None,
        gateway_id: Some("gw-1".to_string()),
    }
    .apply(&mut cfg);
    assert_eq!(cfg.gateway.name, "Venue");
    assert_eq!(cfg.open_live.auth_mode, AuthMode::Osc);
    assert_eq!(cfg.uplink.mode, UplinkMode::Listener);
    assert_eq!(cfg.uplink.public_host.as_deref(), Some("198.51.100.7"));
    assert_eq!(cfg.uplink.port_range, "47110-47129");
    assert_eq!(cfg.open_live.gateway_id.as_deref(), Some("gw-1"));
}

/// A token from the environment or a login keeps the secret out of the settings, so a
/// stored one is dropped.
#[test]
fn the_way_in_decides_what_is_stored() {
    assert_eq!(auth_default(true, true), PICK_ENV);
    assert_eq!(auth_default(false, true), PICK_PASTE);
    assert_eq!(auth_default(false, false), PICK_LOGIN);
    let stored = || OpenLive {
        api_key: Some("old".to_string()),
        ..OpenLive::default()
    };

    let mut ol = stored();
    let (step, said) = on_auth_pick(&mut ol, PICK_ENV, Some("env-token".to_string()), false);
    assert!(matches!(step, AuthStep::Token { is_login: false, .. }));
    assert!(said.is_none());
    assert_eq!(ol.api_key, None);

    let mut ol = stored();
    let (step, said) = on_auth_pick(&mut ol, PICK_ENV, None, false);
    assert!(matches!(step, AuthStep::Again));
    assert_eq!(said.unwrap().tone, Tone::Warn);
    assert_eq!(ol.api_key.as_deref(), Some("old"));

    assert!(matches!(
        on_auth_pick(&mut ol, PICK_LOGIN, None, true).0,
        AuthStep::ReadLogin
    ));
    assert!(matches!(
        on_auth_pick(&mut ol, PICK_LOGIN, None, false).0,
        AuthStep::RunLogin
    ));
    assert!(matches!(
        on_auth_pick(&mut ol, PICK_PASTE, None, false).0,
        AuthStep::AskSecret
    ));
    assert!(matches!(on_login_run(None).0, AuthStep::ReadLogin));
    assert!(matches!(on_login_run(Some("x".to_string())).0, AuthStep::Again));
    let (step, said) = on_login_read(&mut ol, Some("login".to_string()), true);
    assert!(matches!(step, AuthStep::Token { is_login: true, .. }));
    assert_eq!(said.unwrap().tone, Tone::Warn);
    assert_eq!(ol.api_key, None);
    assert!(matches!(on_login_read(&mut ol, None, false).0, AuthStep::Again));

    let mut ol = stored();
    assert!(matches!(on_secret(&mut ol, "  "), AuthStep::Token { .. }));
    assert_eq!(ol.api_key.as_deref(), Some("old"));
    assert!(matches!(on_secret(&mut ol, " new "), AuthStep::Token { .. }));
    assert_eq!(ol.api_key.as_deref(), Some("new"));
    assert!(matches!(on_secret(&mut OpenLive::default(), ""), AuthStep::Again));
    assert!(secret_label(true).contains("keeps the stored one"));
    assert_eq!(secret_label(false), "Personal access token");
}

#[test]
fn a_token_is_described_by_its_workspace_and_time_left() {
    let info = TokenInfo {
        workspace: Some("venue".to_string()),
        expires_at: Some(1000 + 59 * 60),
    };
    let said = describe_token(&info, true, 1000);
    assert_eq!(said[0].text, "workspace venue, token valid for another 59 minute(s)");
    assert_eq!(said[1].tone, Tone::Warn);
    assert!(describe_token(
        &TokenInfo {
            workspace: None,
            expires_at: None
        },
        false,
        0
    )
    .is_empty());
}

#[test]
fn defaults_are_offered_from_what_is_there() {
    let urls = vec!["https://a".to_string(), "https://b".to_string()];
    assert_eq!(instance_default(&urls, &Some("https://b".to_string())), 1);
    assert_eq!(instance_default(&urls, &None), 0);
    assert_eq!(instance_picked(&urls, 1).as_deref(), Some("https://b"));
    assert_eq!(instance_picked(&urls, 2), None);
    assert_eq!(default_name(&named(), Some("box".to_string())), "Venue");
    assert_eq!(default_name(&Config::default(), Some("box".to_string())), "box");
    let mut hosted = named();
    assert_eq!(hosting_default(&hosted), 0);
    hosted.open_live.url = Some("http://127.0.0.1:3000".to_string());
    assert_eq!(hosting_default(&hosted), 1);
    assert_eq!(blank_to_none("  "), None);
    assert_eq!(blank_to_none(" x ").as_deref(), Some("x"));
}

#[test]
fn a_dialogue_starts_with_the_name() {
    let mut d = Dialogue::new(Config::default());
    d.on_name("Venue B");
    assert_eq!(d.cfg.gateway.name, "Venue B");
}
