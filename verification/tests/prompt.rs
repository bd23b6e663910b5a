use open_live_ingest::gateway::config::{GatewayConfig, UplinkMode};
use open_live_ingest::gateway::prompt::{
    accept, accept_number, choice_hint, choice_label, default_name, infer_auth_mode, needs_setup,
    next_step, on_bitrate, on_credential, on_direction, on_latency, on_name, on_public_host,
    on_strom_key, on_url, prompt, refusal, say_open_live, say_strom, start_setup, Step,
};
use open_live_ingest::setup::Start;
use open_live_ingest::strom::Reachability;

#[test]
fn an_osaas_address_implies_the_token_exchange() {
    assert_eq!(
        infer_auth_mode("https://ludde-prodda.eyevinn-open-live.auto.prod-se.osaas.io"),
        "osc"
    );
    assert_eq!(infer_auth_mode("https://open-live.osaas.io/"), "osc");
}

#[test]
fn anything_else_takes_a_static_key() {
    assert_eq!(infer_auth_mode("http://127.0.0.1:3000"), "direct");
    assert_eq!(infer_auth_mode("https://open-live.example.com"), "direct");
    assert_eq!(infer_auth_mode("http://localhost:3000/api"), "direct");
}

/// A hostname that merely mentions osaas must not trigger the exchange: only the real
/// domain does, or a self-hosted instance would be asked for the wrong thing.
#[test]
fn a_lookalike_hostname_is_not_treated_as_osc() {
    assert_eq!(infer_auth_mode("https://osaas.io.example.com"), "direct");
    assert_eq!(infer_auth_mode("https://myosaas.iohost.net"), "direct");
}

#[test]
fn the_address_is_read_whatever_its_case() {
    assert_eq!(infer_auth_mode("https://Open-Live.OSAAS.IO"), "osc");
}

#[test]
fn a_config_missing_the_open_live_url_needs_setup() {
    let mut cfg = GatewayConfig::default();
    cfg.gateway.name = "Venue".to_string();
    assert!(needs_setup(&cfg));
}

#[test]
fn an_osc_config_without_a_token_needs_setup() {
    let mut cfg = GatewayConfig::default();
    cfg.gateway.name = "Venue".to_string();
    cfg.open_live.url = Some("https://open-live.example.com".to_string());
    cfg.open_live.auth_mode = "osc".to_string();
    assert!(
        needs_setup(&cfg),
        "an OSC deployment cannot work without a PAT"
    );
}

/// A self-hosted Open Live can leave API_KEY unset, so `direct` mode with no credential
/// is complete and must not re-prompt on every run.
#[test]
fn a_direct_config_without_a_key_is_complete() {
    let mut cfg = GatewayConfig::default();
    cfg.gateway.name = "Venue".to_string();
    cfg.open_live.url = Some("http://127.0.0.1:3000".to_string());
    cfg.open_live.auth_mode = "direct".to_string();
    assert!(!needs_setup(&cfg));
}

/// Registration off means no Open Live settings are needed at all: a gateway streaming
/// to a Strom without registering is a legitimate setup.
#[test]
fn registration_off_needs_nothing_from_open_live() {
    let mut cfg = GatewayConfig::default();
    cfg.gateway.name = "Nuc1".to_string();
    cfg.open_live.register = false;
    cfg.open_live.url = None;
    cfg.open_live.api_key = None;
    assert!(!needs_setup(&cfg));
}

#[test]
fn an_unnamed_gateway_needs_setup() {
    let mut cfg = GatewayConfig::default();
    cfg.open_live.url = Some("http://127.0.0.1:3000".to_string());
    cfg.open_live.auth_mode = "direct".to_string();
    cfg.gateway.name = "   ".to_string();
    assert!(needs_setup(&cfg));
}

#[test]
fn setup_asks_only_where_there_is_a_terminal() {
    let mut cfg = GatewayConfig::default();
    assert!(matches!(start_setup(&cfg, false, true), Start::Ask));
    assert!(matches!(start_setup(&cfg, false, false), Start::Refuse));
    cfg.gateway.name = "n".to_string();
    cfg.open_live.register = false;
    assert!(matches!(start_setup(&cfg, false, false), Start::Skip));
    assert!(matches!(start_setup(&cfg, true, true), Start::Ask));
    assert!(refusal().contains("no terminal to ask on"));
}

#[test]
fn enter_accepts_the_value_in_brackets() {
    assert_eq!(prompt("Name", "x"), "Name (x): ");
    assert_eq!(prompt("Name", ""), "Name: ");
    assert_eq!(accept("  \n", "x"), "x");
    assert_eq!(accept(" y \n", "x"), "y");
    assert_eq!(accept_number("\n", 5), Some(5));
    assert_eq!(accept_number("7", 5), Some(7));
    assert_eq!(accept_number("lots", 5), None);
    assert_eq!(accept_number("4294967296", 5), None);
    let options = vec!["a".to_string(), "b".to_string()];
    assert_eq!(choice_label("Which", &options), "Which [a/b]");
    assert_eq!(choice_hint(&options), "  please answer one of: a, b");
}

#[test]
fn answers_land_where_they_belong() {
    let mut cfg = GatewayConfig::default();
    assert_eq!(default_name(&cfg, Some("box".to_string())), "box");
    assert_eq!(default_name(&cfg, None), "gateway");
    on_name(&mut cfg, "\n", "box");
    assert_eq!(cfg.gateway.name, "box");
    assert_eq!(default_name(&cfg, None), "box");
    on_url(&mut cfg, "https://x.osaas.io\n");
    assert_eq!(cfg.open_live.url.as_deref(), Some("https://x.osaas.io"));
    assert_eq!(cfg.open_live.auth_mode, "osc");
    on_credential(&mut cfg, " k ");
    assert_eq!(cfg.open_live.api_key.as_deref(), Some("k"));
    on_credential(&mut cfg, "  ");
    assert_eq!(cfg.open_live.api_key.as_deref(), Some("k"), "blank keeps the stored one");
    on_strom_key(&mut cfg, "  ");
    assert_eq!(cfg.strom.api_key, None);
    assert!(on_direction(&mut cfg, "listener"));
    assert_eq!(cfg.app.uplink.mode, UplinkMode::Listener);
    assert!(!on_direction(&mut cfg, "sideways"));
    assert_eq!(cfg.app.uplink.mode, UplinkMode::Listener);
    on_public_host(&mut cfg, "venue");
    assert_eq!(cfg.app.uplink.public_host.as_deref(), Some("venue"));
    assert!(on_latency(&mut cfg, "120"));
    assert_eq!(cfg.app.uplink.latency_ms, 120);
    assert!(!on_bitrate(&mut cfg, "fast"));
    assert_eq!(cfg.app.video.bitrate_kbps, 6000);
}

#[test]
fn the_questions_come_in_order_and_end() {
    let walk = |wants_key: bool, mode: UplinkMode| {
        let mut step = Step::Name;
        let mut seen = vec![step];
        while step != Step::Done {
            step = next_step(step, wants_key, mode);
            seen.push(step);
        }
        seen
    };
    let short = walk(false, UplinkMode::Caller);
    assert!(!short.contains(&Step::StromKey) && !short.contains(&Step::PublicHost));
    assert_eq!(short.len(), 11);
    assert_eq!(walk(true, UplinkMode::Rendezvous).len(), 13);
}

#[test]
fn what_was_reached_is_said_at_once() {
    assert_eq!(
        say_strom(&Reachability::Reachable { video_sources: 2 }, false),
        "  reached Strom; it can see 2 video source(s)"
    );
    assert_eq!(
        say_strom(&Reachability::NeedsCredential, true),
        "  Strom still refuses that credential"
    );
    assert_eq!(
        say_strom(&Reachability::Unreachable("gone".to_string()), false),
        "  could not reach Strom: gone"
    );
    assert_eq!(
        say_open_live(&Ok(Some("h".to_string())), false),
        vec!["  reached Open Live; its Strom is h", "  feeds will be sent there"]
    );
    assert_eq!(
        say_open_live(&Ok(Some("h".to_string())), true),
        vec!["  reached Open Live; its Strom is h"]
    );
    assert_eq!(
        say_open_live(&Ok(None), false),
        vec!["  reached Open Live, but it did not report a Strom host"]
    );
    assert_eq!(
        say_open_live(&Err("401".to_string()), false),
        vec!["  could not reach Open Live: 401"]
    );
}
