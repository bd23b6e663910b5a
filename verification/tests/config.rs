use open_live_ingest::config::{
    check_framerate, check_http_url, default_path, format_port_range, join_path, mask_passphrase,
    parse_port_range, parse_resolution, pidfile, strom_pidfile, user_dir, validate, validate_with,
    with_env_overrides, AuthMode, Config, Fault, Gateway, Overrides, Places, PortRange, Uplink,
    UplinkMode,
};

fn uplink(mode: UplinkMode) -> Uplink {
    Uplink {
        mode,
        public_host: Some("venue.example.com".to_string()),
        ..Uplink::default()
    }
}

/// Venue dials out: nothing inbound at the venue, the cloud publishes the port.
#[test]
fn config_caller_mode_has_the_venue_dial_and_the_cloud_bind() {
    let e = uplink(UplinkMode::Caller).endpoint("strom.example.com", 9000);
    assert_eq!(e.venue_uri(), "srt://strom.example.com:9000?mode=caller&latency=200");
    assert_eq!(e.cloud_uri(), "srt://:9000?mode=listener");
}

/// Cloud dials in: the direction Open Live's own seeded demo sources use.
#[test]
fn config_listener_mode_has_the_cloud_dial_and_the_venue_bind() {
    let e = uplink(UplinkMode::Listener).endpoint("strom.example.com", 9000);
    assert_eq!(e.venue_uri(), "srt://:9000?mode=listener&latency=200");
    assert_eq!(e.cloud_uri(), "srt://venue.example.com:9000?mode=caller");
}

#[test]
fn config_both_uris_carry_the_passphrase_so_the_ends_agree() {
    let mut u = uplink(UplinkMode::Caller);
    u.passphrase = Some("s3cret-s3cret".to_string());
    u.pbkeylen = Some(16);
    let e = u.endpoint("strom.example.com", 9000);
    assert!(e.venue_uri().ends_with("&passphrase=s3cret-s3cret&pbkeylen=16"));
    assert!(e.cloud_uri().ends_with("&passphrase=s3cret-s3cret&pbkeylen=16"));
}

#[test]
fn config_an_empty_passphrase_is_not_sent() {
    let mut u = uplink(UplinkMode::Caller);
    u.passphrase = Some(String::new());
    let e = u.endpoint("h", 9000);
    assert!(!e.venue_uri().contains("passphrase"));
    assert!(!e.cloud_uri().contains("passphrase"));
}

#[test]
fn masking_covers_the_value_and_nothing_else() {
    assert_eq!(
        mask_passphrase("srt://:9000?mode=listener&passphrase=abc&pbkeylen=16"),
        "srt://:9000?mode=listener&passphrase=***&pbkeylen=16"
    );
    assert_eq!(mask_passphrase("srt://:9000?passphrase=abc"), "srt://:9000?passphrase=***");
    assert_eq!(mask_passphrase("srt://:9000?mode=listener"), "srt://:9000?mode=listener");
}

/// Masking a masked address changes nothing, and two secrets mask alike.
#[test]
fn masking_is_idempotent_and_hides_which_secret_it_was() {
    let a = mask_passphrase("srt://:9000?mode=listener&passphrase=abc&pbkeylen=16");
    let b = mask_passphrase("srt://:9000?mode=listener&passphrase=another-one&pbkeylen=16");
    assert_eq!(a, b);
    assert_eq!(mask_passphrase(&a), a);
}

fn valid() -> Config {
    let mut cfg = Config::default();
    cfg.gateway.name = "Venue A".to_string();
    cfg.open_live.url = Some("https://open-live.example.com".to_string());
    cfg
}

fn check(cfg: &Config) -> Result<(), Fault> {
    validate(cfg, &None).map_err(|e| e.fault)
}

#[test]
fn the_defaults_plus_an_open_live_url_validate() {
    validate(&valid(), &None).expect("should validate");
}

#[test]
fn registration_requires_a_url_but_direct_mode_needs_no_key() {
    let mut cfg = valid();
    cfg.open_live.url = None;
    assert!(check(&cfg).is_err());
    cfg.open_live.register = false;
    check(&cfg).expect("registration off needs no url");
}

/// OSC's proxy always wants a credential, and failing at startup beats every request
/// answering 401. The OSC CLI's login counts as one.
#[test]
fn osc_mode_requires_a_token_or_an_osc_cli_login() {
    let mut cfg = valid();
    cfg.open_live.auth_mode = AuthMode::Osc;
    assert!(validate_with(&cfg, false).is_err());
    validate_with(&cfg, true).expect("osc with a CLI login should validate");
    cfg.open_live.api_key = Some("pat".to_string());
    validate_with(&cfg, false).expect("osc with a token should validate");
}

/// The cloud cannot dial a venue whose address it does not know.
#[test]
fn listener_mode_requires_a_public_host() {
    let mut cfg = valid();
    cfg.uplink.mode = UplinkMode::Listener;
    assert!(check(&cfg).is_err());
    cfg.uplink.public_host = Some("venue.example.com".to_string());
    check(&cfg).expect("with a public host it should validate");
}

/// libsrt rejects short passphrases at runtime with an opaque error, and a `&` inside
/// one would split the URI.
#[test]
fn passphrases_are_checked_for_length_and_characters() {
    let mut cfg = valid();
    cfg.uplink.passphrase = Some("short".to_string());
    assert!(check(&cfg).is_err());
    cfg.uplink.passphrase = Some("long-enough&bad".to_string());
    assert!(check(&cfg).is_err());
    cfg.uplink.passphrase = Some("long-enough-fine".to_string());
    check(&cfg).expect("a plain passphrase should validate");
    cfg.uplink.pbkeylen = Some(20);
    assert!(check(&cfg).is_err());
}

#[test]
fn capture_format_strings_are_checked() {
    let mut cfg = valid();
    cfg.capture.video_resolution = Some("1080p".to_string());
    assert!(check(&cfg).is_err());
    cfg.capture.video_resolution = Some("1920x1080".to_string());
    cfg.capture.video_framerate = Some("25".to_string());
    assert!(check(&cfg).is_err());
    cfg.capture.video_framerate = Some("25/1".to_string());
    check(&cfg).expect("a well-formed format should validate");
}

#[test]
fn malformed_port_ranges_are_rejected() {
    for bad in ["9000", "9100-9000", "", "abc-def", "0-10"] {
        let u = Uplink {
            port_range: bad.to_string(),
            ..Uplink::default()
        };
        assert!(u.ports().is_err(), "{bad:?} should be rejected");
    }
    assert_eq!(
        Uplink::default().ports().unwrap(),
        PortRange { first: 47110, last: 47129 }
    );
}

#[test]
fn each_trouble_with_a_port_range_is_told_apart() {
    let fault = |text: &str| parse_port_range(text).unwrap_err().fault;
    assert_eq!(fault("9000"), Fault::PortRangeShape);
    assert_eq!(fault("x-9000"), Fault::FirstPort);
    assert_eq!(fault("9000-x"), Fault::LastPort);
    assert_eq!(fault("9001-9000"), Fault::EmptyPortRange);
    assert_eq!(fault("0-9000"), Fault::EmptyPortRange);
    assert_eq!(fault("9000-65536"), Fault::LastPort);
    let range = parse_port_range(" 9000 - 9010 ").unwrap();
    assert_eq!(format_port_range(&range), "9000-9010");
    assert!(range.contains(9010));
    assert!(!range.contains(9011));
}

#[test]
fn a_scheme_less_strom_url_is_rejected() {
    let mut cfg = valid();
    cfg.strom.url = "127.0.0.1:8080".to_string();
    assert!(check(&cfg).is_err());
}

#[test]
fn formats_and_addresses_are_read_exactly() {
    assert_eq!(parse_resolution("1920x1080").unwrap(), (1920, 1080));
    assert_eq!(parse_resolution(" 1280 X 720 ").unwrap(), (1280, 720));
    assert_eq!(parse_resolution("1080p").unwrap_err().fault, Fault::ResolutionShape);
    assert_eq!(parse_resolution("ax1").unwrap_err().fault, Fault::Width);
    assert_eq!(parse_resolution("1xa").unwrap_err().fault, Fault::Height);
    assert!(check_framerate("25/1"));
    assert!(!check_framerate("25"));
    assert!(check_http_url("http://x"));
    assert!(check_http_url("https://x"));
    assert!(!check_http_url("ws://x"));
}

/// A malformed value is quoted in the message, so that blanks in it show.
#[test]
fn a_message_quotes_the_value() {
    let e = parse_resolution("1080 p\n").unwrap_err();
    assert!(e.message().contains("\"1080 p\\n\""), "{}", e.message());
}

#[test]
fn the_environment_wins_over_the_file() {
    let mut cfg = valid();
    cfg.strom.api_key = Some("from-file".to_string());
    let env = Overrides {
        open_live_url: Some("https://other.example.com".to_string()),
        open_live_api_key: None,
        open_live_auth_mode: Some("osc".to_string()),
        open_live_gateway_token: Some("token".to_string()),
        strom_url: None,
        strom_api_key: Some("from-env".to_string()),
    };
    let cfg = with_env_overrides(cfg, env).unwrap();
    assert_eq!(cfg.open_live.url.as_deref(), Some("https://other.example.com"));
    assert_eq!(cfg.open_live.auth_mode, AuthMode::Osc);
    assert_eq!(cfg.open_live.gateway_token.as_deref(), Some("token"));
    assert_eq!(cfg.strom.url, "http://127.0.0.1:8080");
    assert_eq!(cfg.strom.api_key.as_deref(), Some("from-env"));
}

#[test]
fn an_auth_mode_that_does_not_exist_is_refused() {
    assert_eq!(AuthMode::from_str("direct").unwrap(), AuthMode::Direct);
    assert_eq!(AuthMode::from_str("osc").unwrap(), AuthMode::Osc);
    assert!(AuthMode::from_str("oauth").is_err());
}

#[test]
fn the_identity_is_configured_or_taken_from_the_machine() {
    let mut gateway = Gateway::default();
    assert_eq!(gateway.resolved_id_on(Some("box".to_string())), "box");
    assert_eq!(gateway.resolved_id_on(None), "open-live-gateway");
    assert!(!gateway.resolved_id().is_empty());
    gateway.id = Some("  venue-a ".to_string());
    assert_eq!(gateway.resolved_id_on(Some("box".to_string())), "venue-a");
    assert_eq!(gateway.resolved_id(), "venue-a");
}

#[test]
fn settings_and_pidfiles_live_below_the_users_directory() {
    let places = Places {
        macos: false,
        home: Some("/home/op".to_string()),
        xdg_config_home: None,
    };
    assert_eq!(user_dir(&places), "/home/op/.config/open-live-ingest");
    assert_eq!(default_path(&places), "/home/op/.config/open-live-ingest/gateway.toml");
    assert!(pidfile(&places).starts_with("/home/op/.config/open-live-ingest/"));
    assert!(strom_pidfile(&places).starts_with("/home/op/.config/open-live-ingest/"));
    assert_ne!(pidfile(&places), strom_pidfile(&places));
    assert_eq!(join_path("/a/", "b"), "/a/b");
    assert_eq!(join_path("/a", "b"), "/a/b");
}
