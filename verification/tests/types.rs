use open_live_ingest::gateway::config::{UplinkConfig, UplinkMode};
use open_live_ingest::gateway::status::InputState;

fn uplink(mode: UplinkMode) -> UplinkConfig {
    UplinkConfig {
        mode,
        host: "strom.example.com".to_string(),
        public_host: Some("venue.example.com".to_string()),
        port: 9000,
        latency_ms: 200,
        passphrase: None,
        pbkeylen: None,
        stream_id: None,
    }
}

/// Venue dials out: nothing inbound at the venue, cloud must publish the port.
#[test]
fn caller_mode_has_the_venue_dial_and_the_cloud_bind() {
    let cfg = uplink(UplinkMode::Caller);
    assert_eq!(
        cfg.venue_uri(),
        "srt://strom.example.com:9000?mode=caller&latency=200"
    );
    assert_eq!(cfg.cloud_uri(), "srt://:9000?mode=listener");
}

/// Cloud dials in: nothing inbound in the cloud, venue must publish the port. This is
/// the direction Open Live's own seeded demo sources use.
#[test]
fn listener_mode_has_the_cloud_dial_and_the_venue_bind() {
    let cfg = uplink(UplinkMode::Listener);
    assert_eq!(cfg.venue_uri(), "srt://:9000?mode=listener&latency=200");
    assert_eq!(cfg.cloud_uri(), "srt://venue.example.com:9000?mode=caller");
}

#[test]
fn rendezvous_mode_has_both_ends_dial_each_other() {
    let cfg = uplink(UplinkMode::Rendezvous);
    assert_eq!(
        cfg.venue_uri(),
        "srt://strom.example.com:9000?mode=rendezvous&latency=200"
    );
    assert_eq!(cfg.cloud_uri(), "srt://venue.example.com:9000?mode=rendezvous");
}

/// The venue's own address must never appear in the caller-mode cloud address: there
/// the cloud only binds a port.
#[test]
fn caller_mode_cloud_uri_stays_hostless() {
    let uri = uplink(UplinkMode::Caller).cloud_uri();
    assert!(!uri.contains("venue.example.com"));
    assert!(!uri.contains("strom.example.com"));
}

#[test]
fn both_uris_carry_the_passphrase_so_the_ends_agree() {
    let mut cfg = uplink(UplinkMode::Caller);
    cfg.passphrase = Some("s3cret".to_string());
    cfg.pbkeylen = Some(16);

    assert!(cfg.venue_uri().contains("passphrase=s3cret&pbkeylen=16"));
    assert!(cfg.cloud_uri().contains("passphrase=s3cret&pbkeylen=16"));
}

#[test]
fn an_empty_passphrase_is_not_sent() {
    let mut cfg = uplink(UplinkMode::Caller);
    cfg.passphrase = Some(String::new());

    assert!(!cfg.venue_uri().contains("passphrase"));
    assert!(!cfg.cloud_uri().contains("passphrase"));
}

/// `streamid` is a caller-side selector, so it belongs on whichever URI dials.
#[test]
fn stream_id_applies_to_the_venue_uri_only() {
    let mut cfg = uplink(UplinkMode::Caller);
    cfg.stream_id = Some("cam1".to_string());

    assert!(cfg.venue_uri().contains("streamid=cam1"));
    assert!(!cfg.cloud_uri().contains("streamid"));
}

#[test]
fn uplink_mode_defaults_to_caller() {
    assert_eq!(UplinkMode::default(), UplinkMode::Caller);
}

#[test]
fn only_a_delivering_input_can_be_assigned_and_a_lost_one_stays_active() {
    assert!(InputState::Running.is_active() && InputState::Running.is_deliverable());
    assert!(InputState::Unknown.is_active() && !InputState::Unknown.is_deliverable());
    for state in [
        InputState::Idle,
        InputState::Provisioning,
        InputState::Starting,
        InputState::Stalled,
        InputState::Failed,
    ] {
        assert!(!state.is_active() && !state.is_deliverable(), "{state:?}");
    }
}
