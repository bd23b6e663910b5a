use open_live_ingest::config::OpenLive;
use open_live_ingest::documents::{frame, offline_frame};
use open_live_ingest::heartbeat::{
    after_greeting, as_greeting, asked_interval, backoff, civil_from_days, classify,
    classify_text, iso8601, socket_url, while_connected, Ending, FlowState, Greeting, Inbound,
    InputStatus, Message, Pusher, Snapshot, Target, TargetError, Uplink, CLOSE_UNAUTHORIZED,
    DEFAULT_INTERVAL, MAX_BACKOFF_SECS, MAX_INTERVAL, MIN_INTERVAL,
};
use open_live_ingest::json::{Json, Number};

fn open_live(url: Option<&str>, id: Option<&str>, token: Option<&str>) -> OpenLive {
    OpenLive {
        url: url.map(str::to_string),
        gateway_id: id.map(str::to_string),
        gateway_token: token.map(str::to_string),
        ..OpenLive::default()
    }
}

#[test]
fn the_heartbeat_is_off_without_a_gateway_and_refuses_half_a_credential() {
    let none = open_live(Some("https://open-live.example.com"), None, None);
    assert!(Target::from_config(&none).unwrap().is_none());

    let both = open_live(
        Some("https://open-live.example.com/"),
        Some("gw-1"),
        Some("olgw_v1_secret"),
    );
    let target = Target::from_config(&both).unwrap().expect("configured");
    assert_eq!(target.gateway_id, "gw-1");
    assert_eq!(
        target.socket_url,
        "wss://open-live.example.com/ws/gateways/gw-1/heartbeat"
    );

    let err = Target::from_config(&open_live(Some("https://x"), Some("gw-1"), None))
        .err()
        .unwrap()
        .message();
    assert!(err.contains("OLI_OPEN_LIVE_GATEWAY_TOKEN"), "{err}");
    let err = Target::from_config(&open_live(Some("https://x"), None, Some("t")))
        .err()
        .unwrap()
        .message();
    assert!(err.contains("gateway_id"), "{err}");
    assert!(Target::from_config(&open_live(None, Some("gw-1"), Some("t"))).is_err());
}

#[test]
fn the_target_masks_its_token_when_printed() {
    let target = Target::from_config(&open_live(
        Some("https://open-live.example.com"),
        Some("gw-1"),
        Some("olgw_v1_secret"),
    ))
    .unwrap()
    .unwrap();
    let printed = target.printed();
    assert!(printed.contains("gw-1"), "{printed}");
    assert!(!printed.contains("olgw_v1_secret"), "{printed}");
    assert_eq!(target.authorization(), "Bearer olgw_v1_secret");
    assert!(target.refusal().contains("refused"));
    assert!(!target.refusal().contains("olgw_v1_secret"));
}

/// A plain http Open Live, as in local development, gets a plain ws socket.
#[test]
fn the_socket_address_follows_the_scheme_and_checks_the_id() {
    assert_eq!(
        socket_url("http://127.0.0.1:3000", "gw-1").unwrap(),
        "ws://127.0.0.1:3000/ws/gateways/gw-1/heartbeat"
    );
    assert!(socket_url("open-live.example.com", "gw-1").is_err());
    assert!(socket_url("https://open-live.example.com", "gw/1").is_err());
    assert!(socket_url("https://open-live.example.com", "gw 1").is_err());
}

#[test]
fn each_refused_target_says_what_is_wrong() {
    let err = |cfg: OpenLive| Target::from_config(&cfg).err().unwrap();
    assert!(matches!(
        err(open_live(Some("https://x"), Some("gw-1"), None)),
        TargetError::TokenMissing
    ));
    assert!(matches!(
        err(open_live(Some("https://x"), None, Some("t"))),
        TargetError::IdMissing
    ));
    assert!(matches!(
        err(open_live(None, Some("gw-1"), Some("t"))),
        TargetError::UrlMissing
    ));
    let id = err(open_live(Some("https://x"), Some("gw/1"), Some("t")));
    assert_eq!(
        id.message(),
        "open_live.gateway_id may only contain letters, digits, - and _, got \"gw/1\""
    );
    let url = err(open_live(Some("ftp://x"), Some("gw-1"), Some("t")));
    assert_eq!(
        url.message(),
        "open_live.url must start with http:// or https://, got \"ftp://x\""
    );
}

fn interval_of(text: &str) -> u64 {
    match classify_text(text) {
        Inbound::Hello { interval } => interval,
        other => panic!("not a greeting: {other:?}"),
    }
}

#[test]
fn the_greeting_sets_the_interval_and_a_refusal_is_recognised() {
    assert_eq!(
        interval_of(
            r#"{"type":"HELLO","contractVersion":"1.0.0","gatewayId":"gw-1","heartbeatIntervalSeconds":7,"seq":0,"ts":"t"}"#
        ),
        7_000_000_000
    );
    assert_eq!(interval_of(r#"{"type":"HELLO","seq":0,"ts":"t"}"#), DEFAULT_INTERVAL);
    assert_eq!(
        interval_of(r#"{"type":"HELLO","heartbeatIntervalSeconds":0.1}"#),
        MIN_INTERVAL
    );
    assert_eq!(
        interval_of(r#"{"type":"HELLO","heartbeatIntervalSeconds":3600}"#),
        MAX_INTERVAL
    );
    assert!(matches!(
        classify_text(r#"{"type":"ERROR","code":"unauthorized"}"#),
        Inbound::Unauthorized
    ));
    match classify_text(r#"{"type":"ERROR","code":"invalid_frame"}"#) {
        Inbound::Rejected(code) => assert_eq!(code, "invalid_frame"),
        other => panic!("{other:?}"),
    }
    assert!(matches!(
        classify_text(r#"{"type":"SNAPSHOT_END","seq":1}"#),
        Inbound::Ignore
    ));
    assert!(matches!(classify_text(r#"{"type":"ACK","ackSeq":2}"#), Inbound::Ignore));
    assert!(
        matches!(classify_text(r#"{"type":"START","inputId":"x"}"#), Inbound::Ignore),
        "a command is ignored, not acted on"
    );
    assert!(matches!(classify_text("not json"), Inbound::Ignore));
}

/// The interval is read to the nanosecond, as the seconds were written.
#[test]
fn fractional_intervals_are_exact() {
    for seconds in [1.0f64, 1.5, 2.25, 7.1, 31.4, 59.999_999_999, 60.0] {
        let want = std::time::Duration::from_secs_f64(seconds).as_nanos() as u64;
        assert_eq!(asked_interval(Some(Number::Float(seconds.to_bits()))), want, "{seconds}");
    }
    assert_eq!(asked_interval(Some(Number::PosInt(12))), 12_000_000_000);
    assert_eq!(asked_interval(Some(Number::NegInt(-3))), DEFAULT_INTERVAL);
    assert_eq!(asked_interval(None), DEFAULT_INTERVAL);
}

#[test]
fn a_close_with_open_lives_code_is_a_refusal() {
    assert!(matches!(
        classify(&Message::Close(Some(CLOSE_UNAUTHORIZED))),
        Inbound::Unauthorized
    ));
    assert!(matches!(classify(&Message::Close(Some(1000))), Inbound::Closed));
    assert!(matches!(classify(&Message::Close(None)), Inbound::Closed));
    assert!(matches!(classify(&Message::Other), Inbound::Ignore));
}

#[test]
fn a_connection_waits_for_its_greeting_and_ends_on_a_refusal_or_a_close() {
    let hello = Inbound::Hello { interval: MIN_INTERVAL };
    assert_eq!(
        as_greeting(&hello),
        Some(Greeting::Hello { interval: MIN_INTERVAL })
    );
    assert_eq!(as_greeting(&Inbound::Ignore), None);
    assert_eq!(as_greeting(&Inbound::Rejected("x".into())), None);
    assert_eq!(after_greeting(Greeting::Hello { interval: 5 }).unwrap(), 5);
    assert_eq!(after_greeting(Greeting::Unauthorized), Err(Ending::Unauthorized));
    assert_eq!(
        after_greeting(Greeting::Closed),
        Err(Ending::Dropped { was_connected: false })
    );
    assert_eq!(while_connected(&Inbound::Ignore), None);
    assert_eq!(while_connected(&Inbound::Unauthorized), Some(Ending::Unauthorized));
    assert_eq!(
        while_connected(&Inbound::Closed),
        Some(Ending::Dropped { was_connected: true })
    );
}

fn sample() -> Snapshot {
    Snapshot {
        host: "venue-box".into(),
        strom_version: Some("0.6.8".into()),
        ingest_version: "0.3.0".into(),
        device_count: 2,
        streaming_count: 1,
        inputs: vec![
            InputStatus {
                input_id: "dev-1".into(),
                name: "Venue — Camera 1".into(),
                flow_state: FlowState::Playing,
                source_id: Some("src-1".into()),
                uplink: Some(Uplink {
                    bitrate_kbps: 6200,
                    rtt_ms: 18.0f64.to_bits(),
                    dropped: 0,
                }),
            },
            InputStatus {
                input_id: "dev-2".into(),
                name: "Venue — Camera 2".into(),
                flow_state: FlowState::Idle,
                source_id: None,
                uplink: None,
            },
        ],
    }
}

fn at<'a>(doc: &'a Json, path: &[&str]) -> &'a Json {
    let mut here = doc;
    for key in path {
        here = match here.as_list() {
            Some(items) => &items[key.parse::<usize>().unwrap()],
            None => here.get(key).unwrap_or_else(|| panic!("no {key}")),
        };
    }
    here
}

fn text_at(doc: &Json, path: &[&str]) -> String {
    at(doc, path).as_text().unwrap().to_string()
}

fn uint_at(doc: &Json, path: &[&str]) -> u64 {
    at(doc, path).as_uint().unwrap()
}

/// The frame is the contract Open Live validates, so its shape is pinned here in Open
/// Live's own field names.
#[test]
fn a_heartbeat_frame_has_the_documented_shape() {
    let mut pusher = Pusher::new();
    let v = frame(&mut pusher, "HEARTBEAT", &iso8601(0, 0), &sample());
    assert_eq!(text_at(&v, &["type"]), "HEARTBEAT");
    assert_eq!(uint_at(&v, &["seq"]), 1);
    assert!(text_at(&v, &["ts"]).ends_with('Z'));
    assert_eq!(text_at(&v, &["host"]), "venue-box");
    assert_eq!(text_at(&v, &["stromVersion"]), "0.6.8");
    assert_eq!(text_at(&v, &["ingestVersion"]), "0.3.0");
    assert_eq!(uint_at(&v, &["deviceCount"]), 2);
    assert_eq!(uint_at(&v, &["streamingCount"]), 1);
    assert_eq!(text_at(&v, &["inputs", "0", "inputId"]), "dev-1");
    assert_eq!(text_at(&v, &["inputs", "0", "flowState"]), "playing");
    assert_eq!(text_at(&v, &["inputs", "0", "sourceId"]), "src-1");
    assert_eq!(uint_at(&v, &["inputs", "0", "uplink", "bitrateKbps"]), 6200);
    assert_eq!(
        at(&v, &["inputs", "0", "uplink", "rtt_ms"]).as_number(),
        Some(Number::Float(18.0f64.to_bits()))
    );
    assert_eq!(uint_at(&v, &["inputs", "0", "uplink", "dropped"]), 0);
    assert_eq!(text_at(&v, &["inputs", "1", "flowState"]), "idle");
    assert!(matches!(at(&v, &["inputs", "1", "sourceId"]), Json::Null));
    assert!(matches!(at(&v, &["inputs", "1", "uplink"]), Json::Null));

    let v = offline_frame(&mut pusher, &iso8601(1, 0));
    assert_eq!(text_at(&v, &["type"]), "GATEWAY_OFFLINE");
    assert_eq!(
        uint_at(&v, &["seq"]),
        2,
        "the sequence keeps counting across frames"
    );
    assert_eq!(text_at(&v, &["reason"]), "operator-stop");
}

#[test]
fn an_unknown_strom_version_is_left_out() {
    let mut snapshot = sample();
    snapshot.strom_version = None;
    let v = frame(&mut Pusher::new(), "GATEWAY_ONLINE", "t", &snapshot);
    assert!(v.get("stromVersion").is_none());
    assert_eq!(text_at(&v, &["type"]), "GATEWAY_ONLINE");
}

#[test]
fn uplink_figures_come_from_stroms_srt_statistics() {
    let uplink = Uplink::from_srt(Some(5987), Some(31.4f64.to_bits()), Some(3));
    assert_eq!(
        uplink,
        Uplink {
            bitrate_kbps: 5987,
            rtt_ms: 31.4f64.to_bits(),
            dropped: 3
        }
    );
    assert_eq!(
        Uplink::from_srt(None, None, None),
        Uplink {
            bitrate_kbps: 0,
            rtt_ms: 0.0f64.to_bits(),
            dropped: 0
        }
    );
}

#[test]
fn timestamps_are_iso_8601_utc_with_milliseconds() {
    assert_eq!(iso8601(0, 0), "1970-01-01T00:00:00.000Z");
    assert_eq!(iso8601(951_782_400, 0), "2000-02-29T00:00:00.000Z");
    assert_eq!(iso8601(1_789_497_072, 400), "2026-09-15T18:31:12.400Z");
    assert_eq!(iso8601(4_102_444_799, 999), "2099-12-31T23:59:59.999Z");
}

#[test]
fn days_are_dated_across_leap_years() {
    assert_eq!(civil_from_days(0), (1970, 1, 1));
    assert_eq!(civil_from_days(-1), (1969, 12, 31));
    assert_eq!(civil_from_days(11_016), (2000, 2, 29));
    assert_eq!(civil_from_days(11_017), (2000, 3, 1));
    assert_eq!(civil_from_days(47_540), (2100, 2, 28));
    assert_eq!(civil_from_days(47_541), (2100, 3, 1));
}

#[test]
fn backoff_doubles_from_a_second_and_stops_at_a_minute() {
    assert_eq!(backoff(1), 1);
    assert_eq!(backoff(2), 2);
    assert_eq!(backoff(4), 8);
    assert_eq!(backoff(7), MAX_BACKOFF_SECS);
    assert_eq!(backoff(40), MAX_BACKOFF_SECS);
}

/// The same trouble is complained of once; a link that worked starts over.
#[test]
fn the_pusher_counts_frames_and_complains_once() {
    let mut pusher = Pusher::new();
    assert_eq!(pusher.next_seq(), 1);
    assert_eq!(pusher.next_seq(), 2);
    let first = pusher.on_error("HTTP 502 Bad Gateway");
    assert!(first.complaint.is_some());
    assert_eq!(first.delay, 1);
    let second = pusher.on_error("HTTP 502 Bad Gateway");
    assert!(second.complaint.is_none());
    assert_eq!(second.delay, 2);
    let dropped = pusher
        .on_ending(Ending::Dropped { was_connected: true }, "gw-1")
        .unwrap();
    assert_eq!(dropped.delay, 1);
    assert!(dropped.complaint.is_some());
    let refused = pusher.on_ending(Ending::Unauthorized, "gw-1").unwrap();
    assert_eq!(refused.delay, MAX_BACKOFF_SECS);
    assert!(pusher.on_ending(Ending::Stopped, "gw-1").is_none());
    assert_eq!(pusher.next_seq(), 3);
}
