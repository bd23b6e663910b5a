use open_live_ingest::config::{AuthMode, PortRange};
use open_live_ingest::openlive::{
    drifted, is_expiring, listener_port, read_status, refusal, Answer, Auth, Bearer, CachedToken,
    OpenLiveClient, ServerInfo, Source, SourcePayload,
};

fn bearer_of(auth: &Auth) -> Option<String> {
    match auth.bearer(0, &None, &None) {
        Bearer::Present(token) => token,
        other => panic!("{other:?}"),
    }
}

#[test]
fn direct_mode_sends_the_key_as_is_or_nothing() {
    assert_eq!(
        bearer_of(&Auth::new(AuthMode::Direct, Some("k".to_string()))).as_deref(),
        Some("k")
    );
    assert_eq!(bearer_of(&Auth::new(AuthMode::Direct, None)), None);
}

/// A token inside the refresh buffer must count as expiring, or a request can go out
/// holding a token that dies in flight.
#[test]
fn openlive_a_token_expiring_within_the_buffer_is_refreshed() {
    let now = 1_789_497_072;
    let soon = CachedToken {
        token: "t".into(),
        expires_at: now + 60,
    };
    assert!(is_expiring(&soon, now));
    let fresh = CachedToken {
        token: "t".into(),
        expires_at: now + 3600,
    };
    assert!(!is_expiring(&fresh, now));
}

/// A burst of requests fires one exchange.
#[test]
fn an_exchanged_token_is_presented_until_the_buffer() {
    let mut auth = Auth::new(AuthMode::Osc, Some("pat".to_string()));
    match auth.bearer(1000, &None, &None) {
        Bearer::Exchange(pat) => assert_eq!(pat, "pat"),
        other => panic!("{other:?}"),
    }
    let fresh = CachedToken {
        token: "service".into(),
        expires_at: 5000,
    };
    assert_eq!(auth.accept(fresh).as_deref(), Some("service"));
    match auth.bearer(4699, &None, &None) {
        Bearer::Present(token) => assert_eq!(token.as_deref(), Some("service")),
        other => panic!("{other:?}"),
    }
    assert!(matches!(auth.bearer(4700, &None, &None), Bearer::Exchange(_)));
}

/// A key in the settings wins over the environment, which wins over the saved login, and
/// the login is read again at each exchange.
#[test]
fn without_a_key_the_login_is_exchanged() {
    let some = |s: &str| Some(s.to_string());
    let mut auth = Auth::new(AuthMode::Osc, None);
    match auth.bearer(0, &None, &some("first-login\n")) {
        Bearer::Exchange(token) => assert_eq!(token, "first-login"),
        other => panic!("{other:?}"),
    }
    match auth.bearer(0, &some("from-env"), &some("first-login")) {
        Bearer::Exchange(token) => assert_eq!(token, "from-env"),
        other => panic!("{other:?}"),
    }
    assert!(matches!(auth.bearer(0, &some(" "), &None), Bearer::Missing));
    auth.accept(CachedToken {
        token: "service".to_string(),
        expires_at: 1000,
    });
    match auth.bearer(900, &None, &some("second-login")) {
        Bearer::Exchange(token) => assert_eq!(token, "second-login"),
        other => panic!("{other:?}"),
    }
    let configured = Auth::new(AuthMode::Osc, some("pat"));
    match configured.bearer(0, &some("from-env"), &some("login")) {
        Bearer::Exchange(token) => assert_eq!(token, "pat"),
        other => panic!("{other:?}"),
    }
}

fn stored(address: &str, status: &str, latency: Option<u32>) -> Source {
    Source {
        id: "src-1".into(),
        name: "Venue — cam".into(),
        address: address.into(),
        stream_type: "srt".into(),
        status: status.into(),
        latency,
    }
}

#[test]
fn an_identical_source_does_not_drift_but_status_port_and_latency_do() {
    let want = SourcePayload::new("Venue — cam", "srt://:9000?mode=listener", true, 200);
    assert!(!drifted(
        &stored("srt://:9000?mode=listener", "active", Some(200)),
        &want
    ));
    assert!(drifted(
        &stored("srt://:9000?mode=listener", "inactive", Some(200)),
        &want
    ));
    assert!(drifted(
        &stored("srt://:9001?mode=listener", "active", Some(200)),
        &want
    ));
    assert!(drifted(
        &stored("srt://:9000?mode=listener", "active", Some(400)),
        &want
    ));
}

/// Open Live masks the passphrase on read; comparing raw would PATCH forever. An Open
/// Live that does not report latency at all would do the same.
#[test]
fn masked_passphrases_and_missing_latency_are_not_drift() {
    let want = SourcePayload::new(
        "Venue — cam",
        "srt://:9000?mode=listener&passphrase=s3cret",
        true,
        200,
    );
    assert!(!drifted(
        &stored("srt://:9000?mode=listener&passphrase=***", "active", Some(200)),
        &want
    ));
    assert!(!drifted(
        &stored("srt://:9000?mode=listener&passphrase=***", "active", None),
        &want
    ));
    assert!(drifted(
        &stored("srt://:9002?mode=listener&passphrase=***", "active", Some(200)),
        &want
    ));
}

#[test]
fn a_payload_says_what_the_gateway_owns() {
    let p = SourcePayload::new("n", "a", false, 7);
    assert_eq!(p.stream_type, "srt");
    assert_eq!(p.status, "inactive");
    assert_eq!(SourcePayload::new("n", "a", true, 7).status, "active");
    assert!(p.live_camera);
    assert_eq!(p.latency, 7);
}

#[test]
fn a_bound_port_is_read_from_an_address_that_listens() {
    assert_eq!(listener_port("srt://:47103?mode=listener&passphrase=***"), Some(47103));
    assert_eq!(listener_port("srt://cloud.example.com:47103?mode=caller"), None);
}

#[test]
fn what_is_published_is_read_leniently() {
    let info = ServerInfo::read(
        Some(String::new()),
        Some("47110-47129".to_string()),
        Some("leased".to_string()),
    );
    assert!(info.strom_host.is_none());
    assert_eq!(info.srt_port_range, Some(PortRange { first: 47110, last: 47129 }));
    assert_eq!(info.srt_port_lease.as_deref(), Some("leased"));
    assert!(ServerInfo::read(None, Some("soon".to_string()), None).srt_port_range.is_none());
}

#[test]
fn requests_are_addressed_below_the_base_and_refusals_carry_the_status_alone() {
    let client = OpenLiveClient::new("https://ol.example.com//", AuthMode::Direct, &None);
    assert_eq!(client.sources_url(), "https://ol.example.com/api/v1/sources");
    assert_eq!(client.source_url("s1"), "https://ol.example.com/api/v1/sources/s1");
    assert_eq!(client.server_info_url(), "https://ol.example.com/api/v1/server-info");
    assert_eq!(read_status(204, false), Answer::Body);
    assert_eq!(read_status(404, true), Answer::Absent);
    assert_eq!(read_status(404, false), Answer::Refused);
    assert_eq!(read_status(500, true), Answer::Refused);
    assert_eq!(
        refusal("GET sources", "503 Service Unavailable"),
        "GET sources failed with HTTP 503 Service Unavailable"
    );
}
