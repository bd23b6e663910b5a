use open_live_ingest::gateway::client::{read_creation, read_flow, srt_uplink, BadAnswer, Creation};
use open_live_ingest::json::{Fields, Json, Number};
use open_live_ingest::report::{Reading, UplinkStatsReport};
use open_live_ingest::strom::{
    read_probe, uplink_peer, Probe, Reachability, SrtConnection, SrtRole, StromClient,
};

fn peer(bytes: u64, rtt: f64) -> UplinkStatsReport {
    UplinkStatsReport {
        bytes_sent: Some(bytes),
        rtt_ms: Some(Reading {
            bits: rtt.to_bits(),
            negative: false,
            shown: rtt as u64,
        }),
        ..UplinkStatsReport::default()
    }
}

#[test]
fn the_uplink_peer_is_the_sending_elements_first_caller() {
    let connections = vec![
        SrtConnection {
            role: SrtRole::Source,
            callers: vec![UplinkStatsReport::default()],
        },
        SrtConnection {
            role: SrtRole::Sink,
            callers: vec![peer(1234, 31.5), peer(9, 1.0)],
        },
    ];
    let peer = uplink_peer(&connections).expect("a sink connection");
    assert_eq!(peer.bytes_sent, Some(1234));
    assert_eq!(peer.rtt_ms.map(|r| f64::from_bits(r.bits)), Some(31.5));
}

/// Before the far end answers there is no peer, which is "waiting", not an error.
#[test]
fn no_peer_yet_is_no_sample() {
    let waiting = vec![SrtConnection {
        role: SrtRole::Sink,
        callers: vec![],
    }];
    assert!(uplink_peer(&waiting).is_none());
    assert!(uplink_peer(&vec![]).is_none());
}

#[test]
fn a_probe_tells_a_credential_from_an_outage() {
    let answer = |status: u16, sources: Option<usize>| {
        read_probe(Probe::Answer {
            status,
            status_text: format!("{status} X"),
            sources,
        })
    };
    assert!(matches!(answer(200, Some(3)), Reachability::Reachable { video_sources: 3 }));
    assert!(matches!(answer(200, None), Reachability::Reachable { video_sources: 0 }));
    assert!(matches!(answer(401, None), Reachability::NeedsCredential));
    assert!(matches!(answer(403, None), Reachability::NeedsCredential));
    match answer(500, None) {
        Reachability::Unreachable(e) => assert_eq!(e, "HTTP 500 X"),
        other => panic!("{other:?}"),
    }
    assert!(matches!(
        read_probe(Probe::NoAnswer("refused".into())),
        Reachability::Unreachable(_)
    ));
}

#[test]
fn requests_to_strom_are_addressed_below_its_base() {
    let client = StromClient::new("http://127.0.0.1:8080/", None);
    assert_eq!(
        client.devices_url(),
        "http://127.0.0.1:8080/api/discovery/devices?category=video_source"
    );
    assert_eq!(client.flows_url(), "http://127.0.0.1:8080/api/flows");
    assert_eq!(client.flow_url("f1", "/start"), "http://127.0.0.1:8080/api/flows/f1/start");
}

fn connection(role: &str, mode: &str, callers: Vec<Json>) -> Json {
    Fields::new()
        .with("role", Json::text(role))
        .with("mode", Json::text(mode))
        .with("callers", Json::List(callers))
        .object()
}

fn statistics(connections: Fields) -> Json {
    Fields::new()
        .with(
            "stats",
            Fields::new().with("connections", connections.object()).object(),
        )
        .object()
}

/// Of the sinks that dial, the first by name is the uplink.
#[test]
fn the_dialling_sink_is_picked_out_of_the_statistics() {
    let caller = |bytes: u64| {
        Fields::new()
            .with("bytes_sent", Json::uint(bytes))
            .with("rtt_ms", Json::Number(Number::Float(31.4f64.to_bits())))
            .object()
    };
    let body = statistics(
        Fields::new()
            .with("z", connection("sink", "caller", vec![caller(9)]))
            .with("a", connection("source", "caller", vec![caller(1)]))
            .with("m", connection("sink", "caller", vec![caller(7), caller(8)]))
            .with("b", connection("sink", "listener", vec![caller(2)])),
    );
    let uplink = srt_uplink(&body).unwrap();
    assert_eq!(uplink.bytes_sent, 7);
    assert_eq!(uplink.rtt_ms, Some(Number::Float(31.4f64.to_bits())));
    assert_eq!(uplink.send_rate_mbps, None);
    assert_eq!(uplink.packets_retransmitted, None);
    let idle = statistics(Fields::new().with("m", connection("sink", "caller", vec![])));
    assert!(srt_uplink(&idle).is_none());
    assert!(srt_uplink(&statistics(Fields::new())).is_none());
    assert!(srt_uplink(&Json::Null).is_none());
}

#[test]
fn a_flow_is_read_with_what_strom_owns() {
    let flow = Fields::new()
        .with("id", Json::text("f1"))
        .with("running", Json::Bool(true))
        .with("extra", Json::uint(1))
        .object();
    let fetched = read_flow(&Fields::new().with("flow", flow).object()).unwrap();
    assert_eq!(fetched.state.id, "f1");
    assert_eq!(fetched.state.name, "");
    assert!(fetched.state.running);
    assert_eq!(fetched.state.gst_state, None);
    assert_eq!(fetched.raw.get("extra").unwrap().as_uint(), Some(1));
    assert_eq!(read_flow(&Fields::new().object()).err(), Some(BadAnswer::NoFlow));
    let nameless = Fields::new().with("flow", Fields::new().object()).object();
    assert_eq!(read_flow(&nameless).err(), Some(BadAnswer::NotAFlow));
    assert_eq!(read_creation(409), Creation::Exists);
    assert_eq!(read_creation(201), Creation::Made);
    assert_eq!(read_creation(500), Creation::Refused);
}
