use open_live_ingest::documents::{devices_document, frame, offline_frame, status_document};
use open_live_ingest::heartbeat::{FlowState, InputStatus, Pusher, Snapshot, Uplink};
use open_live_ingest::json::{same_json, same_list, Fields, Json, Number};
use open_live_ingest::report::{
    DeviceReport, EndpointReport, ProcessReport, StatusReport,
};

fn snapshot() -> Snapshot {
    Snapshot {
        host: "box".to_string(),
        strom_version: None,
        ingest_version: "0.1.0".to_string(),
        device_count: 2,
        streaming_count: 1,
        inputs: vec![InputStatus {
            input_id: "dev-a".to_string(),
            name: "Venue / Cam".to_string(),
            flow_state: FlowState::Playing,
            source_id: None,
            uplink: Some(Uplink {
                bitrate_kbps: 6000,
                rtt_ms: 31.5f64.to_bits(),
                dropped: 2,
            }),
        }],
    }
}

#[test]
fn frames_are_numbered_and_hold_the_snapshot() {
    let mut pusher = Pusher::new();
    let first = frame(&mut pusher, "GATEWAY_ONLINE", "t0", &snapshot());
    let second = frame(&mut pusher, "HEARTBEAT", "t1", &snapshot());
    let third = offline_frame(&mut pusher, "t2");
    let seq = |j: &Json| j.get("seq").and_then(Json::as_uint).unwrap();
    assert!(seq(&first) < seq(&second) && seq(&second) < seq(&third));
    assert_eq!(first.text_at("type"), Some("GATEWAY_ONLINE"));
    assert_eq!(first.text_at("ts"), Some("t0"));
    assert_eq!(first.text_at("host"), Some("box"));
    let inputs = first.get("inputs").and_then(Json::as_list).unwrap();
    assert_eq!(inputs[0].text_at("flowState"), Some("playing"));
    let uplink = inputs[0].get("uplink").unwrap();
    assert_eq!(uplink.get("bitrateKbps").unwrap().as_uint(), Some(6000));
    assert_eq!(third.text_at("type"), Some("GATEWAY_OFFLINE"));
    assert_eq!(third.text_at("reason"), Some("operator-stop"));
}

#[test]
fn reports_become_documents() {
    let status = status_document(&StatusReport {
        process: ProcessReport {
            running: false,
            pid: None,
        },
        uplink: None,
        uplink_error: Some("no host".to_string()),
        strom: EndpointReport {
            url: "u".to_string(),
            reachable: false,
            error: Some("refused".to_string()),
        },
        open_live: None,
        inputs: vec![],
    });
    assert!(matches!(
        status.get("process").unwrap().get("running"),
        Some(Json::Bool(false))
    ));
    assert_eq!(status.get("strom").unwrap().text_at("error"), Some("refused"));
    let devices = devices_document(&vec![DeviceReport {
        name: "Cam".to_string(),
        id: "d".to_string(),
        virtual_: false,
    }]);
    let list = devices.as_list().unwrap();
    assert_eq!(list[0].text_at("name"), Some("Cam"));
    assert!(matches!(list[0].get("virtual"), Some(Json::Bool(false))));
}

#[test]
fn objects_compare_by_content_whatever_their_order() {
    let a = Fields::new().with("x", Json::uint(1)).with("y", Json::Null).object();
    let b = Fields::new().with("y", Json::Null).with("x", Json::uint(1)).object();
    assert!(same_json(&a, &b));
    let c = Fields::new().with("x", Json::uint(1)).object();
    assert!(!same_json(&a, &c) && !same_json(&c, &a));
    assert!(same_list(&vec![a.copy()], &vec![b]));
    let zero = |bits: u64| Json::Number(Number::Float(bits));
    assert!(same_json(&zero(0.0f64.to_bits()), &zero((-0.0f64).to_bits())));
    assert!(!same_json(&zero(0.0f64.to_bits()), &Json::uint(0)));
    assert!(!same_json(&Json::text("a"), &Json::text("b")));
}
