use open_live_ingest::config::{Capture, Uplink};
use open_live_ingest::devices::{
    choose_devices, inputs_for, is_probably_virtual, name_prefix, sorted_by_name, ChooseError,
    Device, InputsError,
};
use open_live_ingest::flow::TEST_INPUT_ID;

fn device(id: &str, name: &str) -> Device {
    Device {
        id: id.to_string(),
        name: name.to_string(),
        provider: None,
    }
}

fn devices() -> Vec<Device> {
    vec![
        device("d1", "OBS Virtual Camera"),
        device("d2", "FaceTime HD Camera"),
        device("d3", "DeckLink Mini Recorder"),
    ]
}

#[test]
fn virtual_devices_are_skipped_unless_asked_for() {
    let names: Vec<String> = choose_devices(devices(), false, None)
        .unwrap()
        .into_iter()
        .map(|d| d.name)
        .collect();
    assert_eq!(names, ["DeckLink Mini Recorder", "FaceTime HD Camera"]);
    assert_eq!(choose_devices(devices(), true, None).unwrap().len(), 3);
}

/// Real hardware must never be filtered out: a camera vanishing from the list because
/// of a name heuristic is worse than a stray virtual device appearing.
#[test]
fn real_capture_hardware_is_not_treated_as_virtual() {
    for name in [
        "FaceTime HD Camera",
        "DeckLink Mini Recorder 4K",
        "Magewell USB Capture SDI",
        "Logitech BRIO",
    ] {
        assert!(!is_probably_virtual(&device("d", name)), "{name}");
    }
    assert!(is_probably_virtual(&device("d", "v4l2loopback")));
    assert!(is_probably_virtual(&device("d", "OBS VIRTUAL CAMERA")));
}

#[test]
fn devices_are_selected_by_name_fragment_or_id_and_never_by_position() {
    assert_eq!(choose_devices(devices(), false, Some("facetime")).unwrap()[0].id, "d2");
    assert_eq!(choose_devices(devices(), true, Some("d1")).unwrap()[0].id, "d1");
    assert_eq!(choose_devices(devices(), true, Some("facetime, obs")).unwrap().len(), 2);
    assert!(choose_devices(devices(), false, Some("1")).is_err());
    assert!(choose_devices(devices(), false, Some("nonexistent")).is_err());
}

/// The ports are handed out in this order, so it must not depend on how the selection is
/// written.
#[test]
fn selected_devices_come_in_name_order() {
    for selection in ["facetime,decklink", "decklink,facetime", " d2 , d3 "] {
        let ids: Vec<String> = choose_devices(devices(), true, Some(selection))
            .unwrap()
            .into_iter()
            .map(|d| d.id)
            .collect();
        assert_eq!(ids, ["d3", "d2"], "{selection}");
    }
}

/// Starting the wrong camera is worse than asking again.
#[test]
fn devices_an_ambiguous_name_is_refused() {
    let mut list = devices();
    list.push(device("d4", "Camera Link Pro"));
    let err = choose_devices(list, true, Some("camera")).unwrap_err().message();
    assert!(err.contains("matches"), "{err}");
}

#[test]
fn each_refused_selection_says_why() {
    let none = choose_devices(devices(), true, Some("nonexistent")).unwrap_err();
    assert!(matches!(none, ChooseError::NoMatch { .. }));
    assert_eq!(
        none.message(),
        "no device matches \"nonexistent\". Run `open-live-ingest devices` to see them."
    );
    let several = choose_devices(devices(), true, Some("camera")).unwrap_err();
    assert_eq!(
        several.message(),
        "\"camera\" matches 2 devices (FaceTime HD Camera, OBS Virtual Camera). Use a longer \
         name or an id."
    );
    let nothing = choose_devices(devices(), true, Some(" , ")).unwrap_err();
    assert_eq!(nothing.message(), "--devices selected nothing");
}

#[test]
fn candidates_come_in_name_order() {
    let names: Vec<String> = sorted_by_name(devices()).into_iter().map(|d| d.name).collect();
    assert_eq!(
        names,
        ["DeckLink Mini Recorder", "FaceTime HD Camera", "OBS Virtual Camera"]
    );
}

#[test]
fn inputs_get_stable_names_and_the_lowest_free_ports_in_order() {
    let uplink = Uplink {
        port_range: "9000-9002".to_string(),
        ..Uplink::default()
    };
    let inputs = inputs_for(
        &choose_devices(devices(), false, None).unwrap(),
        true,
        " Venue A ",
        &uplink,
        &Capture::default(),
        "cloud",
    )
    .unwrap();
    let summary: Vec<(String, u16)> = inputs
        .iter()
        .map(|i| (i.name.clone(), i.endpoint.port))
        .collect();
    assert_eq!(
        summary,
        [
            ("Venue A — Test pattern".to_string(), 9000),
            ("Venue A — DeckLink Mini Recorder".to_string(), 9001),
            ("Venue A — FaceTime HD Camera".to_string(), 9002),
        ]
    );
    assert!(inputs.iter().all(|i| i.name.starts_with(&name_prefix("Venue A"))));
    assert_eq!(inputs[0].id, TEST_INPUT_ID);
    assert_eq!(inputs[1].id, "dev-d3");
}

/// Better a clear error than two inputs fighting over one port.
#[test]
fn devices_an_exhausted_range_is_an_error() {
    let uplink = Uplink {
        port_range: "9000-9000".to_string(),
        ..Uplink::default()
    };
    let err = inputs_for(
        &choose_devices(devices(), false, None).unwrap(),
        false,
        "V",
        &uplink,
        &Capture::default(),
        "cloud",
    )
    .unwrap_err()
    .message();
    assert!(err.contains("9000-9000"), "{err}");
}

#[test]
fn a_malformed_range_gives_no_inputs() {
    let uplink = Uplink {
        port_range: "9000".to_string(),
        ..Uplink::default()
    };
    let err = inputs_for(&devices(), false, "V", &uplink, &Capture::default(), "cloud").unwrap_err();
    assert!(matches!(err, InputsError::Range(_)));
}
