use open_live_ingest::report::{
    EndpointReport, FlowReport, InputReport, ProcessReport, Reading, SourceReport, StatusReport,
    UplinkReport, UplinkStatsReport,
};
use open_live_ingest::tui::{
    action, cell, divide, endpoint_label, key_hints, nth_column, sparkline, visible_columns,
    Action, Column, Delivery, Key, Tint, Watch,
};

const COLUMN_COUNT: usize = 12;

fn input(name: &str, running: bool, bytes: Option<u64>, source: Option<&str>) -> InputReport {
    InputReport {
        name: name.to_string(),
        flow: Some(FlowReport {
            id: "flow".to_string(),
            running,
        }),
        uplink: bytes.map(|b| UplinkStatsReport {
            bytes_sent: Some(b),
            send_rate_mbps: Some(Reading {
                bits: (b as f64 / 1_000_000.0).to_bits(),
                negative: false,
                shown: b / 10_000,
            }),
            rtt_ms: Some(Reading {
                bits: 31.4f64.to_bits(),
                negative: false,
                shown: 31,
            }),
            packets_sent_lost: Some(0),
            packets_retransmitted: Some(3),
            ..UplinkStatsReport::default()
        }),
        source: source.map(|s| SourceReport {
            id: "src".to_string(),
            status: s.to_string(),
        }),
    }
}

fn report(inputs: Vec<InputReport>) -> StatusReport {
    StatusReport {
        process: ProcessReport {
            running: true,
            pid: Some(4242),
        },
        uplink: Some(UplinkReport {
            host: "192.0.2.10".to_string(),
            ports: "47110-47129".to_string(),
            port_source: "Open Live".to_string(),
        }),
        uplink_error: None,
        strom: EndpointReport {
            url: "http://127.0.0.1:3000".to_string(),
            reachable: true,
            error: None,
        },
        open_live: Some(EndpointReport {
            url: "https://open-live.example.com".to_string(),
            reachable: true,
            error: None,
        }),
        inputs,
    }
}

fn columns() -> Vec<Column> {
    (0..COLUMN_COUNT).map(nth_column).collect()
}

/// One row as the table shows it, cell by cell.
fn row(view: &Watch, name: &str) -> String {
    let input = view
        .report
        .as_ref()
        .unwrap()
        .inputs
        .iter()
        .find(|i| i.name == name)
        .unwrap();
    let trend = view.trend(name);
    columns()
        .into_iter()
        .map(|c| cell(c, input, &trend).text)
        .collect::<Vec<String>>()
        .join(" ")
}

/// The same test `up` applies: one sample proves nothing, moving bytes prove delivery,
/// a still counter with a peer attached is a stall.
#[test]
fn delivery_is_judged_by_bytes_moving_between_polls() {
    let mut view = Watch::new("Venue".to_string());
    view.apply(Ok(report(vec![input("Cam 1", true, Some(1000), None)])), 0);
    assert_eq!(view.trend("Cam 1").delivery, Delivery::Connected);
    view.apply(Ok(report(vec![input("Cam 1", true, Some(2000), None)])), 0);
    assert_eq!(view.trend("Cam 1").delivery, Delivery::OnAir);
    view.apply(Ok(report(vec![input("Cam 1", true, Some(2000), None)])), 0);
    assert_eq!(view.trend("Cam 1").delivery, Delivery::Stalled);
    view.apply(Ok(report(vec![input("Cam 1", true, None, None)])), 0);
    assert_eq!(view.trend("Cam 1").delivery, Delivery::NoReceiver);
    view.apply(Ok(report(vec![input("Cam 1", false, Some(5000), None)])), 0);
    assert_eq!(view.trend("Cam 1").delivery, Delivery::Nowhere);
}

/// A reconnect restarts srtsink's counter, so the first sample after a gap must not be
/// compared with the one before it.
#[test]
fn a_receiver_that_comes_back_starts_over() {
    let mut view = Watch::new("Venue".to_string());
    view.apply(Ok(report(vec![input("Cam 1", true, Some(9000), None)])), 0);
    view.apply(Ok(report(vec![input("Cam 1", true, None, None)])), 0);
    view.apply(Ok(report(vec![input("Cam 1", true, Some(100), None)])), 0);
    assert_eq!(view.trend("Cam 1").delivery, Delivery::Connected);
}

#[test]
fn a_failed_poll_keeps_the_last_report_and_says_why() {
    let mut view = Watch::new("Venue".to_string());
    view.apply(Ok(report(vec![input("Cam 1", true, Some(1), Some("active"))])), 0);
    view.apply(Err("open_live.url is unset".to_string()), 0);
    assert!(view.report.is_some());
    assert_eq!(
        view.messages(),
        vec!["Could not gather status: open_live.url is unset".to_string()]
    );
    view.apply(Ok(report(vec![])), 0);
    assert!(view.messages().is_empty());
    assert!(view.trends.is_empty(), "trends of vanished inputs are dropped");
}

#[test]
fn the_sparkline_puts_the_newest_sample_at_the_right_and_leaves_gaps() {
    let rates = bits(&[Some(1.0), None, Some(4.0), Some(8.0)]);
    assert_eq!(sparkline(&rates, 6), "  ▂ ▅█");
    assert_eq!(sparkline(&rates, 2), "▅█");
    let flat = bits(&[Some(0.0), Some(0.0)]);
    assert_eq!(sparkline(&flat, 2), "▁▁");
}

fn bits(rates: &[Option<f64>]) -> Vec<Option<u64>> {
    rates.iter().map(|r| r.map(f64::to_bits)).collect()
}

/// The scale goes by the rates themselves, not by the digits that are shown of them.
#[test]
fn the_sparkline_scales_rates_however_small_or_far_apart() {
    assert_eq!(sparkline(&bits(&[Some(0.001), Some(0.004)]), 2), "▃█");
    // The quotient of doubles is rounded up to the half that is drawn.
    assert_eq!(sparkline(&bits(&[Some(0.99999999999999989), Some(14.0)]), 2), "▂█");
    assert_eq!(sparkline(&bits(&[Some(0.9999999999999998), Some(14.0)]), 2), "▁█");
    assert_eq!(sparkline(&bits(&[Some(5e-324), Some(1e-323)]), 2), "▅█");
    assert_eq!(sparkline(&bits(&[Some(1e-300), Some(1e300)]), 2), "▁█");
    assert_eq!(sparkline(&bits(&[Some(1.0), Some(31.9), Some(16.0)]), 3), "▁█▅");
    assert_eq!(sparkline(&bits(&[Some(-2.0), Some(1.0)]), 2), "▁█");
    assert_eq!(sparkline(&bits(&[Some(-2.0), Some(-1.0)]), 2), "▁▁");
    assert_eq!(sparkline(&bits(&[Some(1.0), Some(f64::INFINITY)]), 2), "▁▁");
}

#[test]
fn a_narrow_terminal_drops_detail_columns_and_never_the_essentials() {
    let titles = |width: u16| -> Vec<&str> {
        visible_columns(width).into_iter().map(|c| c.title()).collect()
    };
    assert_eq!(titles(200).len(), COLUMN_COUNT);
    let narrow = titles(78);
    for essential in ["INPUT", "FLOW", "UPLINK", "RATE", "OPEN LIVE"] {
        assert!(narrow.contains(&essential), "{essential} missing at 78 columns");
    }
    assert!(!narrow.contains(&"BUF"));
    assert!(narrow.len() < COLUMN_COUNT);
    // Too narrow for even the essentials: they are still all there, clipped.
    assert_eq!(titles(10).len(), 5);
}

#[test]
fn the_screen_shows_every_input_with_its_flow_uplink_and_source() {
    let mut view = Watch::new("Venue".to_string());
    let inputs = || {
        vec![
            input("Venue / Cam 1", true, Some(1_000_000), Some("active")),
            input("Venue / Cam 2", true, None, Some("inactive")),
            input("Venue / Cam 3", false, None, None),
        ]
    };
    view.apply(Ok(report(inputs())), 0);
    let mut second = inputs();
    let cam1_stats = second[0].uplink.as_mut().unwrap();
    cam1_stats.bytes_sent = Some(2_000_000);
    cam1_stats.send_rate_mbps = Some(Reading {
        bits: 2.0f64.to_bits(),
        negative: false,
        shown: 200,
    });
    view.apply(Ok(report(second)), 0);

    let header = view.header();
    assert!(header.title.contains("Open Live Ingest: Venue"), "{}", header.title);
    assert!(header.process.text.contains("running (pid 4242)"), "{}", header.process.text);
    assert!(
        header.uplink.text.contains("192.0.2.10, SRT ports 47110-47129 from Open Live"),
        "{}",
        header.uplink.text
    );
    assert_eq!(endpoint_label("Strom") + header.strom.0.text.trim_end(), "Strom      reachable");
    let cam1 = row(&view, "Venue / Cam 1");
    assert!(cam1.contains("running") && cam1.contains("on air"), "{cam1}");
    assert!(cam1.contains("2.00 Mbps") && cam1.contains("31 ms"), "{cam1}");
    assert!(cam1.contains("active"), "{cam1}");
    let cam2 = row(&view, "Venue / Cam 2");
    assert!(cam2.contains("no receiver") && cam2.contains("inactive"), "{cam2}");
    let cam3 = row(&view, "Venue / Cam 3");
    assert!(cam3.contains("stopped") && cam3.contains("not registered"), "{cam3}");
    assert!(view.messages().is_empty(), "nothing is wrong, so there are no notes");
    assert_eq!(view.notes_title(), None, "nothing is wrong, so no attention box");
    let footer: String = key_hints().iter().map(|(key, what)| format!("{key}{what}")).collect();
    assert!(footer.contains("q quit"), "{footer}");
    assert!(view.placeholder().is_none());
}

#[test]
fn trouble_is_listed_under_the_table() {
    let mut view = Watch::new("Venue".to_string());
    let mut r = report(vec![]);
    r.strom = EndpointReport {
        url: "http://127.0.0.1:3000".to_string(),
        reachable: false,
        error: Some("connection refused".to_string()),
    };
    r.uplink = None;
    r.uplink_error = Some("no cloud Strom host configured".to_string());
    r.open_live = None;
    view.apply(Ok(r), 0);

    let header = view.header();
    assert_eq!(
        endpoint_label("Strom") + header.strom.0.text.trim_end(),
        "Strom      unreachable"
    );
    assert!(header.uplink.text.contains("not resolved"), "{}", header.uplink.text);
    assert!(
        header.open_live.0.text.contains("registration off"),
        "{}",
        header.open_live.0.text
    );
    assert_eq!(view.notes_title(), Some("Attention"));
    let notes = view.messages();
    assert!(
        notes.contains(
            &"Strom at http://127.0.0.1:3000 is not reachable (connection refused)".to_string()
        ),
        "{notes:?}"
    );
    assert!(
        notes.contains(&"Uplink not resolved: no cloud Strom host configured".to_string()),
        "{notes:?}"
    );
    assert!(view
        .placeholder()
        .unwrap()
        .text
        .contains("Nothing of ours in Strom or Open Live."));
}

/// At 80 columns the two header halves would overwrite each other, so they are stacked.
#[test]
fn a_narrow_terminal_stacks_the_header() {
    let mut view = Watch::new("Venue".to_string());
    view.apply(Ok(report(vec![])), 0);
    let header = view.header();
    assert!(header.uplink.text.contains("192.0.2.10, SRT ports 47110-47129 from Open Live"));
    assert!(
        (endpoint_label("Open Live") + &header.open_live.0.text + &header.open_live.1)
            .contains("Open Live  reachable    https://open-live.example.com"),
        "{header:?}"
    );
    let wide = divide(140, view.messages().len());
    assert!(!wide.stacked);
    assert_eq!(wide.header, 4, "a wide header is 4 rows");
    let narrow = divide(80, view.messages().len());
    assert!(narrow.stacked);
    assert_eq!(narrow.header, 6, "a narrow header is 6 rows");
}

#[test]
fn before_the_first_answer_the_screen_says_it_is_asking() {
    let view = Watch::new("Venue".to_string());
    assert!(view
        .placeholder()
        .unwrap()
        .text
        .contains("Asking Strom and Open Live..."));
    assert!(view.freshness(0).text.contains("waiting for the first answer"));
}

#[test]
fn q_escape_and_ctrl_c_quit_and_r_refreshes() {
    let key = |code: Key, control: bool| action(Some((code, control, false)));
    assert_eq!(key(Key::Char('q'), false), Some(Action::Quit));
    assert_eq!(key(Key::Esc, false), Some(Action::Quit));
    assert_eq!(key(Key::Char('c'), true), Some(Action::Quit));
    assert_eq!(key(Key::Char('r'), false), Some(Action::Refresh));
    assert_eq!(key(Key::Char('c'), false), None);
    assert_eq!(action(None), None);
    assert_eq!(action(Some((Key::Char('q'), false, true))), None);
}

#[test]
fn a_stall_is_painted_as_a_warning() {
    let mut view = Watch::new("Venue".to_string());
    view.apply(Ok(report(vec![input("Cam", true, Some(5), None)])), 0);
    view.apply(Ok(report(vec![input("Cam", true, Some(5), None)])), 0);
    let shown = view.report.as_ref().unwrap();
    let painted = cell(Column::Uplink, &shown.inputs[0], &view.trend("Cam"));
    assert_eq!(painted.text, Delivery::Stalled.label());
    assert_ne!(painted.tint, Tint::Good);
}
