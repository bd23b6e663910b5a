use open_live_ingest::config::{Config, Places, Strom};
use open_live_ingest::local_strom::{
    data_dir, lookup_of, not_found, plan_strom, port_of, read_readiness, say_refusal,
    stops_recorded, tail_of_log, Lookup, Readiness, StromPlan, StromRefusal,
};
use open_live_ingest::strom::Reachability;

fn places() -> Places {
    Places {
        macos: false,
        home: Some("/home/op".to_string()),
        xdg_config_home: None,
    }
}

#[test]
fn the_port_is_read_from_the_url_and_a_default_port_is_not_guessed() {
    assert_eq!(port_of("http://127.0.0.1:8080"), Some(8080));
    assert_eq!(port_of("https://strom.example.com:9443/api"), Some(9443));
    assert_eq!(port_of("http://strom.example.com"), None);
    assert_eq!(port_of("127.0.0.1:70000"), None);
}

/// A path that does not exist must say so, rather than being looked up on PATH under
/// its basename and silently finding something else.
#[test]
fn binaries_are_located_by_path_or_on_path() {
    let dirs = vec!["/usr/bin".to_string(), "/bin/".to_string()];
    match lookup_of("/nonexistent/strom", &dirs) {
        Lookup::Exactly(path) => assert_eq!(path, "/nonexistent/strom"),
        other => panic!("{other:?}"),
    }
    assert!(not_found("/nonexistent/strom").contains("/nonexistent/strom"));
    assert!(not_found("definitely-not-a-real-binary-xyz")
        .contains("\"definitely-not-a-real-binary-xyz\" on PATH"));
    match lookup_of("sh", &dirs) {
        Lookup::FirstOf(found) => assert_eq!(found, ["/usr/bin/sh", "/bin/sh"]),
        other => panic!("{other:?}"),
    }
}

#[test]
fn a_managed_strom_gets_its_own_data_directory_unless_told_otherwise() {
    let mut cfg = Config::default();
    assert!(data_dir(&cfg, &places()).ends_with("/strom-data"));
    cfg.strom.data_dir = Some("/tmp/somewhere".to_string());
    assert_eq!(data_dir(&cfg, &places()), "/tmp/somewhere");
}

/// A Strom that answers is adopted, or refused where it wants a credential; one is
/// started only where nothing answers.
#[test]
fn a_strom_that_answers_is_never_replaced() {
    let strom = Strom::default();
    assert!(matches!(
        plan_strom(&Reachability::Reachable { video_sources: 1 }, &strom, false),
        StromPlan::Adopt
    ));
    assert!(matches!(
        plan_strom(&Reachability::NeedsCredential, &strom, false),
        StromPlan::Refuse(StromRefusal::NeedsCredential)
    ));
    let gone = Reachability::Unreachable("connection refused".to_string());
    assert!(matches!(plan_strom(&gone, &strom, true), StromPlan::Start { port: 8080 }));
    let unmanaged = Strom {
        manage: false,
        ..Strom::default()
    };
    assert!(matches!(
        plan_strom(&gone, &unmanaged, false),
        StromPlan::Refuse(StromRefusal::NotManaged)
    ));
    let portless = Strom {
        url: "http://strom.example.com".to_string(),
        ..Strom::default()
    };
    assert!(matches!(
        plan_strom(&gone, &portless, true),
        StromPlan::Refuse(StromRefusal::NoPort)
    ));
    // A missing executable is said before a missing port.
    for strom in [&strom, &portless] {
        assert!(matches!(
            plan_strom(&gone, strom, false),
            StromPlan::Refuse(StromRefusal::NoBinary)
        ));
    }
    assert_eq!(
        say_refusal(StromRefusal::NoPort, &portless),
        "strom.url \"http://strom.example.com\" names no port, so there is nothing to start a Strom on"
    );
    assert!(say_refusal(StromRefusal::NeedsCredential, &strom).contains("STROM_API_KEY"));
    assert!(say_refusal(StromRefusal::NotManaged, &strom).contains("manage is off"));
    assert_eq!(say_refusal(StromRefusal::NoBinary, &strom), not_found(&strom.binary));
}

#[test]
fn a_started_strom_is_given_until_the_deadline() {
    let gone = || Reachability::Unreachable("connection refused".to_string());
    assert!(matches!(read_readiness(gone(), true, ""), Readiness::Wait));
    match read_readiness(gone(), false, "\n\nThe end of log:\n") {
        Readiness::Failed(e) => assert_eq!(
            e,
            "Strom did not become ready within 45s (connection refused).\n\nThe end of log:\n"
        ),
        other => panic!("{other:?}"),
    }
    assert!(matches!(
        read_readiness(Reachability::Reachable { video_sources: 2 }, false, ""),
        Readiness::Ready { video_sources: 2 }
    ));
    assert!(matches!(
        read_readiness(Reachability::NeedsCredential, true, ""),
        Readiness::Failed(_)
    ));
}

#[test]
fn only_a_recorded_strom_is_stopped() {
    assert!(stops_recorded(Some(7), true, Some("strom")));
    assert!(!stops_recorded(Some(7), true, Some("bash")));
    assert!(!stops_recorded(Some(7), false, Some("strom")));
    assert!(!stops_recorded(None, true, Some("strom")));
}

#[test]
fn the_end_of_a_log_is_its_last_eight_lines() {
    let text: String = (1..=10).map(|n| format!("line {n}\r\n")).collect();
    let tail = tail_of_log("/tmp/strom.log", &text);
    assert!(tail.starts_with("\n\nThe end of /tmp/strom.log:\n    line 3\n    line 4\n"), "{tail}");
    assert!(tail.ends_with("    line 10\n"), "{tail}");
    assert_eq!(tail_of_log("/tmp/strom.log", ""), "");
    assert_eq!(
        tail_of_log("log", "no newline"),
        "\n\nThe end of log:\n    no newline\n"
    );
}
