use open_live_ingest::gateway::config::{GatewayConfig, StromConfig};
use open_live_ingest::gateway::process::{
    binary_not_found, data_dir, ensure_running, on_stopping, port_of, Exit, LocalStrom, Managed,
    StopStep, StromStart,
};
use open_live_ingest::local_strom::{lookup_of, Lookup};
use open_live_ingest::strom::Reachability;
use std::path::Path;

#[test]
fn a_port_is_read_from_the_url() {
    assert_eq!(port_of("http://127.0.0.1:8080"), Some(8080));
    assert_eq!(port_of("https://strom.example.com:9443/api"), Some(9443));
    assert_eq!(port_of("http://strom.example.com"), None);
}

/// The file that a lookup settles on, among those that exist.
fn located(configured: &str) -> Result<String, String> {
    let dirs = vec!["/usr/local/bin".to_string(), "/usr/bin".to_string(), "/bin".to_string()];
    let found = match lookup_of(configured, &dirs) {
        Lookup::Exactly(path) => Some(path).filter(|p| Path::new(p).is_file()),
        Lookup::FirstOf(all) => all.into_iter().find(|p| Path::new(p).is_file()),
    };
    found.ok_or_else(|| binary_not_found(configured))
}

/// A path that does not exist must say so, rather than being looked for on PATH under
/// its basename and silently finding something else.
#[test]
fn an_explicit_path_that_is_missing_is_an_error() {
    let err = located("/nonexistent/strom").unwrap_err();
    assert!(err.contains("/nonexistent/strom"));
}

#[test]
fn a_bare_name_not_on_path_is_an_error_naming_it() {
    let err = located("definitely-not-a-real-binary-xyz").unwrap_err();
    assert!(err.contains("definitely-not-a-real-binary-xyz"));
}

/// Something on PATH is found by name: `sh` stands in for `strom` here.
#[test]
fn a_bare_name_on_path_is_found() {
    let found = located("sh").expect("sh should be on PATH");
    assert!(Path::new(&found).is_file());
    assert!(Path::new(&found).ends_with("sh"));
}

#[test]
fn a_managed_strom_uses_its_own_data_directory_by_default() {
    let cfg = GatewayConfig::default();
    let dir = data_dir(&cfg, &Some("/home/me/.config".to_string()));
    assert!(Path::new(&dir).ends_with("strom-data"), "got {dir}");
    assert_eq!(dir, "/home/me/.config/strom-data");
    assert_eq!(data_dir(&cfg, &None), "strom-data");
}

#[test]
fn a_configured_data_directory_wins() {
    let mut cfg = GatewayConfig::default();
    cfg.strom.data_dir = Some("/tmp/somewhere".to_string());
    assert_eq!(data_dir(&cfg, &Some("/etc".to_string())), "/tmp/somewhere");
}

fn strom(url: &str, manage: bool) -> StromConfig {
    StromConfig {
        url: url.to_string(),
        manage,
        ..StromConfig::default()
    }
}

#[test]
fn a_strom_that_answers_is_adopted_and_one_that_is_missing_started() {
    let up = Reachability::Reachable { video_sources: 1 };
    assert!(matches!(
        ensure_running(&up, &strom("http://x:1", true)),
        StromStart::Adopt
    ));
    let gone = Reachability::Unreachable("refused".to_string());
    assert!(matches!(
        ensure_running(&gone, &strom("http://x:9", true)),
        StromStart::Start { port: 9 }
    ));
    assert!(matches!(
        ensure_running(&gone, &strom("http://x", true)),
        StromStart::Start { port: 8080 }
    ));
    match ensure_running(&gone, &strom("http://x:9", false)) {
        StromStart::Refuse(why) => {
            assert!(why.starts_with("nothing is listening at http://x:9, and [strom] manage is off."))
        }
        other => panic!("{other:?}"),
    }
    match ensure_running(&Reachability::NeedsCredential, &strom("http://x:9", true)) {
        StromStart::Refuse(why) => {
            assert!(why.starts_with("Strom at http://x:9 needs a credential."))
        }
        other => panic!("{other:?}"),
    }
}

#[test]
fn a_strom_that_does_not_stop_in_time_is_killed() {
    assert_eq!(on_stopping(Exit::Gone, true), StopStep::Done);
    assert_eq!(on_stopping(Exit::StillThere, true), StopStep::Wait);
    assert_eq!(on_stopping(Exit::StillThere, false), StopStep::Kill);
    assert_eq!(on_stopping(Exit::Unknown, true), StopStep::Done);
}

#[test]
fn only_a_started_strom_has_a_pid() {
    assert_eq!(LocalStrom::Adopted.managed_pid(), None);
    assert_eq!(LocalStrom::Adopted.log_path(), None);
    let ours = LocalStrom::Managed(Managed {
        pid: 5,
        log_path: "l".to_string(),
    });
    assert_eq!(ours.managed_pid(), Some(5));
    assert_eq!(ours.log_path(), Some("l"));
}
