use open_live_ingest::osc::{
    decode, describe_location, exchanged_token, is_current, login_failure, token_from, token_path,
    LoginOutcome, TokenInfo,
};

fn some(s: &str) -> Option<String> {
    Some(s.to_string())
}

/// The CLI itself prefers its environment variable over the saved login, and a gateway
/// reading the same store has to agree with it.
#[test]
fn the_environment_variable_wins_over_the_saved_login() {
    assert_eq!(
        token_from(&some("from-env"), &some("from-file")).as_deref(),
        Some("from-env")
    );
    assert_eq!(
        token_from(&some("  "), &some("from-file")).as_deref(),
        Some("from-file"),
        "a blank variable is no credential"
    );
}

/// A token copied over by hand tends to carry a trailing newline, and the CLI trims its
/// own file, so a byte-exact read would present a token that never works.
#[test]
fn the_saved_login_is_trimmed_and_an_empty_one_is_none() {
    assert_eq!(token_from(&None, &some("  the-token\n")).as_deref(), Some("the-token"));
    assert_eq!(token_from(&None, &some("\n")), None);
}

#[test]
fn no_login_is_none_rather_than_an_error() {
    assert_eq!(token_from(&None, &None), None);
}

#[test]
fn a_configured_token_wins_over_both() {
    assert_eq!(
        exchanged_token(&some("set"), &some("from-env"), &some("from-file")).as_deref(),
        Some("set")
    );
    assert_eq!(
        exchanged_token(&None, &None, &some("from-file")).as_deref(),
        Some("from-file")
    );
}

#[test]
fn the_location_is_named_and_never_the_token() {
    assert_eq!(token_path(&some("/home/op")).as_deref(), Some("/home/op/.osc/token"));
    assert_eq!(describe_location(true, &some("/home/op")), "OSC_ACCESS_TOKEN");
    assert_eq!(describe_location(false, &some("/home/op")), "/home/op/.osc/token");
    assert_eq!(describe_location(false, &None), "~/.osc/token");
}

#[test]
fn a_failed_login_says_why() {
    assert_eq!(login_failure(&LoginOutcome::Success), None);
    assert_eq!(
        login_failure(&LoginOutcome::Exited("exit status: 1".into())).as_deref(),
        Some("`npx @osaas/cli login` exited with exit status: 1")
    );
    assert!(login_failure(&LoginOutcome::NpxMissing).unwrap().contains("Node.js"));
    assert_eq!(
        login_failure(&LoginOutcome::NotRun("denied".into())).as_deref(),
        Some("running the OSC CLI: denied")
    );
}

#[test]
fn a_token_knows_how_long_it_has_left() {
    let info = TokenInfo {
        workspace: None,
        expires_at: Some(100),
    };
    assert_eq!(info.remaining(40), Some(60));
    assert_eq!(info.remaining(140), Some(0));
    assert!(!info.is_expired(99));
    assert!(info.is_expired(100));
    let endless = TokenInfo {
        workspace: None,
        expires_at: None,
    };
    assert_eq!(endless.remaining(0), None);
    assert!(!endless.is_expired(u64::MAX));
}

/// Unpadded, in the alphabet that is safe in addresses.
#[test]
fn base_64_is_read_and_anything_else_refused() {
    assert_eq!(decode("").unwrap(), b"");
    assert_eq!(decode("Zg").unwrap(), b"f");
    assert_eq!(decode("Zm8").unwrap(), b"fo");
    assert_eq!(decode("Zm9v").unwrap(), b"foo");
    assert_eq!(decode("Zm9vYmFy").unwrap(), b"foobar");
    assert_eq!(decode("-_8").unwrap(), [0xFB, 0xFF]);
    assert_eq!(decode("Z"), None);
    assert_eq!(decode("Zg=="), None);
    assert_eq!(decode("+/8"), None);
}

#[test]
fn a_login_that_has_expired_is_not_current() {
    let info = |at| {
        Some(TokenInfo {
            workspace: None,
            expires_at: at,
        })
    };
    assert!(is_current(&None, 10));
    assert!(is_current(&info(None), 10));
    assert!(is_current(&info(Some(11)), 10));
    assert!(!is_current(&info(Some(10)), 10));
}
