use open_live_ingest::gateway::token::{Auth, Bearer};
use open_live_ingest::openlive::{is_expiring, CachedToken};

#[test]
fn direct_mode_returns_the_key_unchanged() {
    let auth = Auth::new("direct", "static-key").unwrap();
    match auth.bearer(0) {
        Bearer::Present(token) => assert_eq!(token, "static-key"),
        other => panic!("{other:?}"),
    }
}

#[test]
fn an_unknown_mode_is_rejected_rather_than_silently_defaulted() {
    assert!(Auth::new("oauth", "key").is_err());
}

/// A token inside the refresh buffer must be treated as expiring, or a request can go
/// out holding a token that dies in flight.
#[test]
fn token_a_token_expiring_within_the_buffer_is_refreshed() {
    let now = 1_700_000_000u64;
    let almost = CachedToken {
        token: "t".to_string(),
        expires_at: now + 60,
    };
    assert!(is_expiring(&almost, now));

    let fresh = CachedToken {
        token: "t".to_string(),
        expires_at: now + 3600,
    };
    assert!(!is_expiring(&fresh, now));
}

#[test]
fn an_access_token_is_exchanged_once_and_then_presented() {
    let mut auth = Auth::new("osc", "pat").unwrap();
    assert!(matches!(auth.bearer(0), Bearer::Exchange(pat) if pat == "pat"));
    let sent = auth.accept(CachedToken {
        token: "sat".to_string(),
        expires_at: 10_000,
    });
    assert_eq!(sent, "sat");
    match auth.bearer(1) {
        Bearer::Present(token) => assert_eq!(token, "sat"),
        other => panic!("{other:?}"),
    }
    assert!(matches!(auth.bearer(9_999), Bearer::Exchange(_)));
}
