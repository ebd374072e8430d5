//! Authentication at the edge, the caller's identity and the settings of the service.

use control_plane::a2a::auth::{
    a2a_auth, base_url, bearer_token, bind_addr, caller, sort_texts, AuthRefusal, Claims,
    DEFAULT_BASE_URL, DEFAULT_BIND,
};
use control_plane::a2a::limits::{
    quota_from_env, HandlerLimits, DEFAULT_MAX_STREAMS_PER_CALLER, DEFAULT_PUSH_CONFIG_CAP,
};
use control_plane::a2a::model::ErrorKind;

fn claims(sub: &str, permissions: &[&str]) -> Claims {
    Claims {
        sub: sub.to_string(),
        permissions: permissions.iter().map(|p| p.to_string()).collect(),
    }
}

#[test]
fn quota_defaults_and_clamps() {
    let q = quota_from_env(None, None);
    assert_eq!(q.max, 20);
    assert_eq!(q.window_secs, 3600);

    let q = quota_from_env(Some("0"), Some("-5"));
    assert_eq!(
        q.max, 1,
        "a non-positive max is clamped to 1 (never unbounded)"
    );
    assert_eq!(q.window_secs, 1);

    let q = quota_from_env(Some("7"), Some("60"));
    assert_eq!((q.max, q.window_secs), (7, 60));

    // What is no number gives way to the default.
    let q = quota_from_env(Some("many"), Some(""));
    assert_eq!((q.max, q.window_secs), (20, 3600));
}

#[test]
fn bind_and_base_url_fallbacks() {
    assert_eq!(bind_addr(None), DEFAULT_BIND);
    assert_eq!(bind_addr(Some("   ")), DEFAULT_BIND);
    assert_eq!(bind_addr(Some("127.0.0.1:18080")), "127.0.0.1:18080");

    assert!(base_url(None).starts_with("http"));
    assert_eq!(base_url(Some("")), DEFAULT_BASE_URL);
    assert_eq!(base_url(Some("https://a2a.example")), "https://a2a.example");
}

#[test]
fn limits_fall_back_on_their_defaults() {
    let limits = HandlerLimits::from_env(None, None);
    assert_eq!(limits, HandlerLimits::default());
    assert_eq!(limits.push_config_cap, DEFAULT_PUSH_CONFIG_CAP);
    assert_eq!(limits.max_streams_per_caller, DEFAULT_MAX_STREAMS_PER_CALLER);
    let limits = HandlerLimits::from_env(Some("3"), Some("5"));
    assert_eq!((limits.push_config_cap, limits.max_streams_per_caller), (3, 5));
    let limits = HandlerLimits::from_env(Some("0"), Some("-1"));
    assert_eq!(limits, HandlerLimits::default());
}

#[test]
fn a_bearer_token_follows_its_scheme() {
    assert_eq!(bearer_token(Some("Bearer abc.def")), Some("abc.def"));
    assert_eq!(bearer_token(Some("Bearer ")), Some(""));
    assert_eq!(bearer_token(Some("bearer abc")), None);
    assert_eq!(bearer_token(Some("Basic abc")), None);
    assert_eq!(bearer_token(None), None);
}

/// A valid bearer passes, and the downstream sees the identity and the permissions that the token
/// carried.
#[test]
fn valid_token_injects_verified_identity_and_ignores_spoof() {
    let headers =
        a2a_auth(Some(Some(claims("svc-account-9", &["other:perm", "a2a:review"])))).unwrap();
    assert_eq!(
        format!("{}|{}", headers.caller, headers.perms),
        "svc-account-9|a2a:review,other:perm"
    );
}

#[test]
fn who_is_not_identified_is_refused() {
    assert_eq!(a2a_auth(None).unwrap_err(), AuthRefusal::MissingToken);
    assert_eq!(a2a_auth(Some(None)).unwrap_err(), AuthRefusal::InvalidToken);
    assert_eq!(
        a2a_auth(Some(Some(claims("line\nbreak", &[])))).unwrap_err(),
        AuthRefusal::UnrepresentableIdentity
    );
    assert_eq!(
        a2a_auth(Some(Some(claims("svc", &["a\u{7f}b"])))).unwrap_err(),
        AuthRefusal::UnrepresentableIdentity
    );
    assert_eq!(AuthRefusal::MissingToken.message(), "missing bearer token");
    assert_eq!(AuthRefusal::InvalidToken.message(), "invalid token");
    assert_eq!(AuthRefusal::UnrepresentableIdentity.message(), "unrepresentable identity");
}

#[test]
fn permissions_survive_the_header() {
    let headers = a2a_auth(Some(Some(claims("svc", &["b", "a"])))).unwrap();
    let ctx = caller(Some(&headers.caller), Some(&headers.perms)).unwrap();
    assert_eq!(ctx.id, "svc");
    assert_eq!(ctx.perms, vec!["a", "b"]);
    assert!(ctx.has("a"));
    assert!(!ctx.has("c"));
}

#[test]
fn a_request_without_identity_has_no_caller() {
    for id in [None, Some("")] {
        let err = caller(id, Some("a2a:review")).unwrap_err();
        assert_eq!(err.kind, ErrorKind::Internal);
        assert_eq!(err.message, "a2a: missing authenticated caller");
    }
    assert!(caller(Some("svc"), None).unwrap().perms.is_empty());
    assert_eq!(caller(Some("svc"), Some("a,,b,")).unwrap().perms, vec!["a", "b"]);
}

#[test]
fn texts_are_sorted_by_code_point() {
    let texts = ["b", "", "é", "a", "Z", "a"].iter().map(|s| s.to_string()).collect();
    assert_eq!(sort_texts(texts), vec!["", "Z", "a", "a", "b", "é"]);
}
