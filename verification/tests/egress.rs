//! The routing of posts to the egress service.

use control_plane::config::{EgressMode, EgressSection};
use control_plane::egress::{announced, egress_key, send_url, PlatformEgressRouter, Router};
use control_plane::platform::Platform;

#[test]
fn egress_key_is_platform_colon_installation() {
    assert_eq!(egress_key(Platform::GitHub, 12345), "github:12345");
    assert_eq!(egress_key(Platform::GitLab, 42), "gitlab:42");
}

#[test]
fn send_url_matches_the_served_object_and_handler() {
    // Guards the wire path against drift from the served `PlatformEgress::post` object.
    assert_eq!(
        send_url("http://restate:8080", "github:99"),
        "http://restate:8080/PlatformEgress/github:99/post/send"
    );
}

#[test]
fn default_mode_builds_a_drain_router_that_does_not_announce() {
    let router = PlatformEgressRouter::from_config(&EgressSection::default(), None)
        .expect("drain is the default and needs no ingress URL");
    assert!(
        !router.is_restate(),
        "the default egress mode must be the drain (no behavior change on merge)"
    );
    assert!(!PlatformEgressRouter::disabled().is_restate());
}

#[test]
fn restate_mode_requires_an_ingress_url() {
    // No URL configured and none in the environment → fail loud.
    let section = EgressSection {
        mode: EgressMode::Restate,
        restate_ingress_url: None,
    };
    let err = PlatformEgressRouter::from_config(&section, None)
        .expect_err("restate mode without an ingress URL must fail");
    assert!(
        err.message.contains("restate_ingress_url"),
        "the error should name the missing setting: {}",
        err.message
    );
}

#[test]
fn restate_mode_trims_trailing_slash_from_the_configured_url() {
    let section = EgressSection {
        mode: EgressMode::Restate,
        restate_ingress_url: Some("http://restate:8080/".to_string()),
    };
    let router = PlatformEgressRouter::from_config(&section, None).expect("valid restate config");
    assert!(router.is_restate());
    // The trailing slash is trimmed so `send_url` doesn't produce a `//`.
    let Router::Restate(ingress_base) = &router.inner else {
        unreachable!("just asserted restate")
    };
    assert_eq!(ingress_base, "http://restate:8080");
}

#[test]
fn egress_mode_parses_from_config_json() {
    // The flag is spelled `drain` | `restate` (lowercase) in the config file.
    let drain = EgressMode::from_name(&parsed("\"drain\"")).unwrap();
    assert_eq!(drain, EgressMode::Drain);
    let restate = EgressMode::from_name(&parsed("\"restate\"")).unwrap();
    assert_eq!(restate, EgressMode::Restate);
    assert_eq!(EgressMode::default(), EgressMode::Drain);
}

fn parsed(json: &str) -> String {
    serde_json::from_str(json).unwrap()
}

fn restate(url: &str) -> PlatformEgressRouter {
    let section = EgressSection {
        mode: EgressMode::Restate,
        restate_ingress_url: Some(url.to_string()),
    };
    PlatformEgressRouter::from_config(&section, None).unwrap()
}

#[test]
fn an_unknown_mode_has_no_name() {
    assert!(EgressMode::from_name("Drain").is_none());
    assert!(EgressMode::from_name("").is_none());
}

#[test]
fn the_environment_fills_in_for_the_file() {
    let section = EgressSection { mode: EgressMode::Restate, restate_ingress_url: None };
    let router = PlatformEgressRouter::from_config(&section, Some("http://env:8080//")).unwrap();
    assert!(matches!(&router.inner, Router::Restate(base) if base == "http://env:8080"));
    assert!(PlatformEgressRouter::from_config(&section, Some("")).is_err());
    // The file wins.
    let section = EgressSection {
        mode: EgressMode::Restate,
        restate_ingress_url: Some("http://file:8080".to_string()),
    };
    let router = PlatformEgressRouter::from_config(&section, Some("http://env:8080")).unwrap();
    assert!(matches!(&router.inner, Router::Restate(base) if base == "http://file:8080"));
}

#[test]
fn an_announcement_goes_to_the_installation_under_its_dedup_key() {
    let router = restate("http://restate:8080/");
    let a = router.announce(Platform::GitHub, 7, "dedup-1", Some(42)).unwrap();
    assert_eq!(a.url, "http://restate:8080/PlatformEgress/github:7/post/send");
    assert_eq!(a.idempotency_key, "dedup-1");
    assert_eq!(a.outbox_id, 42);
    // Without a row there is nothing to announce; the drain announces nothing at all.
    assert!(router.announce(Platform::GitHub, 7, "dedup-1", None).is_none());
    assert!(PlatformEgressRouter::disabled()
        .announce(Platform::GitHub, 7, "dedup-1", Some(42))
        .is_none());
}

#[test]
fn a_refused_announcement_names_status_and_url() {
    assert!(announced(true, "202 Accepted", "http://r/x", "").is_ok());
    let err = announced(false, "503 Service Unavailable", "http://r/x", "busy").unwrap_err();
    assert!(err.message.contains("503 Service Unavailable"));
    assert!(err.message.contains("http://r/x"));
    assert!(err.message.contains("busy"));
}

#[test]
fn installations_have_keys_of_their_own() {
    assert_ne!(egress_key(Platform::GitHub, 1), egress_key(Platform::GitLab, 1));
    assert_ne!(egress_key(Platform::GitHub, 1), egress_key(Platform::GitHub, 11));
    assert_eq!(egress_key(Platform::Bitbucket, -5), "bitbucket:-5");
}
