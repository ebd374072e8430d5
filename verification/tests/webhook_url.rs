//! The checks on a caller's webhook URL.

use control_plane::a2a::ssrf::{
    is_blocked, judge_webhook, to_ipv4, validate_webhook_url, ResolveError, SsrfError, SsrfPolicy,
    ValidatedWebhook,
};
use control_plane::net::{IpAddr, IpNet, ParsedUrl};

/// A resolver that must never be called — used for literal-IP URLs (which need no DNS) and for
/// checks that reject before resolution (scheme/port).
fn never_resolve(_host: &str) -> Result<Vec<IpAddr>, ResolveError> {
    panic!("resolver must not be called for this input");
}

/// A resolver returning a fixed address set for any host.
fn resolver_to(addrs: Vec<IpAddr>) -> impl Fn(&str) -> Result<Vec<IpAddr>, ResolveError> {
    move |_host| Ok(addrs.clone())
}

fn public_v4() -> IpAddr {
    // 93.184.216.34 (example.com) — not in any blocked range.
    IpAddr::v4(93, 184, 216, 34)
}

fn validate(raw: &str) -> Result<ValidatedWebhook, SsrfError> {
    validate_webhook_url(raw, &SsrfPolicy::default(), never_resolve)
}

// ---- accept paths -------------------------------------------------------------------------

#[test]
fn accepts_public_domain_and_pins_the_ip() {
    let out = validate_webhook_url(
        "https://hooks.example.com/a2a",
        &SsrfPolicy::default(),
        resolver_to(vec![public_v4()]),
    )
    .expect("public host accepted");
    assert_eq!(out.pinned_ips, vec![public_v4()]);
    assert_eq!(out.url.scheme, "https");
}

#[test]
fn accepts_literal_public_ip_without_dns() {
    // never_resolve panics if called — proves a literal IP takes no DNS.
    let out = validate("https://93.184.216.34/hook").expect("literal public IP accepted");
    assert_eq!(out.pinned_ips, vec![public_v4()]);
}

#[test]
fn accepts_explicit_443() {
    validate("https://93.184.216.34:443/hook").expect("explicit :443 accepted");
}

// ---- scheme / structure -------------------------------------------------------------------

#[test]
fn rejects_http() {
    assert_eq!(
        validate("http://example.com/").unwrap_err(),
        SsrfError::NotHttps
    );
}

#[test]
fn rejects_other_schemes() {
    for raw in [
        "ftp://example.com/",
        "file:///etc/passwd",
        "gopher://example.com/",
    ] {
        assert_eq!(validate(raw).unwrap_err(), SsrfError::NotHttps, "{raw}");
    }
}

#[test]
fn rejects_malformed_url() {
    for raw in ["not a url", "://nope", "https://exa mple.com/"] {
        assert_eq!(validate(raw).unwrap_err(), SsrfError::InvalidUrl, "{raw}");
    }
}

#[test]
fn rejects_host_less_url() {
    // A special scheme (`https`) REQUIRES a host: the `url` crate rejects an empty authority at
    // parse time, so a host-less URL surfaces as InvalidUrl. (`https:///path` is NOT host-less —
    // WHATWG collapses the empty authority and reads `path` as the host — so it is not this
    // case.) The `MissingHost` variant is a defensive guard for a parsed `host() == None` /
    // empty-domain URL, which https input cannot actually produce; both reject, never accept.
    assert_eq!(validate("https://").unwrap_err(), SsrfError::InvalidUrl);
    assert_eq!(
        validate("https://:443/x").unwrap_err(),
        SsrfError::InvalidUrl
    );
}

#[test]
fn rejects_non_443_port() {
    assert_eq!(
        validate("https://93.184.216.34:8443/hook").unwrap_err(),
        SsrfError::DisallowedPort(8443)
    );
    assert_eq!(
        validate("https://example.com:80/hook").unwrap_err(),
        SsrfError::DisallowedPort(80)
    );
}

// ---- resolution edge cases ----------------------------------------------------------------

#[test]
fn resolver_error_is_resolution() {
    let err = validate_webhook_url("https://example.com/", &SsrfPolicy::default(), |_h| {
        Err(ResolveError)
    })
    .unwrap_err();
    assert_eq!(err, SsrfError::Resolution);
}

#[test]
fn empty_resolution_is_no_addresses() {
    let err = validate_webhook_url(
        "https://example.com/",
        &SsrfPolicy::default(),
        resolver_to(vec![]),
    )
    .unwrap_err();
    assert_eq!(err, SsrfError::NoAddresses);
}

// ---- any-blocked-rejects ------------------------------------------------------------------

#[test]
fn any_blocked_address_rejects_the_whole_set() {
    let private = IpAddr::v4(10, 0, 0, 1);
    // [public, private] and [private, public] both reject — never cherry-pick the public one.
    let a = validate_webhook_url(
        "https://mixed.example.com/",
        &SsrfPolicy::default(),
        resolver_to(vec![public_v4(), private]),
    )
    .unwrap_err();
    assert_eq!(a, SsrfError::BlockedAddress(private));
    let b = validate_webhook_url(
        "https://mixed.example.com/",
        &SsrfPolicy::default(),
        resolver_to(vec![private, public_v4()]),
    )
    .unwrap_err();
    assert_eq!(b, SsrfError::BlockedAddress(private));
}

// ---- IPv4 blocked ranges (literal IP, no DNS) ---------------------------------------------

/// Assert a literal-IP webhook URL is rejected as a blocked address (resolver never called).
fn assert_v4_blocked(a: u8, b: u8, c: u8, d: u8) {
    let raw = format!("https://{a}.{b}.{c}.{d}/hook");
    let err = validate(&raw).unwrap_err();
    assert_eq!(
        err,
        SsrfError::BlockedAddress(IpAddr::v4(a, b, c, d)),
        "{raw} should be blocked"
    );
}

#[test]
fn blocks_ipv4_ranges() {
    assert_v4_blocked(0, 0, 0, 0); // 0.0.0.0/8 unspecified / this-network
    assert_v4_blocked(0, 1, 2, 3); // 0.0.0.0/8 non-zero
    assert_v4_blocked(127, 0, 0, 1); // loopback
    assert_v4_blocked(10, 0, 0, 1); // 10/8 private
    assert_v4_blocked(172, 16, 5, 4); // 172.16/12 private
    assert_v4_blocked(172, 31, 255, 254); // 172.16/12 upper edge
    assert_v4_blocked(192, 168, 1, 1); // 192.168/16 private
    assert_v4_blocked(169, 254, 0, 1); // 169.254/16 link-local
    assert_v4_blocked(100, 64, 0, 1); // 100.64/10 CGNAT lower edge
    assert_v4_blocked(100, 127, 255, 254); // 100.64/10 CGNAT upper edge
    assert_v4_blocked(198, 18, 0, 1); // 198.18/15 benchmarking
    assert_v4_blocked(198, 19, 0, 1); // 198.18/15 benchmarking
    assert_v4_blocked(224, 0, 0, 1); // 224/4 multicast
    assert_v4_blocked(239, 255, 255, 255); // 224/4 multicast upper edge
    assert_v4_blocked(240, 0, 0, 1); // 240/4 reserved
    assert_v4_blocked(255, 255, 255, 255); // limited broadcast
}

/// The cloud-metadata IP specifically — the single most important address to block.
#[test]
fn blocks_cloud_metadata_ip() {
    assert_v4_blocked(169, 254, 169, 254);
}

/// A CGNAT-adjacent but PUBLIC address must NOT be blocked (guards against an over-broad mask):
/// 100.63.x is below 100.64/10, and 100.128.x is above it.
#[test]
fn allows_cgnat_adjacent_public() {
    validate("https://100.63.255.255/hook").expect("100.63/x is public");
    validate("https://100.128.0.1/hook").expect("100.128/x is public");
}

// ---- IPv6 blocked ranges ------------------------------------------------------------------

fn assert_v6_blocked(literal: &str, expect: u128) {
    let raw = format!("https://[{literal}]/hook");
    let err = validate(&raw).unwrap_err();
    assert_eq!(err, SsrfError::BlockedAddress(IpAddr::V6(expect)), "{raw}");
}

#[test]
fn blocks_ipv6_ranges() {
    assert_v6_blocked("::", 0); // unspecified
    assert_v6_blocked("::1", 1); // loopback
    assert_v6_blocked("fc00::1", 0xfc00_0000_0000_0000_0000_0000_0000_0001); // ULA lower
    assert_v6_blocked("fdff::1", 0xfdff_0000_0000_0000_0000_0000_0000_0001); // ULA upper (fc00::/7)
    assert_v6_blocked("fe80::1", 0xfe80_0000_0000_0000_0000_0000_0000_0001); // link-local
    assert_v6_blocked("febf::1", 0xfebf_0000_0000_0000_0000_0000_0000_0001); // link-local upper (fe80::/10)
    assert_v6_blocked("ff02::1", 0xff02_0000_0000_0000_0000_0000_0000_0001); // multicast
    assert_v6_blocked("2001:db8::1", 0x2001_0db8_0000_0000_0000_0000_0000_0001); // documentation
}

#[test]
fn allows_public_ipv6() {
    // 2606:4700:4700::1111 (Cloudflare) — global unicast, not in any blocked range.
    validate("https://[2606:4700:4700::1111]/hook").expect("public v6 accepted");
}

// ---- IPv4-mapped / compatible IPv6 bypass -------------------------------------------------

#[test]
fn blocks_ipv4_mapped_private_and_metadata() {
    // ::ffff:10.0.0.1 and ::ffff:169.254.169.254 must be blocked exactly like the bare v4.
    let raw = "https://[::ffff:10.0.0.1]/hook";
    assert!(
        matches!(validate(raw).unwrap_err(), SsrfError::BlockedAddress(_)),
        "{raw}"
    );
    let meta = "https://[::ffff:169.254.169.254]/hook";
    assert!(
        matches!(validate(meta).unwrap_err(), SsrfError::BlockedAddress(_)),
        "{meta}"
    );
}

// ---- configurable extra deny-list ---------------------------------------------------------

#[test]
fn extra_cidr_blocks_otherwise_public_address() {
    // 203.0.113.0/24 (TEST-NET-3) is public per the fixed table; a simulated cluster CIDR entry
    // must block 203.0.113.5, while the default policy accepts it.
    validate("https://203.0.113.5/hook").expect("public by fixed table");

    let policy = SsrfPolicy::with_extra_denied(vec![IpNet::new(IpAddr::v4(203, 0, 113, 0), 24).unwrap()]);
    let err =
        validate_webhook_url("https://203.0.113.5/hook", &policy, never_resolve).unwrap_err();
    assert_eq!(
        err,
        SsrfError::BlockedAddress(IpAddr::v4(203, 0, 113, 5))
    );
}

#[test]
fn extra_cidr_also_blocks_ipv4_mapped_form() {
    // The mapped form ::ffff:203.0.113.5 must not slip past a v4 extra-CIDR entry.
    let policy = SsrfPolicy::with_extra_denied(vec![IpNet::new(IpAddr::v4(203, 0, 113, 0), 24).unwrap()]);
    let err = validate_webhook_url("https://[::ffff:203.0.113.5]/hook", &policy, never_resolve)
        .unwrap_err();
    assert!(matches!(err, SsrfError::BlockedAddress(_)));
}

// ---- display ------------------------------------------------------------------------------

#[test]
fn error_display_is_clear() {
    assert_eq!(
        SsrfError::NotHttps.message(),
        "webhook URL must use the https scheme"
    );
    assert_eq!(
        SsrfError::DisallowedPort(8443).message(),
        "webhook URL port 8443 is not allowed (only 443)"
    );
    assert_eq!(
        SsrfError::BlockedAddress(IpAddr::v4(10, 0, 0, 1)).message(),
        "webhook host resolves to a blocked address 10.0.0.1"
    );
}

#[test]
fn every_refusal_has_its_sentence() {
    assert_eq!(SsrfError::InvalidUrl.message(), "webhook URL did not parse");
    assert_eq!(SsrfError::MissingHost.message(), "webhook URL has no host");
    assert_eq!(SsrfError::Resolution.message(), "webhook host could not be resolved");
    assert_eq!(SsrfError::NoAddresses.message(), "webhook host resolved to no addresses");
    assert_eq!(
        SsrfError::BlockedAddress(IpAddr::V6(1)).message(),
        "webhook host resolves to a blocked address ::1"
    );
}

#[test]
fn a_url_without_a_host_is_missing_one() {
    let url = ParsedUrl {
        scheme: "https".to_string(),
        host: None,
        port: Some(443),
        text: "https:".to_string(),
    };
    let err = judge_webhook(Ok(url), Err(ResolveError), &SsrfPolicy::default()).unwrap_err();
    assert_eq!(err, SsrfError::MissingHost);
}

#[test]
fn compatible_ipv6_of_a_private_address_is_blocked() {
    // ::10.0.0.1, the deprecated compatible form.
    assert!(is_blocked(IpAddr::V6(0x0a00_0001), &SsrfPolicy::default()));
    assert_eq!(to_ipv4(0x0a00_0001), Some(0x0a00_0001));
    assert_eq!(to_ipv4(0xffff_0a00_0001), Some(0x0a00_0001));
    assert_eq!(to_ipv4(0x2001_0db8_0000_0000_0000_0000_0000_0001), None);
}

#[test]
fn a_v6_network_denies_its_own_range_only() {
    let net = IpNet::new(IpAddr::V6(0x2606_4700_0000_0000_0000_0000_0000_0000), 32).unwrap();
    assert!(net.contains(IpAddr::V6(0x2606_4700_4700_0000_0000_0000_0000_1111)));
    assert!(!net.contains(IpAddr::V6(0x2606_4701_0000_0000_0000_0000_0000_0001)));
    assert!(!net.contains(IpAddr::v4(38, 6, 71, 0)));
    let policy = SsrfPolicy::with_extra_denied(vec![net]);
    let err = validate_webhook_url("https://[2606:4700:4700::1111]/hook", &policy, never_resolve)
        .unwrap_err();
    assert!(matches!(err, SsrfError::BlockedAddress(IpAddr::V6(_))));
    // A prefix wider than the address is no network.
    assert!(IpNet::new(IpAddr::v4(10, 0, 0, 0), 33).is_none());
    assert!(IpNet::new(IpAddr::V6(0), 129).is_none());
}

#[test]
fn the_resolver_is_asked_for_the_parsed_name() {
    // The parser lower-cases the name before it is resolved.
    let out = validate_webhook_url("https://HOOKS.Example.com/a", &SsrfPolicy::default(), |host| {
        assert_eq!(host, "hooks.example.com");
        Ok(vec![public_v4()])
    })
    .unwrap();
    assert_eq!(out.url.text, "https://hooks.example.com/a");
}
