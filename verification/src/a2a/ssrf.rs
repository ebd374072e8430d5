//! Webhook-URL validation for push notifications: a webhook is caller input that points this service
//! at an address, so only HTTPS on the standard port, to hosts that resolve to public addresses
//! alone, is accepted.
//!
//! The denied ranges are spelled out one by one; `ipnet` serves only the operator's own list. Name
//! resolution is handed in, so a literal address needs none.

use vstd::prelude::*;

use crate::net::{
    ip_text, url_of_text, HostView, IpAddr, IpNet, ParsedUrl, UrlHost, UrlView,
};
use crate::{net, text};

verus! {

/// The one port a webhook may use.
pub const ALLOWED_PORT: u16 = 443;

/// The operator's deny-list, on top of the fixed ranges that are always denied.
#[derive(Debug)]
pub struct SsrfPolicy {
    /// Networks to deny beyond the fixed ranges, such as the cluster's own.
    pub extra_denied_cidrs: Vec<IpNet>,
}

impl SsrfPolicy {
    /// A policy that denies the fixed ranges and the given networks.
    pub fn with_extra_denied(extra_denied_cidrs: Vec<IpNet>) -> (r: SsrfPolicy)
        ensures
            r.extra_denied_cidrs@ == extra_denied_cidrs@,
    {
        SsrfPolicy { extra_denied_cidrs }
    }

    /// Whether one of the operator's networks holds the address.
    pub open spec fn denies(self, ip: IpAddr) -> bool {
        exists|i: int|
            0 <= i < self.extra_denied_cidrs@.len() && (
            #[trigger] self.extra_denied_cidrs@[i]).holds(ip)
    }
}

impl Default for SsrfPolicy {
    /// The fixed ranges alone.
    fn default() -> (r: SsrfPolicy)
        ensures
            r.extra_denied_cidrs@.len() == 0,
    {
        SsrfPolicy { extra_denied_cidrs: Vec::new() }
    }
}

/// A webhook URL that passed the whole policy, with the addresses to connect to.
#[derive(Debug)]
pub struct ValidatedWebhook {
    pub url: ParsedUrl,
    /// Every address the host resolved to; all of them public.
    pub pinned_ips: Vec<IpAddr>,
}

/// Why a webhook URL was refused.
#[derive(Clone, Copy, Debug, PartialEq, Eq, Structural)]
pub enum SsrfError {
    /// The text is no URL.
    InvalidUrl,
    /// The scheme is not `https`.
    NotHttps,
    /// The URL names no host.
    MissingHost,
    /// The port is not the standard one.
    DisallowedPort(u16),
    /// The host could not be resolved.
    Resolution,
    /// An address of the host lies in a denied range.
    BlockedAddress(IpAddr),
    /// The host resolved to no address.
    NoAddresses,
}

/// A name that could not be resolved.
#[derive(Clone, Copy, Debug, PartialEq, Eq, Structural)]
pub struct ResolveError;

/// The sentence a refusal is answered with.
pub open spec fn ssrf_message(e: SsrfError) -> Seq<char> {
    match e {
        SsrfError::InvalidUrl => "webhook URL did not parse"@,
        SsrfError::NotHttps => "webhook URL must use the https scheme"@,
        SsrfError::MissingHost => "webhook URL has no host"@,
        SsrfError::DisallowedPort(p) => "webhook URL port "@ + text::decimal(p as int)
            + " is not allowed (only 443)"@,
        SsrfError::Resolution => "webhook host could not be resolved"@,
        SsrfError::BlockedAddress(ip) => "webhook host resolves to a blocked address "@ + ip_text(
            ip,
        ),
        SsrfError::NoAddresses => "webhook host resolved to no addresses"@,
    }
}

impl SsrfError {
    /// The sentence a refusal is answered with.
    pub fn message(&self) -> (r: String)
        ensures
            r@ == ssrf_message(*self),
    {
        match *self {
            SsrfError::InvalidUrl => "webhook URL did not parse".to_owned(),
            SsrfError::NotHttps => "webhook URL must use the https scheme".to_owned(),
            SsrfError::MissingHost => "webhook URL has no host".to_owned(),
            SsrfError::DisallowedPort(p) => {
                let mut r: String = "webhook URL port ".to_owned();
                r.append(text::u64_text(p as u64).as_str());
                r.append(" is not allowed (only 443)");
                r
            },
            SsrfError::Resolution => "webhook host could not be resolved".to_owned(),
            SsrfError::BlockedAddress(ip) => {
                let mut r: String = "webhook host resolves to a blocked address ".to_owned();
                r.append(net::display_ip(ip).as_str());
                r
            },
            SsrfError::NoAddresses => "webhook host resolved to no addresses".to_owned(),
        }
    }
}

/// The denied IPv4 ranges.
pub open spec fn blocked_v4(ip: u32) -> bool {
    ||| ip <= 0x00ff_ffff  // 0.0.0.0/8, this network
    ||| 0x7f00_0000 <= ip <= 0x7fff_ffff  // 127.0.0.0/8, loopback
    ||| 0x0a00_0000 <= ip <= 0x0aff_ffff  // 10.0.0.0/8, private
    ||| 0xac10_0000 <= ip <= 0xac1f_ffff  // 172.16.0.0/12, private
    ||| 0xc0a8_0000 <= ip <= 0xc0a8_ffff  // 192.168.0.0/16, private
    ||| 0xa9fe_0000 <= ip <= 0xa9fe_ffff  // 169.254.0.0/16, link-local with the metadata address
    ||| 0x6440_0000 <= ip <= 0x647f_ffff  // 100.64.0.0/10, carrier-grade NAT
    ||| 0xc612_0000 <= ip <= 0xc613_ffff  // 198.18.0.0/15, benchmarking
    ||| 0xe000_0000 <= ip <= 0xefff_ffff  // 224.0.0.0/4, multicast
    ||| 0xf000_0000 <= ip  // 240.0.0.0/4, reserved and broadcast

}

/// The IPv4 address inside an IPv4-mapped (`::ffff:a.b.c.d`) or IPv4-compatible (`::a.b.c.d`) one.
pub open spec fn embedded_v4(ip: u128) -> Option<u32> {
    if ip < 0x1_0000_0000 {
        Some(ip as u32)
    } else if 0xffff_0000_0000 <= ip < 0x1_0000_0000_0000 {
        Some((ip - 0xffff_0000_0000) as u32)
    } else {
        None
    }
}

/// The denied IPv6 ranges; an embedded IPv4 address is judged as that address.
pub open spec fn blocked_v6(ip: u128) -> bool {
    ||| ip == 0  // ::, unspecified
    ||| ip == 1  // ::1, loopback
    ||| 0xff00_0000_0000_0000_0000_0000_0000_0000 <= ip  // ff00::/8, multicast
    ||| 0xfc00_0000_0000_0000_0000_0000_0000_0000 <= ip
        < 0xfe00_0000_0000_0000_0000_0000_0000_0000  // fc00::/7, unique local
    ||| 0xfe80_0000_0000_0000_0000_0000_0000_0000 <= ip
        < 0xfec0_0000_0000_0000_0000_0000_0000_0000  // fe80::/10, link-local
    ||| 0x2001_0db8_0000_0000_0000_0000_0000_0000 <= ip
        < 0x2001_0db9_0000_0000_0000_0000_0000_0000  // 2001:db8::/32, documentation
    ||| embedded_v4(ip) matches Some(v4) && blocked_v4(v4)
}

/// Whether an address may not be connected to under a policy. An embedded IPv4 address is also held
/// against the operator's list.
pub open spec fn blocked(ip: IpAddr, policy: SsrfPolicy) -> bool {
    ||| policy.denies(ip)
    ||| match ip {
        IpAddr::V4(v4) => blocked_v4(v4),
        IpAddr::V6(v6) => blocked_v6(v6) || (embedded_v4(v6) matches Some(v4) && policy.denies(
            IpAddr::V4(v4),
        )),
    }
}

/// Whether an IPv4 address lies in a fixed denied range.
pub fn is_blocked_v4(ip: u32) -> (r: bool)
    ensures
        r == blocked_v4(ip),
{
    let first: u32 = ip / 0x100_0000;
    let second: u32 = ip / 0x1_0000 % 0x100;
    if first == 0 {
        return true;
    }
    if first == 127 {
        return true;
    }
    if first == 10 || (first == 172 && 16 <= second && second <= 31) || (first == 192 && second
        == 168) {
        return true;
    }
    if first == 169 && second == 254 {
        return true;
    }
    if first == 100 && 64 <= second && second <= 127 {
        return true;
    }
    if first == 198 && (second == 18 || second == 19) {
        return true;
    }
    if 224 <= first && first <= 239 {
        return true;
    }
    first >= 240
}

/// The IPv4 address inside a mapped or compatible IPv6 address.
pub fn to_ipv4(ip: u128) -> (r: Option<u32>)
    ensures
        r == embedded_v4(ip),
{
    if ip < 0x1_0000_0000 {
        Some(ip as u32)
    } else if 0xffff_0000_0000 <= ip && ip < 0x1_0000_0000_0000 {
        Some((ip - 0xffff_0000_0000) as u32)
    } else {
        None
    }
}

/// Whether an IPv6 address lies in a fixed denied range.
pub fn is_blocked_v6(ip: u128) -> (r: bool)
    ensures
        r == blocked_v6(ip),
{
    if ip == 0 || ip == 1 {
        return true;
    }
    if ip >= 0xff00_0000_0000_0000_0000_0000_0000_0000 {
        return true;
    }
    if 0xfc00_0000_0000_0000_0000_0000_0000_0000 <= ip && ip
        < 0xfe00_0000_0000_0000_0000_0000_0000_0000 {
        return true;
    }
    if 0xfe80_0000_0000_0000_0000_0000_0000_0000 <= ip && ip
        < 0xfec0_0000_0000_0000_0000_0000_0000_0000 {
        return true;
    }
    if 0x2001_0db8_0000_0000_0000_0000_0000_0000 <= ip && ip
        < 0x2001_0db9_0000_0000_0000_0000_0000_0000 {
        return true;
    }
    match to_ipv4(ip) {
        Some(v4) => is_blocked_v4(v4),
        None => false,
    }
}

fn denied(policy: &SsrfPolicy, ip: IpAddr) -> (r: bool)
    ensures
        r == policy.denies(ip),
{
    let mut i: usize = 0;
    while i < policy.extra_denied_cidrs.len()
        invariant
            i <= policy.extra_denied_cidrs@.len(),
            forall|k: int|
                0 <= k < i ==> !(#[trigger] policy.extra_denied_cidrs@[k]).holds(ip),
        decreases policy.extra_denied_cidrs@.len() - i,
    {
        if policy.extra_denied_cidrs[i].contains(ip) {
            return true;
        }
        i = i + 1;
    }
    false
}

/// Whether an address may not be connected to under a policy.
pub fn is_blocked(ip: IpAddr, policy: &SsrfPolicy) -> (r: bool)
    ensures
        r == blocked(ip, *policy),
{
    let fixed: bool = match ip {
        IpAddr::V4(v4) => is_blocked_v4(v4),
        IpAddr::V6(v6) => is_blocked_v6(v6),
    };
    if fixed || denied(policy, ip) {
        return true;
    }
    match ip {
        IpAddr::V4(_) => false,
        IpAddr::V6(v6) => match to_ipv4(v6) {
            Some(v4) => denied(policy, IpAddr::V4(v4)),
            None => false,
        },
    }
}

/// Where a URL that is structurally sound points.
#[derive(Debug)]
pub enum WebhookTarget {
    /// A literal address.
    Address(IpAddr),
    /// A name to resolve.
    Name(String),
}

/// What stands against a URL before its host is looked at, in the order of the checks.
pub open spec fn structural_error(url: UrlView) -> Option<SsrfError> {
    if url.scheme != "https"@ {
        Some(SsrfError::NotHttps)
    } else if url.host is None {
        Some(SsrfError::MissingHost)
    } else if url.port matches Some(p) && p != ALLOWED_PORT {
        Some(SsrfError::DisallowedPort(url.port->0))
    } else if url.host == Some(HostView::Domain(Seq::empty())) {
        Some(SsrfError::MissingHost)
    } else {
        None
    }
}

/// Checks scheme, host and port of a parsed URL and says where it points.
pub fn webhook_target(url: &ParsedUrl) -> (r: Result<WebhookTarget, SsrfError>)
    ensures
        r is Err <==> structural_error(url@) is Some,
        r matches Err(e) ==> structural_error(url@) == Some(e),
        r matches Ok(target) ==> match target {
            WebhookTarget::Address(IpAddr::V4(n)) => url@.host == Some(HostView::V4(n)),
            WebhookTarget::Address(IpAddr::V6(n)) => url@.host == Some(HostView::V6(n)),
            WebhookTarget::Name(name) => url@.host == Some(HostView::Domain(name@)),
        },
{
    if !text::same(url.scheme.as_str(), "https") {
        return Err(SsrfError::NotHttps);
    }
    let host = match &url.host {
        Some(host) => host,
        None => return Err(SsrfError::MissingHost),
    };
    if let Some(port) = url.port {
        if port != ALLOWED_PORT {
            return Err(SsrfError::DisallowedPort(port));
        }
    }
    match host {
        UrlHost::V4(n) => Ok(WebhookTarget::Address(IpAddr::V4(*n))),
        UrlHost::V6(n) => Ok(WebhookTarget::Address(IpAddr::V6(*n))),
        UrlHost::Domain(name) => {
            if name.as_str().is_empty() {
                assert(name@ =~= Seq::empty());
                return Err(SsrfError::MissingHost);
            }
            Ok(WebhookTarget::Name(name.clone()))
        },
    }
}

/// What stands against a resolved address set: the first denied address rejects all of it.
pub open spec fn address_error(addrs: Seq<IpAddr>, policy: SsrfPolicy) -> Option<SsrfError>
    decreases addrs.len(),
{
    if addrs.len() == 0 {
        Some(SsrfError::NoAddresses)
    } else {
        first_blocked(addrs, policy)
    }
}

/// The first denied address of a set, as the error it raises.
pub open spec fn first_blocked(addrs: Seq<IpAddr>, policy: SsrfPolicy) -> Option<SsrfError>
    decreases addrs.len(),
{
    if addrs.len() == 0 {
        None
    } else if blocked(addrs[0], policy) {
        Some(SsrfError::BlockedAddress(addrs[0]))
    } else {
        first_blocked(addrs.drop_first(), policy)
    }
}

proof fn lemma_first_blocked_skips(addrs: Seq<IpAddr>, policy: SsrfPolicy, n: int)
    requires
        0 <= n <= addrs.len(),
        forall|i: int| 0 <= i < n ==> !blocked(#[trigger] addrs[i], policy),
    ensures
        first_blocked(addrs, policy) == first_blocked(addrs.skip(n), policy),
    decreases n,
{
    if n > 0 {
        let rest = addrs.drop_first();
        assert forall|i: int| 0 <= i < n - 1 implies !blocked(#[trigger] rest[i], policy) by {
            assert(rest[i] == addrs[i + 1]);
        }
        lemma_first_blocked_skips(rest, policy, n - 1);
        assert(rest.skip(n - 1) =~= addrs.skip(n));
        assert(!blocked(addrs[0], policy));
    } else {
        assert(addrs.skip(0) =~= addrs);
    }
}

/// Judges the whole address set of a host.
pub fn check_addresses(addrs: &Vec<IpAddr>, policy: &SsrfPolicy) -> (r: Result<(), SsrfError>)
    ensures
        r is Err <==> address_error(addrs@, *policy) is Some,
        r matches Err(e) ==> address_error(addrs@, *policy) == Some(e),
{
    if addrs.len() == 0 {
        return Err(SsrfError::NoAddresses);
    }
    let mut i: usize = 0;
    while i < addrs.len()
        invariant
            0 < addrs@.len(),
            i <= addrs@.len(),
            forall|k: int| 0 <= k < i ==> !blocked(#[trigger] addrs@[k], *policy),
        decreases addrs@.len() - i,
    {
        if is_blocked(addrs[i], policy) {
            proof {
                lemma_first_blocked_skips(addrs@, *policy, i as int);
                assert(addrs@.skip(i as int)[0] == addrs@[i as int]);
            }
            return Err(SsrfError::BlockedAddress(addrs[i]));
        }
        i = i + 1;
    }
    proof {
        lemma_first_blocked_skips(addrs@, *policy, i as int);
    }
    Ok(())
}

/// What stands against a URL once the resolution of its host is known; `resolution` is looked at only
/// where the host is a name.
pub open spec fn webhook_error(
    parsed: Result<UrlView, Seq<char>>,
    resolution: Result<Seq<IpAddr>, ResolveError>,
    policy: SsrfPolicy,
) -> Option<SsrfError> {
    match parsed {
        Err(_) => Some(SsrfError::InvalidUrl),
        Ok(url) => if structural_error(url) is Some {
            structural_error(url)
        } else {
            match (url.host->0, resolution) {
                (HostView::Domain(_), Err(_)) => Some(SsrfError::Resolution),
                _ => address_error(pinned(url, resolution), policy),
            }
        },
    }
}

/// The addresses a URL stands for: its literal address, else what its name resolved to.
pub open spec fn pinned(url: UrlView, resolution: Result<Seq<IpAddr>, ResolveError>) -> Seq<IpAddr> {
    match url.host->0 {
        HostView::V4(n) => seq![IpAddr::V4(n)],
        HostView::V6(n) => seq![IpAddr::V6(n)],
        HostView::Domain(_) => resolution->Ok_0,
    }
}

/// The view of a resolver's answer.
pub open spec fn resolution_view(r: Result<Vec<IpAddr>, ResolveError>) -> Result<
    Seq<IpAddr>,
    ResolveError,
> {
    match r {
        Ok(addrs) => Ok(addrs@),
        Err(e) => Err(e),
    }
}

/// Whether `r` is the answer to a URL and the resolution of its host.
pub open spec fn webhook_answer(
    r: Result<ValidatedWebhook, SsrfError>,
    parsed: Result<UrlView, Seq<char>>,
    resolution: Result<Seq<IpAddr>, ResolveError>,
    policy: SsrfPolicy,
) -> bool {
    match (r, webhook_error(parsed, resolution, policy)) {
        (Err(e), Some(expected)) => e == expected,
        (Ok(hook), None) => hook.url@ == parsed->Ok_0 && hook.pinned_ips@ == pinned(
            parsed->Ok_0,
            resolution,
        ),
        _ => false,
    }
}

/// Judges a parsed URL together with the resolution of its host.
pub fn judge_webhook(
    parsed: Result<ParsedUrl, String>,
    resolution: Result<Vec<IpAddr>, ResolveError>,
    policy: &SsrfPolicy,
) -> (r: Result<ValidatedWebhook, SsrfError>)
    ensures
        webhook_answer(r, net::url_result_view(parsed), resolution_view(resolution), *policy),
{
    let url = match parsed {
        Ok(url) => url,
        Err(_) => return Err(SsrfError::InvalidUrl),
    };
    let addrs: Vec<IpAddr> = match webhook_target(&url) {
        Err(e) => return Err(e),
        Ok(WebhookTarget::Address(ip)) => vec![ip],
        Ok(WebhookTarget::Name(_)) => match resolution {
            Ok(addrs) => addrs,
            Err(_) => return Err(SsrfError::Resolution),
        },
    };
    assert(addrs@ =~= pinned(url@, resolution_view(resolution)));
    match check_addresses(&addrs, policy) {
        Err(e) => Err(e),
        Ok(()) => Ok(ValidatedWebhook { url, pinned_ips: addrs }),
    }
}

/// The name that a URL is resolved by: its domain, where nothing stands against the URL before its host
/// is looked at. A literal address has none.
pub open spec fn name_to_resolve(parsed: Result<UrlView, Seq<char>>) -> Option<Seq<char>> {
    match parsed {
        Ok(url) => match url.host {
            Some(HostView::Domain(name)) => if structural_error(url) is None {
                Some(name)
            } else {
                None
            },
            _ => None,
        },
        Err(_) => None,
    }
}

/// Whether `answer` is what a resolver says of the name that a URL is resolved by, where there is one.
pub open spec fn is_resolution<F: Fn(&str) -> Result<Vec<IpAddr>, ResolveError>>(
    answer: Result<Vec<IpAddr>, ResolveError>,
    parsed: Result<UrlView, Seq<char>>,
    resolve: F,
) -> bool {
    name_to_resolve(parsed) matches Some(domain) ==> exists|name: &str|
        name@ == domain && #[trigger] call_ensures(resolve, (name,), answer)
}

/// Validates a caller's webhook URL: it parses, uses `https`, names a host, keeps to port 443, and
/// every address of the host is public. A literal address is judged without a resolution. `resolve` is
/// asked only for a name, by that name alone, and only once scheme, host and port have passed: nothing
/// else need be fit for it to answer.
pub fn validate_webhook_url<F: Fn(&str) -> Result<Vec<IpAddr>, ResolveError>>(
    raw: &str,
    policy: &SsrfPolicy,
    resolve: F,
) -> (r: Result<ValidatedWebhook, SsrfError>)
    requires
        name_to_resolve(url_of_text(raw@)) matches Some(domain) ==> forall|name: &str|
            name@ == domain ==> #[trigger] call_requires(resolve, (name,)),
    ensures
        exists|answer: Result<Vec<IpAddr>, ResolveError>|
            webhook_answer(r, url_of_text(raw@), #[trigger] resolution_view(answer), *policy)
                && is_resolution(answer, url_of_text(raw@), resolve),
{
    let parsed = net::parse_url(raw);
    let mut answer: Result<Vec<IpAddr>, ResolveError> = Err(ResolveError);
    if let Ok(url) = &parsed {
        if let Ok(WebhookTarget::Name(name)) = webhook_target(url) {
            answer = resolve(name.as_str());
        }
    }
    judge_webhook(parsed, answer, policy)
}

/// An accepted webhook pins at least one address, and every address it pins is public: one denied
/// address among the resolved ones rejects the whole set, in whatever place it stands.
pub proof fn law_accepted_webhook_is_public(
    parsed: Result<UrlView, Seq<char>>,
    resolution: Result<Seq<IpAddr>, ResolveError>,
    policy: SsrfPolicy,
)
    requires
        webhook_error(parsed, resolution, policy) is None,
    ensures
        parsed is Ok,
        parsed->Ok_0.scheme == "https"@,
        parsed->Ok_0.port is None || parsed->Ok_0.port == Some(ALLOWED_PORT),
        pinned(parsed->Ok_0, resolution).len() > 0,
        forall|i: int|
            0 <= i < pinned(parsed->Ok_0, resolution).len() ==> !blocked(
                #[trigger] pinned(parsed->Ok_0, resolution)[i],
                policy,
            ),
{
    lemma_none_blocked(pinned(parsed->Ok_0, resolution), policy);
}

proof fn lemma_none_blocked(addrs: Seq<IpAddr>, policy: SsrfPolicy)
    requires
        first_blocked(addrs, policy) is None,
    ensures
        forall|i: int| 0 <= i < addrs.len() ==> !blocked(#[trigger] addrs[i], policy),
    decreases addrs.len(),
{
    if addrs.len() > 0 {
        let rest = addrs.drop_first();
        lemma_none_blocked(rest, policy);
        assert forall|i: int| 0 <= i < addrs.len() implies !blocked(
            #[trigger] addrs[i],
            policy,
        ) by {
            if i > 0 {
                assert(addrs[i] == rest[i - 1]);
            }
        }
    }
}

/// Wrapping an IPv4 address in its IPv4-mapped form never escapes a denial: it is blocked exactly
/// where the bare address is, or where the operator denies the mapped form itself.
pub proof fn law_mapped_address_is_judged_as_ipv4(v4: u32, policy: SsrfPolicy)
    ensures
        ({
            let mapped = IpAddr::V6((0xffff_0000_0000 + v4) as u128);
            blocked(mapped, policy) <==> blocked(IpAddr::V4(v4), policy) || policy.denies(mapped)
        }),
{
    let mapped = (0xffff_0000_0000 + v4) as u128;
    assert(embedded_v4(mapped) == Some(v4));
}

} // verus!
