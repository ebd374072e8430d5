//! Addresses, networks and parsed URLs as plain values.

use vstd::arithmetic::power2::pow2;
use vstd::prelude::*;
use vstd::utf8::encode_utf8;

use crate::text;

verus! {

/// An IP address as the number its octets write.
#[derive(Clone, Copy, Debug, PartialEq, Eq, Structural)]
pub enum IpAddr {
    V4(u32),
    V6(u128),
}

/// The IPv4 address `a.b.c.d` as a number.
pub open spec fn v4_number(a: u8, b: u8, c: u8, d: u8) -> int {
    a * 0x100_0000 + b * 0x1_0000 + c * 0x100 + d
}

impl IpAddr {
    /// The IPv4 address `a.b.c.d`.
    pub fn v4(a: u8, b: u8, c: u8, d: u8) -> (r: IpAddr)
        ensures
            r matches IpAddr::V4(n) && n == v4_number(a, b, c, d),
    {
        IpAddr::V4(a as u32 * 0x100_0000 + b as u32 * 0x1_0000 + c as u32 * 0x100 + d as u32)
    }
}

/// The dotted-decimal text of an IPv4 address.
pub open spec fn v4_text(n: u32) -> Seq<char> {
    let n = n as int;
    text::decimal(n / 0x100_0000) + "."@ + text::decimal(n / 0x1_0000 % 0x100) + "."@
        + text::decimal(n / 0x100 % 0x100) + "."@ + text::decimal(n % 0x100)
}

/// The text that std displays for an IPv6 address.
pub uninterp spec fn v6_text(n: u128) -> Seq<char>;

/// std's `Display` of an IPv6 address, reached through `ipnet::Ipv6Net::addr`: the compressed
/// hexadecimal form, left to the named result.
#[verifier::external_body]
fn display_v6(n: u128) -> (r: String)
    ensures
        r@ == v6_text(n),
{
    ipnet::Ipv6Net::new_assert(n.into(), 128).addr().to_string()
}

/// The text of an address.
pub open spec fn ip_text(ip: IpAddr) -> Seq<char> {
    match ip {
        IpAddr::V4(n) => v4_text(n),
        IpAddr::V6(n) => v6_text(n),
    }
}

/// The text of an address: dotted decimal for IPv4, compressed hexadecimal for IPv6.
pub fn display_ip(ip: IpAddr) -> (r: String)
    ensures
        r@ == ip_text(ip),
{
    match ip {
        IpAddr::V4(n) => {
            let mut r: String = text::u64_text((n / 0x100_0000) as u64);
            r.append(".");
            r.append(text::u64_text((n / 0x1_0000 % 0x100) as u64).as_str());
            r.append(".");
            r.append(text::u64_text((n / 0x100 % 0x100) as u64).as_str());
            r.append(".");
            r.append(text::u64_text((n % 0x100) as u64).as_str());
            r
        },
        IpAddr::V6(n) => display_v6(n),
    }
}

/// Whether two IPv4 addresses agree on their first `prefix` bits.
pub open spec fn same_prefix_v4(a: u32, b: u32, prefix: u8) -> bool {
    a as int / pow2((32 - prefix) as nat) as int == b as int / pow2((32 - prefix) as nat) as int
}

/// Whether two IPv6 addresses agree on their first `prefix` bits.
pub open spec fn same_prefix_v6(a: u128, b: u128, prefix: u8) -> bool {
    a as int / pow2((128 - prefix) as nat) as int == b as int / pow2((128 - prefix) as nat) as int
}

/// `ipnet::Ipv4Net::contains`: an address lies between the network's first and last address, which
/// is to say that it agrees with the network's address on the prefix.
#[verifier::external_body]
fn v4_net_contains(net: u32, prefix: u8, ip: u32) -> (r: bool)
    requires
        prefix <= 32,
    ensures
        r == same_prefix_v4(net, ip, prefix),
{
    let host = ipnet::Ipv4Net::new_assert(ip.into(), 32);
    ipnet::Ipv4Net::new_assert(net.into(), prefix).contains(&host.addr())
}

/// `ipnet::Ipv6Net::contains`: an address lies between the network's first and last address, which
/// is to say that it agrees with the network's address on the prefix.
#[verifier::external_body]
fn v6_net_contains(net: u128, prefix: u8, ip: u128) -> (r: bool)
    requires
        prefix <= 128,
    ensures
        r == same_prefix_v6(net, ip, prefix),
{
    let host = ipnet::Ipv6Net::new_assert(ip.into(), 128);
    ipnet::Ipv6Net::new_assert(net.into(), prefix).contains(&host.addr())
}

/// A network in CIDR form. The prefix never exceeds the address width.
#[derive(Clone, Copy, Debug)]
pub struct IpNet {
    addr: IpAddr,
    prefix: u8,
}

/// How many bits an address has.
pub open spec fn address_bits(ip: IpAddr) -> int {
    match ip {
        IpAddr::V4(_) => 32,
        IpAddr::V6(_) => 128,
    }
}

impl IpNet {
    #[verifier::type_invariant]
    spec fn prefix_fits(self) -> bool {
        self.prefix <= address_bits(self.addr)
    }

    /// An address of the network.
    pub closed spec fn spec_addr(self) -> IpAddr {
        self.addr
    }

    /// The number of leading bits that the network fixes.
    pub closed spec fn spec_prefix(self) -> u8 {
        self.prefix
    }

    /// Whether an address belongs to the network; one of the other family never does.
    pub open spec fn holds(self, ip: IpAddr) -> bool {
        match (self.spec_addr(), ip) {
            (IpAddr::V4(net), IpAddr::V4(ip)) => same_prefix_v4(net, ip, self.spec_prefix()),
            (IpAddr::V6(net), IpAddr::V6(ip)) => same_prefix_v6(net, ip, self.spec_prefix()),
            _ => false,
        }
    }

    /// The network `addr/prefix`, or `None` where the prefix exceeds the address width.
    pub fn new(addr: IpAddr, prefix: u8) -> (r: Option<IpNet>)
        ensures
            r is Some <==> prefix <= address_bits(addr),
            r matches Some(net) ==> net.spec_addr() == addr && net.spec_prefix() == prefix,
    {
        let fits: bool = match addr {
            IpAddr::V4(_) => prefix <= 32,
            IpAddr::V6(_) => prefix <= 128,
        };
        if fits {
            Some(IpNet { addr, prefix })
        } else {
            None
        }
    }

    /// Whether an address belongs to the network.
    pub fn contains(&self, ip: IpAddr) -> (r: bool)
        ensures
            r == self.holds(ip),
    {
        proof {
            use_type_invariant(self);
        }
        match (self.addr, ip) {
            (IpAddr::V4(net), IpAddr::V4(ip)) => v4_net_contains(net, self.prefix, ip),
            (IpAddr::V6(net), IpAddr::V6(ip)) => v6_net_contains(net, self.prefix, ip),
            _ => false,
        }
    }
}

/// The host of a URL.
#[derive(Debug)]
pub enum UrlHost {
    Domain(String),
    V4(u32),
    V6(u128),
}

/// What is read of a parsed URL: its scheme, host, effective port and serialization.
#[derive(Debug)]
pub struct ParsedUrl {
    pub scheme: String,
    pub host: Option<UrlHost>,
    /// The explicit port, else the scheme's default.
    pub port: Option<u16>,
    pub text: String,
}

/// The mathematical value of a [`UrlHost`].
pub enum HostView {
    Domain(Seq<char>),
    V4(u32),
    V6(u128),
}

/// The mathematical value of a [`ParsedUrl`].
pub struct UrlView {
    pub scheme: Seq<char>,
    pub host: Option<HostView>,
    pub port: Option<u16>,
    pub text: Seq<char>,
}

impl View for UrlHost {
    type V = HostView;

    open spec fn view(&self) -> HostView {
        match *self {
            UrlHost::Domain(name) => HostView::Domain(name@),
            UrlHost::V4(n) => HostView::V4(n),
            UrlHost::V6(n) => HostView::V6(n),
        }
    }
}

impl View for ParsedUrl {
    type V = UrlView;

    open spec fn view(&self) -> UrlView {
        UrlView {
            scheme: self.scheme@,
            host: match self.host {
                Some(host) => Some(host@),
                None => None,
            },
            port: self.port,
            text: self.text@,
        }
    }
}

/// What `url::Url::parse` makes of a text: the URL's parts, or the text of its error.
pub uninterp spec fn url_of_text(raw: Seq<char>) -> Result<UrlView, Seq<char>>;

/// The view of a parse result.
pub open spec fn url_result_view(r: Result<ParsedUrl, String>) -> Result<UrlView, Seq<char>> {
    match r {
        Ok(url) => Ok(url@),
        Err(message) => Err(message@),
    }
}

/// `url::Url::parse`, with the result read out through `scheme`, `host`, `port_or_known_default` and
/// `as_str`; which texts parse, and to what, is left to the named result.
#[verifier::external_body]
pub(crate) fn parse_url(raw: &str) -> (r: Result<ParsedUrl, String>)
    ensures
        url_result_view(r) == url_of_text(raw@),
{
    let url = url::Url::parse(raw).map_err(|e| e.to_string())?;
    let host = match url.host() {
        Some(url::Host::Domain(name)) => Some(UrlHost::Domain(name.to_owned())),
        Some(url::Host::Ipv4(ip)) => Some(UrlHost::V4(ip.into())),
        Some(url::Host::Ipv6(ip)) => Some(UrlHost::V6(ip.into())),
        None => None,
    };
    let port = url.port_or_known_default();
    Ok(ParsedUrl { scheme: url.scheme().to_owned(), host, port, text: url.as_str().to_owned() })
}

/// Whether a byte may stand in a header value: a tab, or anything from the space up but DEL.
pub open spec fn is_header_byte(b: u8) -> bool {
    b == 9 || (b >= 32 && b != 127)
}

/// Whether a text can be sent as a header value.
pub open spec fn is_header_value(s: Seq<char>) -> bool {
    forall|i: int| 0 <= i < encode_utf8(s).len() ==> is_header_byte(#[trigger] encode_utf8(s)[i])
}

/// `reqwest::header::HeaderValue::from_str`: it accepts a text whose UTF-8 bytes may all stand in a
/// header value, and no other.
#[verifier::external_body]
pub(crate) fn header_value_ok(s: &str) -> (r: bool)
    ensures
        r == is_header_value(s@),
{
    reqwest::header::HeaderValue::from_str(s).is_ok()
}

} // verus!
