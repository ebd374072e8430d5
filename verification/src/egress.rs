//! Routing of platform posts: drained from the outbox, or announced one by one to the workflow engine.
//!
//! A post is always stored first. Draining is the default, and then announcing does nothing.

use vstd::prelude::*;

use crate::config::{EgressMode, EgressSection};
use crate::platform::{platform_name, Platform};
use crate::text;
use crate::text::{decimal, decimal_nat, digit_char, opt_str_view, opt_view, trimmed, without_trailing_slashes};

verus! {

/// The service that posts are announced to.
pub const PLATFORM_EGRESS_SERVICE: &'static str = "PlatformEgress";

/// Its handler.
pub const POST_HANDLER: &'static str = "post";

/// The header that makes an announcement idempotent.
pub const IDEMPOTENCY_HEADER: &'static str = "idempotency-key";

/// How long an announcement may take.
pub const HTTP_TIMEOUT_SECS: u64 = 10;

/// Where posts are routed to.
#[derive(Debug)]
pub enum Router {
    Drain,
    /// The base URL of the engine's ingress, with no slash at its end.
    Restate(String),
}

/// Routes platform posts.
#[derive(Debug)]
pub struct PlatformEgressRouter {
    pub inner: Router,
}

/// Why a router cannot be built.
#[derive(Debug)]
pub struct EgressError {
    pub message: String,
}

/// The base URL of the ingress, where one is configured: the section's, else the environment's, without
/// surrounding white space and slashes at its end.
pub open spec fn ingress_of(configured: Option<Seq<char>>, env: Option<Seq<char>>) -> Option<
    Seq<char>,
> {
    let given = if configured is Some {
        configured
    } else {
        env
    };
    match given {
        Some(url) => {
            let base = without_trailing_slashes(trimmed(url));
            if base.len() == 0 {
                None
            } else {
                Some(base)
            }
        },
        None => None,
    }
}

/// Where a router routes to: `None` for the drain.
pub open spec fn route_of(r: PlatformEgressRouter) -> Option<Seq<char>> {
    match r.inner {
        Router::Drain => None,
        Router::Restate(base) => Some(base@),
    }
}

impl PlatformEgressRouter {
    /// The router of a section, with the ingress URL of the environment to fall back on. The workflow
    /// engine needs a URL; without one its posts would be stored and never delivered.
    pub fn from_config(section: &EgressSection, env_url: Option<&str>) -> (r: Result<
        PlatformEgressRouter,
        EgressError,
    >)
        ensures
            match section.mode {
                EgressMode::Drain => r matches Ok(router) && route_of(router) is None,
                EgressMode::Restate => match ingress_of(
                    opt_view(section.restate_ingress_url),
                    opt_str_view(env_url),
                ) {
                    Some(base) => r matches Ok(router) && route_of(router) == Some(base),
                    None => r matches Err(e) && e.message@
                        == "egress.mode = restate requires egress.restate_ingress_url (or the RESTATE_INGRESS_URL env var)"@,
                },
            },
    {
        match section.mode {
            EgressMode::Drain => Ok(PlatformEgressRouter { inner: Router::Drain }),
            EgressMode::Restate => {
                let given: Option<&str> = match &section.restate_ingress_url {
                    Some(url) => Some(url.as_str()),
                    None => env_url,
                };
                if let Some(url) = given {
                    let base: &str = text::trim_end_slashes(text::trim(url));
                    if !base.is_empty() {
                        return Ok(PlatformEgressRouter { inner: Router::Restate(base.to_owned()) });
                    }
                }
                Err(
                    EgressError {
                        message:
                            "egress.mode = restate requires egress.restate_ingress_url (or the RESTATE_INGRESS_URL env var)".to_owned(),
                    },
                )
            },
        }
    }

    /// The router that leaves posts to the drain.
    pub fn disabled() -> (r: PlatformEgressRouter)
        ensures
            route_of(r) is None,
    {
        PlatformEgressRouter { inner: Router::Drain }
    }

    /// Whether posts go through the workflow engine.
    pub fn is_restate(&self) -> (r: bool)
        ensures
            r == (route_of(*self) is Some),
    {
        match self.inner {
            Router::Drain => false,
            Router::Restate(_) => true,
        }
    }

    /// The announcement to send for a stored post, once its row has been looked up: none where posts are
    /// drained, and none for a post that is no longer there.
    pub fn announce(
        &self,
        platform: Platform,
        installation_id: i64,
        dedup_key: &str,
        outbox_id: Option<i64>,
    ) -> (r: Option<Announcement>)
        ensures
            match (route_of(*self), outbox_id) {
                (Some(base), Some(id)) => r matches Some(a) && {
                    &&& a.url@ == announce_url(base, key_text(platform, installation_id))
                    &&& a.idempotency_key@ == dedup_key@
                    &&& a.outbox_id == id
                },
                _ => r is None,
            },
    {
        match (&self.inner, outbox_id) {
            (Router::Restate(base), Some(id)) => {
                let key: String = egress_key(platform, installation_id);
                Some(
                    Announcement {
                        url: send_url(base.as_str(), key.as_str()),
                        idempotency_key: dedup_key.to_owned(),
                        outbox_id: id,
                    },
                )
            },
            _ => None,
        }
    }
}

/// An announcement of a post: only its id travels, under a key that makes a second one void.
#[derive(Debug)]
pub struct Announcement {
    pub url: String,
    pub idempotency_key: String,
    pub outbox_id: i64,
}

/// Judges the answer to an announcement.
pub fn announced(success: bool, status: &str, url: &str, body: &str) -> (r: Result<(), EgressError>)
    ensures
        match r {
            Ok(_) => success,
            Err(e) => !success && e.message@ == "Restate ingress returned "@ + status@ + " for "@
                + url@ + ": "@ + body@,
        },
{
    if success {
        return Ok(());
    }
    let mut message: String = "Restate ingress returned ".to_owned();
    message.append(status);
    message.append(" for ");
    message.append(url);
    message.append(": ");
    message.append(body);
    Err(EgressError { message })
}

/// The key posts are serialized under.
pub open spec fn key_text(platform: Platform, installation_id: i64) -> Seq<char> {
    platform_name(platform) + ":"@ + decimal(installation_id as int)
}

/// The key posts are serialized under: one at a time for each installation of a platform.
pub fn egress_key(platform: Platform, installation_id: i64) -> (r: String)
    ensures
        r@ == key_text(platform, installation_id),
{
    let mut r: String = platform.as_str().to_owned();
    r.append(":");
    r.append(text::i64_text(installation_id).as_str());
    r
}

/// Where an announcement under a key is sent.
pub open spec fn announce_url(ingress_base: Seq<char>, key: Seq<char>) -> Seq<char> {
    ingress_base + "/"@ + PLATFORM_EGRESS_SERVICE@ + "/"@ + key + "/"@ + POST_HANDLER@ + "/send"@
}

/// Where an announcement under a key is sent.
pub fn send_url(ingress_base: &str, key: &str) -> (r: String)
    ensures
        r@ == announce_url(ingress_base@, key@),
{
    let mut r: String = ingress_base.to_owned();
    r.append("/");
    r.append(PLATFORM_EGRESS_SERVICE);
    r.append("/");
    r.append(key);
    r.append("/");
    r.append(POST_HANDLER);
    r.append("/send");
    r
}

proof fn lemma_decimal_nat(n: nat)
    ensures
        decimal_nat(n).len() > 0,
        forall|i: int| 0 <= i < decimal_nat(n).len() ==> '0' <= #[trigger] decimal_nat(n)[i] <= '9',
    decreases n,
{
    if n >= 10 {
        lemma_decimal_nat(n / 10);
    }
}

proof fn lemma_decimal_nat_injective(a: nat, b: nat)
    requires
        decimal_nat(a) == decimal_nat(b),
    ensures
        a == b,
    decreases a,
{
    lemma_decimal_nat(a / 10);
    lemma_decimal_nat(b / 10);
    if a < 10 && b < 10 {
        assert(decimal_nat(a)[0] == digit_char(a as int));
        assert(decimal_nat(b)[0] == digit_char(b as int));
        assert(digit_char(a as int) as int == a + 48 && digit_char(b as int) as int == b + 48);
    } else if a >= 10 && b >= 10 {
        assert(decimal_nat(a).drop_last() =~= decimal_nat(a / 10));
        assert(decimal_nat(b).drop_last() =~= decimal_nat(b / 10));
        assert(decimal_nat(a).last() == decimal_nat(b).last());
        let (x, y) = ((a % 10) as int, (b % 10) as int);
        assert(decimal_nat(a).last() == digit_char(x) && decimal_nat(b).last() == digit_char(y));
        assert(digit_char(x) as int == x + 48 && digit_char(y) as int == y + 48);
        lemma_decimal_nat_injective(a / 10, b / 10);
    } else {
        assert(decimal_nat(a).len() != decimal_nat(b).len());
    }
}

proof fn lemma_decimal_injective(a: int, b: int)
    requires
        decimal(a) == decimal(b),
    ensures
        a == b,
{
    let x = if a < 0 { (-a) as nat } else { a as nat };
    let y = if b < 0 { (-b) as nat } else { b as nat };
    lemma_decimal_nat(x);
    lemma_decimal_nat(y);
    if a < 0 && b < 0 {
        assert(decimal(a).drop_first() =~= decimal_nat(x));
        assert(decimal(b).drop_first() =~= decimal_nat(y));
    } else if a < 0 || b < 0 {
        assert(decimal(a)[0] == decimal(b)[0]);
        assert('0' <= decimal_nat(x)[0] && '0' <= decimal_nat(y)[0]);
        assert(false);
    }
    lemma_decimal_nat_injective(x, y);
}

/// Installations have keys of their own, so that posts of one never wait for those of another.
pub proof fn law_installations_have_their_own_key(p: Platform, i: i64, q: Platform, j: i64)
    requires
        key_text(p, i) == key_text(q, j),
    ensures
        p == q,
        i == j,
{
    reveal_strlit("github");
    reveal_strlit("gitlab");
    reveal_strlit("bitbucket");
    reveal_strlit(":");
    let a = key_text(p, i);
    let b = key_text(q, j);
    assert(a[0] == b[0] && a[3] == b[3]);
    assert(a[0] == platform_name(p)[0] && b[0] == platform_name(q)[0]);
    assert(a[3] == platform_name(p)[3] && b[3] == platform_name(q)[3]);
    assert(p == q);
    let n = platform_name(p).len() as int + 1;
    assert(a.skip(n) =~= decimal(i as int));
    assert(b.skip(n) =~= decimal(j as int));
    lemma_decimal_injective(i as int, j as int);
}

proof fn lemma_no_slash_left(s: Seq<char>)
    ensures
        without_trailing_slashes(s).len() > 0 ==> without_trailing_slashes(s).last() != '/',
    decreases s.len(),
{
    if s.len() > 0 && s.last() == '/' {
        lemma_no_slash_left(s.drop_last());
    }
}

/// The base URL of a router has something in it and ends in no slash, so that a URL made from it never
/// holds two in a row there.
pub proof fn law_ingress_ends_in_no_slash(configured: Option<Seq<char>>, env: Option<Seq<char>>)
    ensures
        ingress_of(configured, env) matches Some(base) ==> base.len() > 0 && base.last() != '/',
{
    let given = if configured is Some {
        configured
    } else {
        env
    };
    if given is Some {
        lemma_no_slash_left(trimmed(given->0));
    }
}

} // verus!
