//! How the service is configured, what it tells of itself, where posts are announced, and how many
//! streams a caller holds.

use vstd::prelude::*;

use crate::a2a::card::{discovery_url, is_agent_card, AgentCard};
use crate::a2a::limits::{quota_from_env, streams_of, with_streams, HandlerLimits, QuotaConfig};
use crate::config::{
    big_endian, first_error, mode_of, non_blank, on_unless_off, setting_or, signed_prefix,
    BitbucketSection, ConfigError, EgressMode, EgressSection, GitlabSection, McpServerConfig,
};
use crate::egress::{
    announced, ingress_of, route_of, Announcement, EgressError, PlatformEgressRouter,
};
use crate::net::{is_header_value, url_of_text};
use crate::platform::Platform;
use crate::text::{
    contains_text, decimal, opt_str_view, opt_view, parsed_int, trimmed, views,
    without_trailing_slashes,
};

verus! {

/// A setting that is absent or blank gives way to its default; any other is taken as it is written.
pub proof fn law_blank_setting_gives_way(value: Option<Seq<char>>, default: Seq<char>)
    ensures
        value is None ==> setting_or(value, default) == default && non_blank(value) is None,
        value matches Some(v) ==> trimmed(v).len() == 0 ==> setting_or(value, default) == default
            && non_blank(value) is None,
        value matches Some(v) ==> trimmed(v).len() > 0 ==> setting_or(value, default) == v
            && non_blank(value) == Some(v),
{
}

/// GitLab's own API and the common handle are used unless configured, for the section or a project, the
/// project's first.
pub proof fn law_gitlab_defaults(section: GitlabSection, i: int)
    requires
        0 <= i < section.projects@.len(),
    ensures
        section.default_api_url is None ==> section.spec_default_api_url()
            == "https://gitlab.com/api/v4"@,
        section.default_bot_handle is None ==> section.spec_default_bot_handle()
            == "lightbridge-bot"@,
        section.projects@[i].api_url is None ==> section.spec_api_url(section.projects@[i])
            == section.spec_default_api_url(),
        section.projects@[i].api_url matches Some(url) ==> trimmed(url@).len() > 0
            ==> section.spec_api_url(section.projects@[i]) == url@,
        section.default_api_url matches Some(url) ==> trimmed(url@).len() > 0
            ==> section.spec_default_api_url() == url@,
        section.default_bot_handle matches Some(handle) ==> trimmed(handle@).len() > 0
            ==> section.spec_default_bot_handle() == handle@,
{
}

/// Bitbucket's own API and the common handle are used unless configured, for the section or a
/// repository, the repository's first.
pub proof fn law_bitbucket_defaults(section: BitbucketSection, i: int)
    requires
        0 <= i < section.projects@.len(),
    ensures
        section.default_api_url is None ==> section.spec_default_api_url()
            == "https://api.bitbucket.org/2.0"@,
        section.default_bot_handle is None ==> section.spec_default_bot_handle()
            == "lightbridge-bot"@,
        section.projects@[i].api_url is None ==> section.spec_api_url(section.projects@[i])
            == section.spec_default_api_url(),
        section.projects@[i].api_url matches Some(url) ==> trimmed(url@).len() > 0
            ==> section.spec_api_url(section.projects@[i]) == url@,
        section.default_api_url matches Some(url) ==> trimmed(url@).len() > 0
            ==> section.spec_default_api_url() == url@,
        section.default_bot_handle matches Some(handle) ==> trimmed(handle@).len() > 0
            ==> section.spec_default_bot_handle() == handle@,
        section.projects@[i].spec_full_name() == section.projects@[i].workspace@ + "/"@
            + section.projects@[i].repo_slug@,
{
}

/// Whether a URL is one of the web's.
pub open spec fn is_web_url(url: Seq<char>) -> bool {
    url_of_text(url) is Ok && (url_of_text(url)->Ok_0.scheme == "http"@ || url_of_text(
        url,
    )->Ok_0.scheme == "https"@)
}

/// The first error is one of the errors, with none before it; there is none exactly where no error is.
pub proof fn law_first_error_is_the_first(errors: Seq<Option<Seq<char>>>, i: int)
    requires
        0 <= i < errors.len(),
        forall|j: int| 0 <= j < i ==> (#[trigger] errors[j]) is None,
    ensures
        errors[i] is Some ==> first_error(errors) == errors[i],
        (forall|j: int| 0 <= j < errors.len() ==> (#[trigger] errors[j]) is None) ==> first_error(
            errors,
        ) is None,
    decreases errors.len(),
{
    let rest = errors.drop_first();
    if i > 0 {
        assert(errors[0] is None);
        assert forall|j: int| 0 <= j < i - 1 implies (#[trigger] rest[j]) is None by {
            assert(rest[j] == errors[j + 1]);
        }
        assert(rest[i - 1] == errors[i]);
        if forall|j: int| 0 <= j < errors.len() ==> (#[trigger] errors[j]) is None {
            assert forall|j: int| 0 <= j < rest.len() implies (#[trigger] rest[j]) is None by {
                assert(rest[j] == errors[j + 1]);
            }
        }
        law_first_error_is_the_first(rest, i - 1);
    } else if forall|j: int| 0 <= j < errors.len() ==> (#[trigger] errors[j]) is None {
        lemma_no_error(errors);
    }
}

proof fn lemma_no_error(errors: Seq<Option<Seq<char>>>)
    requires
        forall|j: int| 0 <= j < errors.len() ==> (#[trigger] errors[j]) is None,
    ensures
        first_error(errors) is None,
    decreases errors.len(),
{
    if errors.len() > 0 {
        let rest = errors.drop_first();
        assert(errors[0] is None);
        assert forall|j: int| 0 <= j < rest.len() implies (#[trigger] rest[j]) is None by {
            assert(rest[j] == errors[j + 1]);
        }
        lemma_no_error(rest);
    }
}

/// A section that is off is never refused, and one that is on without anything to serve is.
pub proof fn law_only_what_is_on_is_refused(gitlab: GitlabSection, bitbucket: BitbucketSection)
    ensures
        !gitlab.enabled ==> gitlab.error() is None,
        gitlab.enabled && gitlab.projects@.len() == 0 ==> gitlab.error() == Some(
            "gitlab.enabled=true requires at least one gitlab.projects[] entry"@,
        ),
        !bitbucket.enabled ==> bitbucket.error() is None,
        bitbucket.enabled && bitbucket.projects@.len() == 0 ==> bitbucket.error() == Some(
            "bitbucket.enabled=true requires at least one bitbucket.projects[] entry"@,
        ),
{
}

/// A GitLab section is accepted where every project is named once, is reached over the web, and has a
/// token and a secret that are not blank and travel in a header.
pub proof fn law_complete_gitlab_is_accepted(section: GitlabSection)
    requires
        section.projects@.len() > 0,
        forall|i: int, j: int|
            0 <= j < i < section.projects@.len() ==> (#[trigger] section.projects@[i]).project_id
                != (#[trigger] section.projects@[j]).project_id,
        forall|i: int|
            0 <= i < section.projects@.len() ==> {
                let p = #[trigger] section.projects@[i];
                &&& is_web_url(section.spec_api_url(p))
                &&& trimmed(p.access_token@).len() > 0
                &&& trimmed(p.webhook_secret@).len() > 0
                &&& is_header_value(p.access_token@)
                &&& is_header_value(p.webhook_secret@)
            },
    ensures
        section.error() is None,
{
    let errors = section.project_errors();
    assert forall|i: int| 0 <= i < errors.len() implies (#[trigger] errors[i]) is None by {
        assert(is_web_url(section.spec_api_url(section.projects@[i])));
    }
    lemma_no_error(errors);
}

/// The first GitLab project with a fault is refused by its number, for the first of its faults: named
/// twice, no URL, no URL of the web, a blank token, a blank secret, either one no header value.
pub proof fn law_gitlab_is_refused_for_its_first_fault(section: GitlabSection, i: int)
    requires
        section.enabled,
        0 <= i < section.projects@.len(),
        forall|j: int| 0 <= j < i ==> (#[trigger] section.project_error(j)) is None,
    ensures
        ({
            let p = section.projects@[i];
            let whose = "GitLab project "@ + decimal(p.project_id as int);
            let url = url_of_text(section.spec_api_url(p));
            let twice = exists|j: int|
                0 <= j < i && (#[trigger] section.projects@[j]).project_id == p.project_id;
            &&& twice ==> section.error() == Some(
                "duplicate GitLab project_id "@ + decimal(p.project_id as int),
            )
            &&& !twice && url is Err ==> section.error() == Some(
                whose + (" api_url is not a valid URL: "@ + url->Err_0),
            )
            &&& !twice && url is Ok && url->Ok_0.scheme != "http"@ && url->Ok_0.scheme != "https"@
                ==> section.error() == Some(whose + " api_url must use http or https"@)
            &&& !twice && is_web_url(section.spec_api_url(p)) ==> {
                &&& trimmed(p.access_token@).len() == 0 ==> section.error() == Some(
                    whose + " has empty access_token"@,
                )
                &&& trimmed(p.access_token@).len() > 0 && trimmed(p.webhook_secret@).len() == 0
                    ==> section.error() == Some(whose + " has empty webhook_secret"@)
                &&& trimmed(p.access_token@).len() > 0 && trimmed(p.webhook_secret@).len() > 0 && (
                !is_header_value(p.access_token@)) ==> section.error() == Some(
                    whose + " access_token is not a valid header value"@,
                )
                &&& trimmed(p.access_token@).len() > 0 && trimmed(p.webhook_secret@).len() > 0
                    && is_header_value(p.access_token@) && !is_header_value(p.webhook_secret@)
                    ==> section.error() == Some(
                    whose + " webhook_secret is not a valid header value"@,
                )
            }
        }),
{
    let errors = section.project_errors();
    assert forall|j: int| 0 <= j < i implies (#[trigger] errors[j]) is None by {
        assert(section.project_error(j) is None);
    }
    assert(errors[i] == section.project_error(i));
    law_first_error_is_the_first(errors, i);
}

/// A Bitbucket section is accepted where every repository is named once, is reached over the web, and
/// has a workspace, a slug, an email, a token and a secret that are not blank.
pub proof fn law_complete_bitbucket_is_accepted(section: BitbucketSection)
    requires
        section.projects@.len() > 0,
        forall|i: int, j: int|
            0 <= j < i < section.projects@.len() ==> (
            #[trigger] section.projects@[i]).spec_full_name() != (
            #[trigger] section.projects@[j]).spec_full_name(),
        forall|i: int|
            0 <= i < section.projects@.len() ==> {
                let p = #[trigger] section.projects@[i];
                &&& is_web_url(section.spec_api_url(p))
                &&& trimmed(p.workspace@).len() > 0
                &&& trimmed(p.repo_slug@).len() > 0
                &&& trimmed(p.email@).len() > 0
                &&& trimmed(p.api_token@).len() > 0
                &&& trimmed(p.webhook_secret@).len() > 0
            },
    ensures
        section.error() is None,
{
    let errors = section.project_errors();
    assert forall|i: int| 0 <= i < errors.len() implies (#[trigger] errors[i]) is None by {
        assert(is_web_url(section.spec_api_url(section.projects@[i])));
    }
    lemma_no_error(errors);
}

/// The first Bitbucket repository with a fault is refused by its name, for the first of its faults: named
/// twice, no workspace, no slug, no URL, no URL of the web, no email, no token, no secret.
pub proof fn law_bitbucket_is_refused_for_its_first_fault(section: BitbucketSection, i: int)
    requires
        section.enabled,
        0 <= i < section.projects@.len(),
        forall|j: int| 0 <= j < i ==> (#[trigger] section.project_error(j)) is None,
    ensures
        ({
            let p = section.projects@[i];
            let name = p.workspace@ + "/"@ + p.repo_slug@;
            let whose = "Bitbucket project "@ + name;
            let url = url_of_text(section.spec_api_url(p));
            let twice = exists|j: int|
                0 <= j < i && (#[trigger] section.projects@[j]).spec_full_name() == name;
            let named = !twice && trimmed(p.workspace@).len() > 0 && trimmed(p.repo_slug@).len() > 0;
            &&& twice ==> section.error() == Some("duplicate Bitbucket project "@ + name)
            &&& !twice && trimmed(p.workspace@).len() == 0 ==> section.error() == Some(
                "Bitbucket project has empty workspace"@,
            )
            &&& !twice && trimmed(p.workspace@).len() > 0 && trimmed(p.repo_slug@).len() == 0
                ==> section.error() == Some(whose + " has empty repo_slug"@)
            &&& named && url is Err ==> section.error() == Some(
                whose + (" api_url is not a valid URL: "@ + url->Err_0),
            )
            &&& named && url is Ok && url->Ok_0.scheme != "http"@ && url->Ok_0.scheme != "https"@
                ==> section.error() == Some(whose + " api_url must use http or https"@)
            &&& named && is_web_url(section.spec_api_url(p)) ==> {
                &&& trimmed(p.email@).len() == 0 ==> section.error() == Some(
                    whose + " has empty email"@,
                )
                &&& trimmed(p.email@).len() > 0 && trimmed(p.api_token@).len() == 0
                    ==> section.error() == Some(whose + " has empty api_token"@)
                &&& trimmed(p.email@).len() > 0 && trimmed(p.api_token@).len() > 0 && trimmed(
                    p.webhook_secret@,
                ).len() == 0 ==> section.error() == Some(whose + " has empty webhook_secret"@)
            }
        }),
{
    let errors = section.project_errors();
    assert forall|j: int| 0 <= j < i implies (#[trigger] errors[j]) is None by {
        assert(section.project_error(j) is None);
    }
    assert(errors[i] == section.project_error(i));
    law_first_error_is_the_first(errors, i);
}

/// A number is read off bytes with the most significant first, and bytes of eight fit in sixty-four bits.
pub proof fn law_bytes_write_a_number(bytes: Seq<u8>, b: u8)
    ensures
        big_endian(Seq::empty()) == 0,
        big_endian(bytes.push(b)) == 256 * big_endian(bytes) + b,
        bytes.len() == 8 ==> 0 <= big_endian(bytes) < 0x1_0000_0000_0000_0000,
{
    assert(bytes.push(b).drop_last() =~= bytes);
    if bytes.len() == 8 {
        lemma_eight_bytes(bytes);
    }
}

proof fn lemma_eight_bytes(bytes: Seq<u8>)
    requires
        bytes.len() == 8,
    ensures
        0 <= big_endian(bytes) < 0x1_0000_0000_0000_0000,
        big_endian(bytes) >= 0x8000_0000_0000_0000 <==> bytes[0] >= 128,
{
    reveal_with_fuel(big_endian, 9);
    let b7 = bytes.drop_last();
    let b6 = b7.drop_last();
    let b5 = b6.drop_last();
    let b4 = b5.drop_last();
    let b3 = b4.drop_last();
    let b2 = b3.drop_last();
    let b1 = b2.drop_last();
    assert(b1.last() == bytes[0]);
    assert(big_endian(b1) == bytes[0]);
    assert(big_endian(b2) == bytes[0] * 256 + b2.last());
    assert(big_endian(b3) == big_endian(b2) * 256 + b3.last());
    assert(big_endian(b4) == big_endian(b3) * 256 + b4.last());
    assert(big_endian(b5) == big_endian(b4) * 256 + b5.last());
    assert(big_endian(b6) == big_endian(b5) * 256 + b6.last());
    assert(big_endian(b7) == big_endian(b6) * 256 + b7.last());
}

/// A digest's number is that of its first eight bytes and of no other, signed: below zero exactly where
/// the first bit is set, and the unsigned number less two to the sixty-fourth there.
pub proof fn law_digest_number_is_signed(digest: Seq<u8>, other: Seq<u8>)
    requires
        digest.len() >= 8,
        other.len() >= 8,
        digest.take(8) == other.take(8),
    ensures
        signed_prefix(digest) == signed_prefix(other),
        i64::MIN <= signed_prefix(digest) <= i64::MAX,
        signed_prefix(digest) < 0 <==> digest[0] >= 128,
        signed_prefix(digest) >= 0 ==> signed_prefix(digest) == big_endian(digest.take(8)),
        signed_prefix(digest) < 0 ==> signed_prefix(digest) == big_endian(digest.take(8))
            - 0x1_0000_0000_0000_0000,
{
    lemma_eight_bytes(digest.take(8));
    assert(digest.take(8)[0] == digest[0]);
}

/// A tool server is taken as it is written, unless its name holds two underscores in a row.
pub proof fn law_server_name_holds_no_double_underscore(
    name: String,
    url: String,
    r: Result<McpServerConfig, ConfigError>,
)
    requires
        call_ensures(McpServerConfig::new, (name, url), r),
    ensures
        r is Ok <==> !contains_text(name@, "__"@),
        r is Ok ==> r->Ok_0.name@ == name@ && r->Ok_0.url@ == url@,
{
}

/// A switch is on unless it is switched off, and the way posts leave goes by its name.
pub proof fn law_switches_and_modes(name: Seq<char>)
    ensures
        on_unless_off(None),
        on_unless_off(Some(true)),
        !on_unless_off(Some(false)),
        mode_of("drain"@) == Some(EgressMode::Drain),
        mode_of("restate"@) == Some(EgressMode::Restate),
        mode_of(name) is Some <==> name == "drain"@ || name == "restate"@,
{
    reveal_strlit("drain");
    reveal_strlit("restate");
    assert("drain"@.len() != "restate"@.len());
}

/// The ingress is the configured one where there is one, and else the environment's, without the white
/// space around it and the slashes at its end; what is then empty is none.
pub proof fn law_configured_ingress_comes_first(
    configured: Option<Seq<char>>,
    env: Option<Seq<char>>,
)
    ensures
        configured is None && env is None ==> ingress_of(configured, env) is None,
        configured is Some ==> ingress_of(configured, env) == ingress_of(configured, None),
        configured is None ==> ingress_of(configured, env) == ingress_of(env, None),
        configured matches Some(url) ==> match ingress_of(configured, env) {
            Some(base) => base.len() > 0 && base == without_trailing_slashes(trimmed(url)),
            None => without_trailing_slashes(trimmed(url)).len() == 0,
        },
{
}

/// Posts go through the workflow engine exactly where that is configured, which takes an ingress.
pub proof fn law_engine_needs_an_ingress(
    section: &EgressSection,
    env: Option<&str>,
    r: Result<PlatformEgressRouter, EgressError>,
)
    requires
        call_ensures(PlatformEgressRouter::from_config, (section, env), r),
    ensures
        section.mode == EgressMode::Drain ==> r is Ok && route_of(r->Ok_0) is None,
        section.mode == EgressMode::Restate ==> {
            let ingress = ingress_of(opt_view(section.restate_ingress_url), opt_str_view(env));
            &&& r is Ok <==> ingress is Some
            &&& r is Ok ==> route_of(r->Ok_0) == ingress
            &&& r is Err ==> r->Err_0.message@
                == "egress.mode = restate requires egress.restate_ingress_url (or the RESTATE_INGRESS_URL env var)"@
        },
{
}

/// A stored post is announced exactly where posts go through the engine and its row is there: by its id,
/// under its key, to the post handler of its installation.
pub proof fn law_stored_post_is_announced(
    router: &PlatformEgressRouter,
    platform: Platform,
    installation_id: i64,
    dedup_key: &str,
    outbox_id: Option<i64>,
    r: Option<Announcement>,
)
    requires
        call_ensures(
            PlatformEgressRouter::announce,
            (router, platform, installation_id, dedup_key, outbox_id),
            r,
        ),
    ensures
        r is Some <==> route_of(*router) is Some && outbox_id is Some,
        r is Some ==> {
            let forge = match platform {
                Platform::GitHub => "github"@,
                Platform::GitLab => "gitlab"@,
                Platform::Bitbucket => "bitbucket"@,
            };
            &&& Some(r->0.outbox_id) == outbox_id
            &&& r->0.idempotency_key@ == dedup_key@
            &&& r->0.url@ == route_of(*router)->0 + "/"@ + "PlatformEgress"@ + "/"@ + (forge + ":"@
                + decimal(installation_id as int)) + "/"@ + "post"@ + "/send"@
        },
{
}

/// An announcement stands exactly where it was answered with success; any other answer is told with its
/// status, its URL and its text.
pub proof fn law_refused_announcement_is_told(
    success: bool,
    status: &str,
    url: &str,
    body: &str,
    r: Result<(), EgressError>,
)
    requires
        call_ensures(announced, (success, status, url, body), r),
    ensures
        r is Ok <==> success,
        r is Err ==> r->Err_0.message@ == "Restate ingress returned "@ + status@ + " for "@ + url@
            + ": "@ + body@,
{
}

/// What the service tells of itself: one skill that takes the review permission, two transports at one
/// place with JSON-RPC first, neither streams nor webhooks, and every call authenticated by the realm.
pub proof fn law_card_tells_of_one_skill(card: AgentCard, base: Seq<char>, oidc: Seq<char>)
    requires
        is_agent_card(card, base, oidc),
    ensures
        card.name@ == "Lightbridge Code Intelligence"@,
        card.version@ == "0.1.0"@,
        card.supported_interfaces@.len() == 2,
        card.supported_interfaces@[0].url@ == base && card.supported_interfaces@[1].url@ == base,
        card.supported_interfaces@[0].protocol_binding@ == "JSONRPC"@,
        card.supported_interfaces@[1].protocol_binding@ == "HTTP+JSON"@,
        card.supported_interfaces@[0].protocol_version@ == "1.0"@,
        card.supported_interfaces@[1].protocol_version@ == "1.0"@,
        card.capabilities.streaming == Some(false),
        card.capabilities.push_notifications == Some(false),
        views(card.default_input_modes@) == seq!["application/json"@],
        views(card.default_output_modes@) == seq!["text/plain"@, "application/json"@],
        card.skills@.len() == 1,
        card.skills@[0].id@ == "review"@,
        card.skills@[0].name@ == "Deep PR review"@,
        views(card.skills@[0].tags@) == seq!["code-review"@, "ci"@, "static-analysis"@],
        card.skills@[0].examples@.len() == 3,
        views(card.skills@[0].input_modes@) == seq!["application/json"@],
        views(card.skills@[0].output_modes@) == seq!["text/plain"@, "application/json"@],
        card.skills@[0].security_requirements@.len() == 1,
        card.skills@[0].security_requirements@[0].scheme@ == "keycloak-oidc"@,
        views(card.skills@[0].security_requirements@[0].scopes@) == seq!["a2a:review"@],
        card.security_schemes@.len() == 1,
        card.security_schemes@[0].name@ == "keycloak-oidc"@,
        card.security_schemes@[0].open_id_connect_url@ == oidc,
        card.security_requirements@.len() == 1,
        card.security_requirements@[0].scheme@ == "keycloak-oidc"@,
        card.security_requirements@[0].scopes@.len() == 0,
{
    assert(views(card.skills@[0].examples@).len() == 3);
    assert(views(card.security_requirements@[0].scopes@).len() == 0);
}

/// The discovery document is found below the issuer, however many slashes end it.
pub proof fn law_discovery_is_below_the_issuer(issuer: Seq<char>)
    ensures
        discovery_url(Some(issuer)) == without_trailing_slashes(issuer)
            + "/.well-known/openid-configuration"@,
        discovery_url(None)
            == "https://keycloak.invalid/realms/lightbridge/.well-known/openid-configuration"@,
{
}

/// Taking a stream adds one to what its caller holds and giving it back takes one, for no other caller;
/// a caller that holds none is not kept.
pub proof fn law_streams_are_counted_by_caller(
    counters: Map<Seq<char>, u32>,
    caller: Seq<char>,
    other: Seq<char>,
    n: u32,
)
    ensures
        streams_of(with_streams(counters, caller, n), caller) == n,
        other != caller ==> streams_of(with_streams(counters, caller, n), other) == streams_of(
            counters,
            other,
        ),
        with_streams(counters, caller, n).dom().contains(caller) <==> n > 0,
        !counters.dom().contains(other) ==> streams_of(counters, other) == 0,
{
}

/// The quota is what the environment writes and never below one: twenty in an hour where it writes
/// nothing that can be read.
pub proof fn law_quota_unless_configured(
    max: Option<&str>,
    window: Option<&str>,
    r: QuotaConfig,
)
    requires
        call_ensures(quota_from_env, (max, window), r),
    ensures
        r.max >= 1 && r.window_secs >= 1,
        max is None ==> r.max == 20,
        window is None ==> r.window_secs == 3600,
        max matches Some(s) ==> match parsed_int(s@, i64::MIN as int, i64::MAX as int) {
            Some(v) => v >= 1 ==> r.max == v,
            None => r.max == 20,
        },
        max matches Some(s) ==> match parsed_int(s@, i64::MIN as int, i64::MAX as int) {
            Some(v) => v < 1 ==> r.max == 1,
            None => true,
        },
        window matches Some(s) ==> match parsed_int(s@, i64::MIN as int, i64::MAX as int) {
            Some(v) => v >= 1 ==> r.window_secs == v,
            None => r.window_secs == 3600,
        },
        window matches Some(s) ==> match parsed_int(s@, i64::MIN as int, i64::MAX as int) {
            Some(v) => v < 1 ==> r.window_secs == 1,
            None => true,
        },
{
}

/// A caller may hold ten webhooks on a task and eight streams, unless the environment writes another
/// positive number.
pub proof fn law_caller_limits_unless_configured(
    cap: Option<&str>,
    streams: Option<&str>,
    r: HandlerLimits,
)
    requires
        call_ensures(HandlerLimits::from_env, (cap, streams), r),
    ensures
        cap is None ==> r.push_config_cap == 10,
        streams is None ==> r.max_streams_per_caller == 8,
        cap matches Some(s) ==> match parsed_int(s@, i64::MIN as int, i64::MAX as int) {
            Some(v) => r.push_config_cap == (if v > 0 {
                v
            } else {
                10
            }),
            None => r.push_config_cap == 10,
        },
        streams matches Some(s) ==> match parsed_int(s@, 0, u32::MAX as int) {
            Some(v) => r.max_streams_per_caller == (if v > 0 {
                v
            } else {
                8
            }),
            None => r.max_streams_per_caller == 8,
        },
{
}

} // verus!
