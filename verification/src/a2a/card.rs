//! The agent card: the public document that says what the agent does, over which transports, and how
//! callers authenticate.

use vstd::prelude::*;

use crate::text;
use crate::text::{views, without_trailing_slashes};

verus! {

/// The name of the security scheme.
pub const OIDC_SCHEME_NAME: &'static str = "keycloak-oidc";

/// The version the card carries.
pub const CARD_VERSION: &'static str = "0.1.0";

/// The version of the protocol the transports speak.
pub const PROTOCOL_VERSION: &'static str = "1.0";

/// The JSON-RPC transport.
pub const TRANSPORT_JSONRPC: &'static str = "JSONRPC";

/// The REST transport.
pub const TRANSPORT_HTTP_JSON: &'static str = "HTTP+JSON";

/// The description of the review skill, with the schema of its input.
pub const REVIEW_SKILL_DESCRIPTION: &'static str = r#"Request a deep review of a pull/merge request. The review runs the deep tier through the same pipeline as an `@mention` and posts to the PR; the A2A task additionally returns a summary + structured findings to the caller.

Send the request as the JSON object below, carried in a `data` part of a `ROLE_USER` message (`message.parts[].data`). Input schema (JSON Schema draft-07):

```json
{
  "$schema": "http://json-schema.org/draft-07/schema#",
  "title": "A2A review skill request",
  "type": "object",
  "required": ["repo", "pr", "headSha"],
  "properties": {
    "skill":   { "type": "string", "enum": ["review"], "default": "review", "description": "Skill selector; only \"review\" exists in this phase." },
    "forge":   { "type": "string", "enum": ["github", "gitlab"], "default": "github", "description": "Source forge." },
    "repo":    { "type": "string", "pattern": "^[^/]+/[^/]+$", "description": "Repository as \"owner/name\" (surrounding whitespace is trimmed)." },
    "pr":      { "type": ["integer", "string"], "description": "PR (GitHub) / MR (GitLab) number, > 0. Accepts a JSON integer or a numeric string, e.g. 164 or \"164\"." },
    "headSha": { "type": "string", "minLength": 1, "description": "Commit SHA of the PR/MR head. REQUIRED: this server holds no forge credentials and cannot resolve a head itself, so an absent head is REJECTED (a null head would silently review the default branch). Also accepted under the key head_sha." },
    "baseSha": { "type": "string", "minLength": 1, "description": "Optional base commit SHA. Also accepted under the key base_sha." },
    "prompt":  { "type": "string", "description": "Optional focus prompt recorded as the run's intent; omitted → a generic deep-review intent." }
  }
}
```

Wire note: enums are ProtoJSON SCREAMING_SNAKE — the message `role` is `ROLE_USER` and task states are `TASK_STATE_*`. Unknown keys are ignored (the parser also accepts the snake_case SHA aliases above). See `docs/a2a-review-skill.md` for a full curl walkthrough, the response shape, and the GetTask polling loop."#;

/// The name of the agent.
pub const AGENT_NAME: &'static str = "Lightbridge Code Intelligence";

/// The description of the agent.
pub const AGENT_DESCRIPTION: &'static str = "A2A surface over Lightbridge's deep code-review agent. Request a deep review of a pull/merge request and poll the resulting task for a summary + findings.";

/// The description of the security scheme.
pub const OIDC_DESCRIPTION: &'static str = "Keycloak OIDC; callers are client-credentials service accounts (ADR-0014). The `review` skill additionally requires the `a2a:review` permission (ADR-0023).";

/// The shortest example of a request.
pub const EXAMPLE_MINIMAL: &'static str = r#"{"skill":"review","repo":"acme/api","pr":"164","headSha":"9f2a1c4e8b7d6053a1f4c2e9b8d70a5c3e1f2b6d"}"#;

/// An example with every field.
pub const EXAMPLE_FULL: &'static str = r#"{"skill":"review","forge":"github","repo":"acme/api","pr":"164","headSha":"9f2a1c4e8b7d6053a1f4c2e9b8d70a5c3e1f2b6d","baseSha":"1b0dd7a4c9e2f6538a0c4b1e9d7f2a5c3e8b6d04","prompt":"Focus on the auth changes and the new migration."}"#;

/// An example for a merge request.
pub const EXAMPLE_GITLAB: &'static str = r#"{"skill":"review","forge":"gitlab","repo":"acme/platform","pr":"57","headSha":"3e8b6d041b0dd7a4c9e2f6538a0c4b1e9d7f2a5c"}"#;

/// A transport the agent is reached over.
#[derive(Debug)]
pub struct AgentInterface {
    pub url: String,
    pub protocol_binding: String,
    pub protocol_version: String,
}

/// What the agent can do beyond answering a poll.
#[derive(Clone, Copy, Debug, PartialEq, Eq, Structural)]
pub struct AgentCapabilities {
    pub streaming: Option<bool>,
    pub push_notifications: Option<bool>,
}

/// A demand on the caller: a security scheme with the scopes it takes.
#[derive(Debug)]
pub struct SecurityRequirement {
    pub scheme: String,
    pub scopes: Vec<String>,
}

/// A skill.
#[derive(Debug)]
pub struct AgentSkill {
    pub id: String,
    pub name: String,
    pub description: String,
    pub tags: Vec<String>,
    pub examples: Vec<String>,
    pub input_modes: Vec<String>,
    pub output_modes: Vec<String>,
    pub security_requirements: Vec<SecurityRequirement>,
}

/// An OpenID Connect security scheme, under its name.
#[derive(Debug)]
pub struct OidcScheme {
    pub name: String,
    pub open_id_connect_url: String,
    pub description: String,
}

/// The agent card.
#[derive(Debug)]
pub struct AgentCard {
    pub name: String,
    pub description: String,
    pub version: String,
    /// The first is the preferred one.
    pub supported_interfaces: Vec<AgentInterface>,
    pub capabilities: AgentCapabilities,
    pub default_input_modes: Vec<String>,
    pub default_output_modes: Vec<String>,
    pub skills: Vec<AgentSkill>,
    pub security_schemes: Vec<OidcScheme>,
    pub security_requirements: Vec<SecurityRequirement>,
}

/// Whether an interface is served at a URL over a binding.
pub open spec fn serves(i: AgentInterface, url: Seq<char>, binding: Seq<char>) -> bool {
    i.url@ == url && i.protocol_binding@ == binding && i.protocol_version@ == PROTOCOL_VERSION@
}

/// Whether a requirement asks for the OpenID Connect scheme with these scopes.
pub open spec fn demands(r: SecurityRequirement, scopes: Seq<Seq<char>>) -> bool {
    r.scheme@ == OIDC_SCHEME_NAME@ && views(r.scopes@) == scopes
}

/// Whether a skill is the review skill, which takes the review permission.
pub open spec fn is_review_skill(s: AgentSkill) -> bool {
    &&& s.id@ == "review"@
    &&& s.name@ == "Deep PR review"@
    &&& s.description@ == REVIEW_SKILL_DESCRIPTION@
    &&& views(s.tags@) == seq!["code-review"@, "ci"@, "static-analysis"@]
    &&& views(s.examples@) == seq![EXAMPLE_MINIMAL@, EXAMPLE_FULL@, EXAMPLE_GITLAB@]
    &&& views(s.input_modes@) == seq!["application/json"@]
    &&& views(s.output_modes@) == seq!["text/plain"@, "application/json"@]
    &&& s.security_requirements@.len() == 1
    &&& demands(s.security_requirements@[0], seq!["a2a:review"@])
}

/// Whether a card is the agent's, served at a URL with callers of a realm: one skill, two transports
/// with JSON-RPC preferred, polling only, every call authenticated.
pub open spec fn is_agent_card(card: AgentCard, base_url: Seq<char>, oidc_url: Seq<char>) -> bool {
    &&& card.name@ == AGENT_NAME@
    &&& card.description@ == AGENT_DESCRIPTION@
    &&& card.version@ == CARD_VERSION@
    &&& card.supported_interfaces@.len() == 2
    &&& serves(card.supported_interfaces@[0], base_url, TRANSPORT_JSONRPC@)
    &&& serves(card.supported_interfaces@[1], base_url, TRANSPORT_HTTP_JSON@)
    &&& card.capabilities == AgentCapabilities {
        streaming: Some(false),
        push_notifications: Some(false),
    }
    &&& views(card.default_input_modes@) == seq!["application/json"@]
    &&& views(card.default_output_modes@) == seq!["text/plain"@, "application/json"@]
    &&& card.skills@.len() == 1
    &&& is_review_skill(card.skills@[0])
    &&& card.security_schemes@.len() == 1
    &&& card.security_schemes@[0].name@ == OIDC_SCHEME_NAME@
    &&& card.security_schemes@[0].open_id_connect_url@ == oidc_url
    &&& card.security_schemes@[0].description@ == OIDC_DESCRIPTION@
    &&& card.security_requirements@.len() == 1
    &&& demands(card.security_requirements@[0], Seq::empty())
}

fn json_only() -> (r: Vec<String>)
    ensures
        views(r@) == seq!["application/json"@],
{
    let r: Vec<String> = vec!["application/json".to_owned()];
    assert(views(r@) =~= seq!["application/json"@]);
    r
}

fn text_and_json() -> (r: Vec<String>)
    ensures
        views(r@) == seq!["text/plain"@, "application/json"@],
{
    let r: Vec<String> = vec!["text/plain".to_owned(), "application/json".to_owned()];
    assert(views(r@) =~= seq!["text/plain"@, "application/json"@]);
    r
}

fn interface(url: &str, binding: &str) -> (r: AgentInterface)
    ensures
        serves(r, url@, binding@),
{
    AgentInterface {
        url: url.to_owned(),
        protocol_binding: binding.to_owned(),
        protocol_version: PROTOCOL_VERSION.to_owned(),
    }
}

fn review_skill() -> (r: AgentSkill)
    ensures
        is_review_skill(r),
{
    let tags: Vec<String> = vec![
        "code-review".to_owned(),
        "ci".to_owned(),
        "static-analysis".to_owned(),
    ];
    assert(views(tags@) =~= seq!["code-review"@, "ci"@, "static-analysis"@]);
    let examples: Vec<String> = vec![
        EXAMPLE_MINIMAL.to_owned(),
        EXAMPLE_FULL.to_owned(),
        EXAMPLE_GITLAB.to_owned(),
    ];
    assert(views(examples@) =~= seq![EXAMPLE_MINIMAL@, EXAMPLE_FULL@, EXAMPLE_GITLAB@]);
    let scopes: Vec<String> = vec!["a2a:review".to_owned()];
    assert(views(scopes@) =~= seq!["a2a:review"@]);
    AgentSkill {
        id: "review".to_owned(),
        name: "Deep PR review".to_owned(),
        description: REVIEW_SKILL_DESCRIPTION.to_owned(),
        tags,
        examples,
        input_modes: json_only(),
        output_modes: text_and_json(),
        security_requirements: vec![
            SecurityRequirement { scheme: OIDC_SCHEME_NAME.to_owned(), scopes },
        ],
    }
}

/// The card the agent publishes: `base_url` is where both transports are served, and
/// `oidc_discovery_url` the discovery document of the realm that callers authenticate against.
pub fn build_agent_card(base_url: &str, oidc_discovery_url: &str) -> (r: AgentCard)
    ensures
        is_agent_card(r, base_url@, oidc_discovery_url@),
{
    let no_scopes: Vec<String> = Vec::new();
    assert(views(no_scopes@) =~= Seq::empty());
    AgentCard {
        name: AGENT_NAME.to_owned(),
        description: AGENT_DESCRIPTION.to_owned(),
        version: CARD_VERSION.to_owned(),
        supported_interfaces: vec![
            interface(base_url, TRANSPORT_JSONRPC),
            interface(base_url, TRANSPORT_HTTP_JSON),
        ],
        capabilities: AgentCapabilities {
            streaming: Some(false),
            push_notifications: Some(false),
        },
        default_input_modes: json_only(),
        default_output_modes: text_and_json(),
        skills: vec![review_skill()],
        security_schemes: vec![
            OidcScheme {
                name: OIDC_SCHEME_NAME.to_owned(),
                open_id_connect_url: oidc_discovery_url.to_owned(),
                description: OIDC_DESCRIPTION.to_owned(),
            },
        ],
        security_requirements: vec![
            SecurityRequirement { scheme: OIDC_SCHEME_NAME.to_owned(), scopes: no_scopes },
        ],
    }
}

/// Where the discovery document of an issuer is found; without an issuer, at a place that cannot exist.
pub open spec fn discovery_url(issuer: Option<Seq<char>>) -> Seq<char> {
    match issuer {
        Some(iss) => without_trailing_slashes(iss) + "/.well-known/openid-configuration"@,
        None =>
            "https://keycloak.invalid/realms/lightbridge/.well-known/openid-configuration"@,
    }
}

/// The URL of an issuer's discovery document.
pub fn oidc_discovery_url(issuer: Option<&str>) -> (r: String)
    ensures
        r@ == discovery_url(text::opt_str_view(issuer)),
{
    match issuer {
        Some(iss) => {
            let mut r: String = text::trim_end_slashes(iss).to_owned();
            r.append("/.well-known/openid-configuration");
            r
        },
        None =>
            "https://keycloak.invalid/realms/lightbridge/.well-known/openid-configuration".to_owned(),
    }
}

} // verus!
