//! The agent card and its wire form.

use std::collections::HashMap;

use control_plane::a2a::card::{
    build_agent_card, oidc_discovery_url, AgentCard, SecurityRequirement,
};

fn requirement(r: SecurityRequirement) -> HashMap<String, Vec<String>> {
    HashMap::from([(r.scheme, r.scopes)])
}

/// The card in the protocol crate's type, which knows the wire form.
fn wire_card(card: AgentCard) -> a2a::AgentCard {
    a2a::AgentCard {
        name: card.name,
        description: card.description,
        version: card.version,
        supported_interfaces: card
            .supported_interfaces
            .into_iter()
            .map(|i| a2a::AgentInterface {
                url: i.url,
                protocol_binding: i.protocol_binding,
                protocol_version: i.protocol_version,
                tenant: None,
            })
            .collect(),
        capabilities: a2a::AgentCapabilities {
            streaming: card.capabilities.streaming,
            push_notifications: card.capabilities.push_notifications,
            extensions: None,
            extended_agent_card: None,
        },
        default_input_modes: card.default_input_modes,
        default_output_modes: card.default_output_modes,
        skills: card
            .skills
            .into_iter()
            .map(|s| a2a::AgentSkill {
                id: s.id,
                name: s.name,
                description: s.description,
                tags: s.tags,
                examples: Some(s.examples),
                input_modes: Some(s.input_modes),
                output_modes: Some(s.output_modes),
                security_requirements: Some(
                    s.security_requirements.into_iter().map(requirement).collect(),
                ),
            })
            .collect(),
        provider: None,
        documentation_url: None,
        icon_url: None,
        security_schemes: Some(
            card.security_schemes
                .into_iter()
                .map(|s| {
                    let scheme = a2a::OpenIdConnectSecurityScheme {
                        open_id_connect_url: s.open_id_connect_url,
                        description: Some(s.description),
                    };
                    (s.name, a2a::SecurityScheme::OpenIdConnect(scheme))
                })
                .collect(),
        ),
        security_requirements: Some(
            card.security_requirements.into_iter().map(requirement).collect(),
        ),
        signatures: None,
    }
}

const BASE: &str = "https://a2a.lightbridge.example/a2a";
const OIDC: &str = "https://kc.example/realms/lightbridge/.well-known/openid-configuration";

#[test]
fn card_conforms_to_v1_0_1_wire_shapes() {
    let card = serde_json::to_value(wire_card(build_agent_card(BASE, OIDC))).expect("serializes");

    // camelCase field names.
    assert!(card.get("supportedInterfaces").is_some());
    assert!(card.get("defaultInputModes").is_some());
    assert!(card.get("securitySchemes").is_some());

    // Ordered supportedInterfaces[]: JSON-RPC preferred, REST second, each with a protocolVersion.
    let ifaces = card["supportedInterfaces"].as_array().unwrap();
    assert_eq!(ifaces.len(), 2);
    assert_eq!(ifaces[0]["protocolBinding"], "JSONRPC");
    assert_eq!(ifaces[1]["protocolBinding"], "HTTP+JSON");
    for iface in ifaces {
        assert!(iface["protocolVersion"].as_str().is_some());
    }

    // Neither streaming nor push is advertised.
    assert_eq!(card["capabilities"]["streaming"], false);
    assert_eq!(card["capabilities"]["pushNotifications"], false);

    // Exactly the `review` skill, gated by `a2a:review`.
    let skills = card["skills"].as_array().unwrap();
    assert_eq!(skills.len(), 1);
    assert_eq!(skills[0]["id"], "review");
    assert_eq!(
        skills[0]["securityRequirements"][0]["keycloak-oidc"][0],
        "a2a:review"
    );

    // Self-documenting: multiple examples of usage, each a parseable JSON object carrying the
    // required fields; and an inline JSON-Schema in the description covering the input contract.
    let examples = skills[0]["examples"].as_array().unwrap();
    assert!(
        examples.len() >= 2,
        "review skill should advertise multiple usage examples"
    );
    for ex in examples {
        let obj: serde_json::Value =
            serde_json::from_str(ex.as_str().unwrap()).expect("example is valid JSON");
        assert_eq!(obj["skill"], "review");
        assert!(obj.get("repo").is_some() && obj.get("pr").is_some());
        assert!(
            obj["headSha"].as_str().is_some(),
            "every example carries the required headSha"
        );
    }
    let description = skills[0]["description"].as_str().unwrap();
    assert!(
        description.contains("json-schema.org/draft-07"),
        "description embeds an inline JSON-Schema"
    );
    for field in [
        "repo", "pr", "headSha", "baseSha", "forge", "prompt", "skill",
    ] {
        assert!(
            description.contains(field),
            "schema in description documents `{field}`"
        );
    }
    assert!(
        description.contains("ROLE_USER") && description.contains("data"),
        "description states the ROLE_USER + data-part wire form"
    );

    // OIDC security scheme under the field-presence variant key.
    let oidc = &card["securitySchemes"]["keycloak-oidc"];
    assert_eq!(
        oidc["openIdConnectSecurityScheme"]["openIdConnectUrl"], OIDC,
        "expected openIdConnectSecurityScheme variant with our discovery url"
    );
}

#[test]
fn discovery_url_follows_keycloak_convention_and_trims_slash() {
    assert_eq!(
        oidc_discovery_url(Some("https://kc.example/realms/lightbridge/")),
        "https://kc.example/realms/lightbridge/.well-known/openid-configuration"
    );
    assert!(oidc_discovery_url(None).contains(".well-known/openid-configuration"));
}

#[test]
fn both_interfaces_are_served_at_the_base() {
    let card = build_agent_card(BASE, OIDC);
    assert_eq!(card.supported_interfaces[0].url, BASE);
    assert_eq!(card.supported_interfaces[1].url, BASE);
    assert_eq!(card.name, "Lightbridge Code Intelligence");
    assert_eq!(card.version, "0.1.0");
}
