//! The configuration sections and their validation.

use control_plane::config::{
    signed_prefix_of, BitbucketProjectConfig, BitbucketSection, ConfigError, FileConfig,
    GitlabProjectConfig, GitlabSection, KnowledgeToolsSection, McpServerConfig, ReviewSection,
};
use serde_json::Value;

fn opt_text(v: &Value, key: &str) -> Option<String> {
    v.get(key).map(|t| t.as_str().unwrap().to_string())
}

fn text(v: &Value, key: &str) -> String {
    opt_text(v, key).unwrap()
}

fn rows<'a>(v: &'a Value, key: &str) -> Vec<&'a Value> {
    match v.get(key) {
        Some(items) => items.as_array().unwrap().iter().collect(),
        None => Vec::new(),
    }
}

fn gitlab(v: &Value) -> GitlabSection {
    GitlabSection {
        enabled: v.get("enabled").and_then(Value::as_bool).unwrap_or(false),
        default_api_url: opt_text(v, "default_api_url"),
        default_bot_handle: opt_text(v, "default_bot_handle"),
        projects: rows(v, "projects")
            .into_iter()
            .map(|p| GitlabProjectConfig {
                project_id: p["project_id"].as_i64().unwrap(),
                api_url: opt_text(p, "api_url"),
                access_token: text(p, "access_token"),
                webhook_secret: text(p, "webhook_secret"),
                bot_handle: opt_text(p, "bot_handle"),
            })
            .collect(),
    }
}

fn bitbucket(v: &Value) -> BitbucketSection {
    BitbucketSection {
        enabled: v.get("enabled").and_then(Value::as_bool).unwrap_or(false),
        default_api_url: opt_text(v, "default_api_url"),
        default_bot_handle: opt_text(v, "default_bot_handle"),
        projects: rows(v, "projects")
            .into_iter()
            .map(|p| BitbucketProjectConfig {
                workspace: text(p, "workspace"),
                repo_slug: text(p, "repo_slug"),
                api_url: opt_text(p, "api_url"),
                email: text(p, "email"),
                api_token: text(p, "api_token"),
                webhook_secret: text(p, "webhook_secret"),
                bot_handle: opt_text(p, "bot_handle"),
            })
            .collect(),
    }
}

/// The file's sections, out of its JSON text.
fn file_config(json: &str) -> Result<FileConfig, ConfigError> {
    let root: Value = serde_json::from_str(json).unwrap();
    let mut config = FileConfig::default();
    if let Some(section) = root.get("knowledge_tools") {
        let mut servers = Vec::new();
        for s in rows(section, "mcp_servers") {
            servers.push(McpServerConfig::new(text(s, "name"), text(s, "url"))?);
        }
        config.knowledge_tools = KnowledgeToolsSection { mcp_servers: servers };
    }
    if let Some(section) = root.get("gitlab") {
        config.gitlab = gitlab(section);
    }
    if let Some(section) = root.get("bitbucket") {
        config.bitbucket = bitbucket(section);
    }
    Ok(config)
}

#[test]
fn mcp_server_name_with_double_underscore_fails_at_deserialize() {
    let json =
        r#"{"knowledge_tools":{"mcp_servers":[{"name":"context-7__eu","url":"http://x"}]}}"#;
    let err = file_config(json)
        .expect_err("a `__`-containing server name must fail parsing");
    assert!(
        err.message.contains("__"),
        "error names the problem: {}",
        err.message
    );
}

#[test]
fn mcp_server_name_without_double_underscore_parses() {
    let json = r#"{"knowledge_tools":{"mcp_servers":[{"name":"context7","url":"http://x"}]}}"#;
    let config: FileConfig = file_config(json).expect("valid name parses");
    assert_eq!(config.knowledge_tools.mcp_servers[0].name, "context7");
}

#[test]
fn gitlab_disabled_allows_no_projects() {
    let config: FileConfig =
        file_config(r#"{"gitlab":{"enabled":false}}"#).expect("config parses");
    config
        .gitlab
        .validate()
        .expect("disabled GitLab needs no project config");
}

#[test]
fn gitlab_enabled_requires_at_least_one_project() {
    let config: FileConfig =
        file_config(r#"{"gitlab":{"enabled":true,"projects":[]}}"#)
            .expect("config parses");
    let err = config.gitlab.validate().expect_err("empty projects fail");
    assert!(err.message.contains("requires at least one"));
}

#[test]
fn gitlab_rejects_duplicate_project_ids() {
    let json = r#"{
      "gitlab": {
        "enabled": true,
        "projects": [
          {
            "project_id": 1,
            "access_token": "token-a",
            "webhook_secret": "secret-a"
          },
          {
            "project_id": 1,
            "access_token": "token-b",
            "webhook_secret": "secret-b"
          }
        ]
      }
    }"#;
    let config: FileConfig = file_config(json).expect("config parses");
    let err = config
        .gitlab
        .validate()
        .expect_err("duplicate project id fails");
    assert!(err.message.contains("duplicate"));
}

#[test]
fn gitlab_rejects_empty_project_secret_fields() {
    let json = r#"{
      "gitlab": {
        "enabled": true,
        "projects": [
          {
            "project_id": 1,
            "access_token": "",
            "webhook_secret": "secret-a"
          }
        ]
      }
    }"#;
    let config: FileConfig = file_config(json).expect("config parses");
    let err = config
        .gitlab
        .validate()
        .expect_err("empty access token fails");
    assert!(err.message.contains("empty access_token"));
}

#[test]
fn gitlab_rejects_invalid_api_url() {
    let json = r#"{
      "gitlab": {
        "enabled": true,
        "projects": [
          {
            "project_id": 7,
            "api_url": "htps://gitlab.example.com/api/v4",
            "access_token": "token",
            "webhook_secret": "secret"
          }
        ]
      }
    }"#;
    let config: FileConfig = file_config(json).expect("config parses");
    let err = config.gitlab.validate().expect_err("invalid api_url fails");
    assert!(err.message.contains("api_url must use http or https"));
}

#[test]
fn bitbucket_disabled_allows_no_projects() {
    let config: FileConfig =
        file_config(r#"{"bitbucket":{"enabled":false}}"#).expect("config parses");
    config
        .bitbucket
        .validate()
        .expect("disabled Bitbucket needs no project config");
}

#[test]
fn bitbucket_enabled_requires_at_least_one_project() {
    let config: FileConfig =
        file_config(r#"{"bitbucket":{"enabled":true,"projects":[]}}"#)
            .expect("config parses");
    let err = config
        .bitbucket
        .validate()
        .expect_err("empty projects fail");
    assert!(err.message.contains("requires at least one"));
}

#[test]
fn bitbucket_rejects_duplicate_projects() {
    let json = r#"{
      "bitbucket": {
        "enabled": true,
        "projects": [
          {
            "workspace": "myteam",
            "repo_slug": "my-repo",
            "email": "bot@example.com",
            "api_token": "token-a",
            "webhook_secret": "secret-a"
          },
          {
            "workspace": "myteam",
            "repo_slug": "my-repo",
            "email": "bot@example.com",
            "api_token": "token-b",
            "webhook_secret": "secret-b"
          }
        ]
      }
    }"#;
    let config: FileConfig = file_config(json).expect("config parses");
    let err = config
        .bitbucket
        .validate()
        .expect_err("duplicate project fails");
    assert!(err.message.contains("duplicate"));
}

#[test]
fn bitbucket_rejects_empty_project_secret_fields() {
    let json = r#"{
      "bitbucket": {
        "enabled": true,
        "projects": [
          {
            "workspace": "myteam",
            "repo_slug": "my-repo",
            "email": "bot@example.com",
            "api_token": "",
            "webhook_secret": "secret-a"
          }
        ]
      }
    }"#;
    let config: FileConfig = file_config(json).expect("config parses");
    let err = config
        .bitbucket
        .validate()
        .expect_err("empty api_token fails");
    assert!(err.message.contains("empty api_token"));
}

#[test]
fn bitbucket_rejects_invalid_api_url() {
    let json = r#"{
      "bitbucket": {
        "enabled": true,
        "projects": [
          {
            "workspace": "myteam",
            "repo_slug": "my-repo",
            "api_url": "htps://api.bitbucket.org/2.0",
            "email": "bot@example.com",
            "api_token": "pw",
            "webhook_secret": "secret"
          }
        ]
      }
    }"#;
    let config: FileConfig = file_config(json).expect("config parses");
    let err = config
        .bitbucket
        .validate()
        .expect_err("invalid api_url fails");
    assert!(err.message.contains("api_url must use http or https"));
}

#[test]
fn bitbucket_resolves_project_defaults() {
    let json = r#"{
      "bitbucket": {
        "enabled": true,
        "default_api_url": "https://api.bitbucket.example.com/2.0",
        "default_bot_handle": "lb",
        "projects": [
          {
            "workspace": "myteam",
            "repo_slug": "my-repo",
            "email": "bot@example.com",
            "api_token": "pw",
            "webhook_secret": "secret"
          }
        ]
      }
    }"#;
    let config: FileConfig = file_config(json).expect("config parses");
    config.bitbucket.validate().expect("valid project config");
    let project = &config.bitbucket.projects[0];
    assert_eq!(
        config.bitbucket.resolved_api_url(project),
        "https://api.bitbucket.example.com/2.0"
    );
    assert_eq!(config.bitbucket.resolved_bot_handle(project), "lb");
    assert_eq!(project.full_name(), "myteam/my-repo");
}

#[test]
fn bitbucket_stable_id_is_deterministic() {
    let project = BitbucketProjectConfig {
        workspace: "myteam".to_string(),
        repo_slug: "my-repo".to_string(),
        api_url: None,
        email: "bot@example.com".to_string(),
        api_token: "pw".to_string(),
        webhook_secret: "secret".to_string(),
        bot_handle: None,
    };
    assert_eq!(project.stable_id(), project.stable_id());
}

#[test]
fn gitlab_resolves_project_defaults() {
    let json = r#"{
      "gitlab": {
        "enabled": true,
        "default_api_url": "https://gitlab.example.com/api/v4",
        "default_bot_handle": "lb",
        "projects": [
          {
            "project_id": 7,
            "access_token": "token",
            "webhook_secret": "secret"
          }
        ]
      }
    }"#;
    let config: FileConfig = file_config(json).expect("config parses");
    config.gitlab.validate().expect("valid project config");
    let project = &config.gitlab.projects[0];
    assert_eq!(
        config.gitlab.resolved_api_url(project),
        "https://gitlab.example.com/api/v4"
    );
    assert_eq!(config.gitlab.resolved_bot_handle(project), "lb");
}

fn gitlab_project(id: i64) -> GitlabProjectConfig {
    GitlabProjectConfig {
        project_id: id,
        api_url: None,
        access_token: "token".to_string(),
        webhook_secret: "secret".to_string(),
        bot_handle: None,
    }
}

fn gitlab_of(project: GitlabProjectConfig) -> GitlabSection {
    GitlabSection { enabled: true, projects: vec![project], ..GitlabSection::default() }
}

#[test]
fn every_gitlab_error_has_its_sentence() {
    let refused = |s: GitlabSection| s.validate().unwrap_err().message;
    let mut p = gitlab_project(7);
    p.webhook_secret = " ".to_string();
    assert_eq!(refused(gitlab_of(p)), "GitLab project 7 has empty webhook_secret");
    let mut p = gitlab_project(7);
    p.api_url = Some("not a url".to_string());
    assert!(refused(gitlab_of(p)).starts_with("GitLab project 7 api_url is not a valid URL: "));
    let mut p = gitlab_project(7);
    p.access_token = "line\nbreak".to_string();
    assert_eq!(
        refused(gitlab_of(p)),
        "GitLab project 7 access_token is not a valid header value"
    );
    let mut p = gitlab_project(7);
    p.webhook_secret = "line\nbreak".to_string();
    assert_eq!(
        refused(gitlab_of(p)),
        "GitLab project 7 webhook_secret is not a valid header value"
    );
    assert!(gitlab_of(gitlab_project(7)).validate().is_ok());
}

#[test]
fn project_settings_win_over_section_defaults() {
    let mut p = gitlab_project(7);
    p.api_url = Some("https://own.example/api/v4".to_string());
    p.bot_handle = Some("own".to_string());
    let mut section = gitlab_of(p);
    section.default_api_url = Some("https://shared.example/api/v4".to_string());
    section.default_bot_handle = Some("shared".to_string());
    assert_eq!(section.resolved_api_url(&section.projects[0]), "https://own.example/api/v4");
    assert_eq!(section.resolved_bot_handle(&section.projects[0]), "own");
    let bare = GitlabSection::default();
    assert_eq!(bare.default_api_url(), "https://gitlab.com/api/v4");
    let bare = BitbucketSection::default();
    assert_eq!(bare.default_api_url(), "https://api.bitbucket.org/2.0");
}

#[test]
fn stable_id_follows_the_full_name() {
    let project = |workspace: &str, slug: &str| BitbucketProjectConfig {
        workspace: workspace.to_string(),
        repo_slug: slug.to_string(),
        api_url: None,
        email: "bot@example.com".to_string(),
        api_token: "pw".to_string(),
        webhook_secret: "secret".to_string(),
        bot_handle: None,
    };
    assert_eq!(project("a", "b").stable_id(), project("a", "b").stable_id());
    assert_ne!(project("a", "b").stable_id(), project("a", "c").stable_id());
    assert_eq!(project("a", "b").full_name(), "a/b");
    // SHA-256 of "abc" begins ba7816bf 8f01cfea.
    assert_eq!(
        signed_prefix_of(&vec![0xba, 0x78, 0x16, 0xbf, 0x8f, 0x01, 0xcf, 0xea]),
        0xba78_16bf_8f01_cfea_u64 as i64
    );
    // SHA-256 of "ab/c", by the digest of the crate beneath.
    let digest = ring::digest::digest(&ring::digest::SHA256, b"ab/c");
    assert_eq!(project("ab", "c").stable_id(), signed_prefix_of(&digest.as_ref().to_vec()));
}

#[test]
fn feature_switches_default_sensibly() {
    let section = ReviewSection::default();
    assert!(section.reactions_enabled());
    assert!(section.skip_bot_authored_prs());
    let off = ReviewSection {
        reactions: Some(false),
        skip_bot_authored_prs: Some(false),
        ..ReviewSection::default()
    };
    assert!(!off.reactions_enabled());
    assert!(!off.skip_bot_authored_prs());
}
