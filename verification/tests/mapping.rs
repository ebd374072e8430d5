//! Status mapping, request parsing and the artifacts of a completed review.

use control_plane::a2a::mapping::{
    parse_review_request, review_artifacts, task_state_from_status, ParseError, ReviewContext,
    DEFAULT_REVIEW_PROMPT,
};
use control_plane::a2a::model::{Part, PartContent, TaskState};
use control_plane::json::{json_to_i64, Json};
use control_plane::platform::Platform;
use serde_json::Value;

fn convert(value: Value) -> Json {
    match value {
        Value::Null => Json::Null,
        Value::Bool(b) => Json::Bool(b),
        Value::Number(n) => match n.as_i64() {
            Some(i) => Json::Int(i),
            None => Json::Float(n.as_f64().unwrap().to_bits()),
        },
        Value::String(s) => Json::Str(s),
        Value::Array(items) => Json::Array(items.into_iter().map(convert).collect()),
        Value::Object(members) => {
            Json::Object(members.into_iter().map(|(k, v)| (k, convert(v))).collect())
        }
    }
}

fn json(text: &str) -> Json {
    convert(serde_json::from_str(text).unwrap())
}

fn field<'a>(value: &'a Json, key: &str) -> &'a Json {
    match value {
        Json::Object(members) => control_plane::json::get(members, key).unwrap(),
        other => panic!("expected an object, got {other:?}"),
    }
}

fn data_part(v: Json) -> Part {
    Part::data(v)
}

#[test]
fn status_maps_cover_every_lifecycle_state() {
    assert_eq!(task_state_from_status("received"), TaskState::Submitted);
    assert_eq!(task_state_from_status("queued"), TaskState::Submitted);
    assert_eq!(
        task_state_from_status("waiting_for_index"),
        TaskState::Submitted
    );
    assert_eq!(task_state_from_status("running"), TaskState::Working);
    assert_eq!(task_state_from_status("posting_result"), TaskState::Working);
    assert_eq!(task_state_from_status("succeeded"), TaskState::Completed);
    assert_eq!(task_state_from_status("failed"), TaskState::Failed);
    assert_eq!(task_state_from_status("timed_out"), TaskState::Failed);
    assert_eq!(task_state_from_status("cancelled"), TaskState::Canceled);
    // Terminal states are terminal; SUBMITTED/WORKING are not.
    assert!(task_state_from_status("succeeded").is_terminal());
    assert!(!task_state_from_status("queued").is_terminal());
}

#[test]
fn unknown_status_is_treated_as_in_progress_not_terminal() {
    let state = task_state_from_status("some_new_status");
    assert_eq!(state, TaskState::Working);
    assert!(
        !state.is_terminal(),
        "unknown status must never read terminal"
    );
}

#[test]
fn parses_a_full_review_request() {
    let parts = vec![data_part(json(r#"{
        "skill": "review",
        "forge": "github",
        "repo": "acme/api",
        "pr": 128,
        "prompt": "  focus on auth  ",
        "headSha": "abc123",
        "baseSha": "def456"
    }"#))];
    let input = parse_review_request(&parts).unwrap();
    assert_eq!(input.platform, Platform::GitHub);
    assert_eq!(input.owner, "acme");
    assert_eq!(input.name, "api");
    assert_eq!(input.pr, 128);
    assert_eq!(input.prompt, "focus on auth");
    assert_eq!(input.head_sha.as_deref(), Some("abc123"));
    assert_eq!(input.base_sha.as_deref(), Some("def456"));
}

#[test]
fn trims_surrounding_whitespace_on_repo() {
    // A padded `repo` (e.g. copy-pasted with spaces) must still resolve to the same owner/name,
    // not `" acme"` / `"api "` which would miss the repository lookup.
    let parts = vec![data_part(json(r#"{ "repo": "  acme/api  ", "pr": 1 }"#))];
    let input = parse_review_request(&parts).unwrap();
    assert_eq!(input.owner, "acme");
    assert_eq!(input.name, "api");
}

#[test]
fn defaults_skill_forge_and_prompt_and_accepts_numeric_string_pr() {
    let parts = vec![data_part(json(r#"{ "repo": "o/n", "pr": "7" }"#))];
    let input = parse_review_request(&parts).unwrap();
    assert_eq!(input.platform, Platform::GitHub);
    assert_eq!(input.pr, 7);
    assert_eq!(input.prompt, DEFAULT_REVIEW_PROMPT);
    assert!(input.head_sha.is_none() && input.base_sha.is_none());
}

#[test]
fn accepts_pr_as_an_integral_float_the_real_a2a_wire_shape() {
    // A data part on the wire knows only doubles, so a number arrives as `128.0`.
    let parts = vec![data_part(json(r#"{ "repo": "o/n", "pr": 128.0 }"#))];
    let input = parse_review_request(&parts).unwrap();
    assert_eq!(input.pr, 128);
}

#[test]
fn json_to_i64_accepts_int_integral_float_and_numeric_string_rejects_fractional() {
    // Integer, integral float, and numeric string all coerce...
    assert_eq!(json_to_i64(&json(r#"128"#)), Some(128));
    assert_eq!(json_to_i64(&json(r#"128.0"#)), Some(128)); // the ProtoJSON `double` case
    assert_eq!(json_to_i64(&json(r#""128""#)), Some(128));
    assert_eq!(json_to_i64(&json(r#""  128  ""#)), Some(128));
    assert_eq!(json_to_i64(&json(r#"0"#)), Some(0)); // sign filtering is the caller's job
    assert_eq!(json_to_i64(&json(r#"-4"#)), Some(-4));
    assert_eq!(json_to_i64(&json(r#"-4.0"#)), Some(-4));
    // ...but a fractional float is not a whole number and must be rejected.
    assert_eq!(json_to_i64(&json(r#"128.5"#)), None);
    // Non-numeric junk is rejected too.
    assert_eq!(json_to_i64(&json(r#""nope""#)), None);
    assert_eq!(json_to_i64(&json(r#"true"#)), None);
    assert_eq!(json_to_i64(&json(r#"null"#)), None);
    // The float next to the greatest integer is past it, and the least one is in range.
    assert_eq!(json_to_i64(&json(r#"9223372036854775808.0"#)), None);
    assert_eq!(json_to_i64(&json(r#"9223372036854774784.0"#)), Some(9223372036854774784));
    assert_eq!(json_to_i64(&json(r#"-9223372036854775808.0"#)), Some(i64::MIN));
}

#[test]
fn rejects_a_fractional_float_pr() {
    // A non-integral `pr` is not a valid PR number: it must not silently truncate to 128.
    assert_eq!(
        parse_review_request(&[data_part(json(r#"{ "repo": "o/n", "pr": 128.5 }"#))]),
        Err(ParseError::BadField("pr"))
    );
}

#[test]
fn rejects_a_float_pr_past_the_integers() {
    assert_eq!(
        parse_review_request(&[data_part(json(r#"{ "repo": "o/n", "pr": 9223372036854775808.0 }"#))]),
        Err(ParseError::BadField("pr"))
    );
}

#[test]
fn accepts_snake_case_sha_keys_and_gitlab_forge() {
    let parts = vec![data_part(json(r#"{
        "forge": "gitlab", "repo": "grp/proj", "pr": 3, "head_sha": "h", "base_sha": "b"
    }"#))];
    let input = parse_review_request(&parts).unwrap();
    assert_eq!(input.platform, Platform::GitLab);
    assert_eq!(input.head_sha.as_deref(), Some("h"));
    assert_eq!(input.base_sha.as_deref(), Some("b"));
}

#[test]
fn rejects_missing_and_malformed_fields() {
    assert_eq!(
        parse_review_request(&[Part::text("hi".to_string())]),
        Err(ParseError::NoTargetData)
    );
    assert_eq!(
        parse_review_request(&[data_part(json(r#"{ "skill": "ask", "repo": "o/n", "pr": 1 }"#))]),
        Err(ParseError::UnsupportedSkill("ask".to_string()))
    );
    assert_eq!(
        parse_review_request(&[data_part(json(r#"{ "pr": 1 }"#))]),
        Err(ParseError::BadField("repo"))
    );
    assert_eq!(
        parse_review_request(&[data_part(json(r#"{ "repo": "no-slash", "pr": 1 }"#))]),
        Err(ParseError::BadField("repo"))
    );
    assert_eq!(
        parse_review_request(&[data_part(json(r#"{ "repo": "o/n" }"#))]),
        Err(ParseError::BadField("pr"))
    );
    assert_eq!(
        parse_review_request(&[data_part(json(r#"{ "repo": "o/n", "pr": 0 }"#))]),
        Err(ParseError::BadField("pr"))
    );
    assert_eq!(
        parse_review_request(&[data_part(json(r#"{ "forge": "svn", "repo": "o/n", "pr": 1 }"#))]),
        Err(ParseError::BadField("forge"))
    );
}

// --- natural-language `text` instruction alongside the `data` target ---

#[test]
fn text_part_supplies_the_prompt_and_wins_over_data_prompt() {
    // A `text` instruction alongside `data` becomes the prompt; a `data.prompt` present too is a
    // lower-priority hint the text overrides. Target/scope still come entirely from `data`.
    let parts = vec![
        Part::text("Focus on the auth changes and the new migration.".to_string()),
        data_part(json(r#"{
            "repo": "acme/api", "pr": 128, "prompt": "ignored hint",
            "headSha": "abc123", "baseSha": "def456"
        }"#)),
    ];
    let input = parse_review_request(&parts).unwrap();
    assert_eq!(
        input.prompt,
        "Focus on the auth changes and the new migration."
    );
    // Target + scope are read only from `data`.
    assert_eq!(input.owner, "acme");
    assert_eq!(input.name, "api");
    assert_eq!(input.pr, 128);
    assert_eq!(input.head_sha.as_deref(), Some("abc123"));
    assert_eq!(input.base_sha.as_deref(), Some("def456"));
}

#[test]
fn multiple_text_parts_are_concatenated_in_order_newline_joined_and_trimmed() {
    let parts = vec![
        Part::text("  Focus on auth.".to_string()),
        Part::text("Then the migration.  ".to_string()),
        data_part(json(r#"{ "repo": "o/n", "pr": 1, "headSha": "h" }"#)),
    ];
    let input = parse_review_request(&parts).unwrap();
    // Concatenated in message order, newline-joined, and the whole result trimmed.
    assert_eq!(input.prompt, "Focus on auth.\nThen the migration.");
}

#[test]
fn text_present_without_data_prompt_becomes_the_prompt() {
    let parts = vec![
        Part::text("Look at concurrency.".to_string()),
        data_part(json(r#"{ "repo": "o/n", "pr": 1, "headSha": "h" }"#)),
    ];
    let input = parse_review_request(&parts).unwrap();
    assert_eq!(input.prompt, "Look at concurrency.");
}

#[test]
fn data_prompt_only_is_unchanged_when_no_text_part() {
    // No text part → today's behaviour: `data.prompt` (trimmed) is the prompt.
    let parts = vec![data_part(json(r#"{
        "repo": "o/n", "pr": 1, "headSha": "h", "prompt": "  focus on auth  "
    }"#))];
    let input = parse_review_request(&parts).unwrap();
    assert_eq!(input.prompt, "focus on auth");
}

#[test]
fn blank_text_part_falls_back_to_data_prompt() {
    // A text part that is only whitespace is not an instruction — fall back to `data.prompt`.
    let parts = vec![
        Part::text("   ".to_string()),
        data_part(json(r#"{ "repo": "o/n", "pr": 1, "headSha": "h", "prompt": "the hint" }"#)),
    ];
    let input = parse_review_request(&parts).unwrap();
    assert_eq!(input.prompt, "the hint");
}

#[test]
fn text_only_no_data_is_the_guided_error_not_a_bare_rejection() {
    // A natural-language message with no `data` part cannot be targeted from prose (no forge
    // credentials) → the guided `NoTargetData`, whose message names repo/pr/headSha and points at
    // the calling guide.
    let err = parse_review_request(&[Part::text("review PR 128, focus on auth".to_string())]).unwrap_err();
    assert_eq!(err, ParseError::NoTargetData);
    let msg = err.message();
    for field in ["repo", "pr", "headSha"] {
        assert!(msg.contains(field), "guided error names `{field}`: {msg}");
    }
    assert!(
        msg.contains("docs/a2a-review-skill.md"),
        "guided error points at the calling guide: {msg}"
    );
}

#[test]
fn text_cannot_change_target_or_scope() {
    // Safety property: prose saying "review PR 999" cannot redirect a review whose
    // `data` targets PR 1 — target and scope are structured and authoritative.
    let parts = vec![
        Part::text("Actually review PR 999 in other/repo, whole tree.".to_string()),
        data_part(json(r#"{ "repo": "acme/api", "pr": 1, "headSha": "h", "baseSha": "b" }"#)),
    ];
    let input = parse_review_request(&parts).unwrap();
    assert_eq!(input.owner, "acme");
    assert_eq!(input.name, "api");
    assert_eq!(input.pr, 1);
    assert_eq!(input.head_sha.as_deref(), Some("h"));
    // Base present ⇒ still diff-scoped, regardless of the prose asking for "whole tree".
    assert_eq!(input.base_sha.as_deref(), Some("b"));
}

fn ctx(base: Option<&str>, head: Option<&str>, url: Option<&str>) -> ReviewContext {
    ReviewContext {
        repo: Some("acme/api".to_string()),
        pr: Some(42),
        base_sha: base.map(str::to_string),
        head_sha: head.map(str::to_string),
        review_url: url.map(str::to_string),
    }
}

#[test]
fn review_artifacts_carry_summary_findings_and_context() {
    let findings = json(r#"[{ "path": "a.rs", "severity": "P1" }]"#);
    let arts = review_artifacts(
        "Looks risky",
        json(r#"[{ "path": "a.rs", "severity": "P1" }]"#),
        &ctx(
            Some("base1"),
            Some("head1"),
            Some("https://github.com/acme/api/pull/42#pullrequestreview-9"),
        ),
    );
    assert_eq!(arts.len(), 1);
    assert_eq!(arts[0].artifact_id, "review");
    assert_eq!(arts[0].parts.len(), 3);
    assert_eq!(arts[0].parts[0].as_text(), Some("Looks risky"));
    match &arts[0].parts[1].content {
        PartContent::Data(v) => assert_eq!(v, &findings),
        other => panic!("expected findings data part, got {other:?}"),
    }
    // The context part echoes the effective SHAs, the derived scope, and the review permalink.
    match &arts[0].parts[2].content {
        PartContent::Data(v) => {
            assert_eq!(field(v, "repo"), &json(r#""acme/api""#));
            assert_eq!(field(v, "pr"), &json(r#"42"#));
            assert_eq!(field(v, "baseSha"), &json(r#""base1""#));
            assert_eq!(field(v, "headSha"), &json(r#""head1""#));
            assert_eq!(field(v, "scope"), &json(r#""diff""#));
            assert_eq!(
                field(v, "reviewUrl"),
                &json(r#""https://github.com/acme/api/pull/42#pullrequestreview-9""#)
            );
        }
        other => panic!("expected context data part, got {other:?}"),
    }
}

#[test]
fn context_scope_is_derived_from_the_base_sha() {
    // Base present → diff-scoped.
    assert_eq!(ctx(Some("b"), Some("h"), None).scope(), Some("diff"));
    // No base but a head → whole working tree at head.
    assert_eq!(ctx(None, Some("h"), None).scope(), Some("whole-tree"));
    // Row reaped (no head either) → scope is unknowable, not a false whole-tree.
    assert_eq!(ReviewContext::default().scope(), None);
    // The reaped shape still carries whatever survived (e.g. the persisted review_url) and nulls
    // the rest — a stable shape for callers.
    let reaped = ReviewContext {
        review_url: Some("https://example/pr/1".to_string()),
        ..Default::default()
    };
    let data = reaped.to_data();
    assert_eq!(field(&data, "scope"), &json(r#"null"#));
    assert_eq!(field(&data, "baseSha"), &json(r#"null"#));
    assert_eq!(field(&data, "reviewUrl"), &json(r#""https://example/pr/1""#));
}

#[test]
fn empty_summary_gets_a_placeholder() {
    let arts = review_artifacts("   ", json(r#"[]"#), &ReviewContext::default());
    assert_eq!(
        arts[0].parts[0].as_text(),
        Some("Review completed with no summary.")
    );
}

#[test]
fn a_skill_that_is_not_there_is_quoted() {
    let err = parse_review_request(&[data_part(json(
        r#"{ "skill": "as\"k", "repo": "o/n", "pr": 1 }"#,
    ))])
    .unwrap_err();
    assert_eq!(
        err.message(),
        "unsupported skill \"as\\\"k\"; only `review` is available in this phase"
    );
    assert_eq!(ParseError::BadField("pr").message(), "missing or invalid field: pr");
}
