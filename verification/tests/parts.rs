//! The pieces that the larger operations are made of, each on its own.

use control_plane::a2a::events::{
    artifact_update_payload, status_update_payload, StreamBody,
};
use control_plane::a2a::lifecycle::{
    completed_artifact, submit_review, CallerCtx, Decided, ReviewRecord, RunRow, SubmitRequest,
};
use control_plane::a2a::limits::QuotaConfig;
use control_plane::a2a::mapping::split_repo;
use control_plane::a2a::model::{state_wire, Artifact, ErrorKind, Metadata, Part, TaskState};
use control_plane::a2a::ssrf::{
    check_addresses, is_blocked_v4, is_blocked_v6, webhook_target, SsrfError, SsrfPolicy,
    WebhookTarget,
};
use control_plane::db::repositories::RepoForReview;
use control_plane::ids::id_text;
use control_plane::json::{float_as_i64, Json};
use control_plane::net::{display_ip, IpAddr, ParsedUrl, UrlHost};
use control_plane::order::{arrange, Key};
use control_plane::text;

fn object(members: Vec<(&str, Json)>) -> Json {
    Json::Object(members.into_iter().map(|(k, v)| (k.to_string(), v)).collect())
}

fn words(s: &str) -> Json {
    Json::Str(s.to_string())
}

fn request() -> SubmitRequest {
    SubmitRequest {
        tenant: None,
        context_id: Some("ctx".to_string()),
        parts: vec![Part::data(object(vec![
            ("repo", words("acme/api")),
            ("pr", Json::Int(164)),
            ("headSha", words("9f2a")),
        ]))],
    }
}

fn connected(status: &str) -> Option<RepoForReview> {
    Some(RepoForReview { id: 7, installation_id: Some(99), status: status.to_string() })
}

fn submitter(perms: &[&str]) -> CallerCtx {
    CallerCtx { id: "svc".to_string(), perms: perms.iter().map(|p| p.to_string()).collect() }
}

const QUOTA: QuotaConfig = QuotaConfig { max: 2, window_secs: 3600 };

#[test]
fn a_submission_is_decided_at_once() {
    let caller = submitter(&["a2a:review"]);
    match submit_review(&caller, request(), 5, "fresh", 1, QUOTA, connected("approved")) {
        Decided::Admitted(a) => {
            assert_eq!(a.pending.context_id, "ctx");
            assert_eq!(a.new_task.repository_id, 7);
            assert_eq!(a.new_task.installation_id, 99);
            assert_eq!(a.new_task.target_id, 164);
            assert_eq!(a.new_task.head_sha.as_deref(), Some("9f2a"));
            assert_eq!(a.new_task.webhook_delivery_id, format!("a2a:{}", id_text(5)));
        }
        other => panic!("{other:?}"),
    }
    for (perms, recent, repo) in [
        (vec![], 0, connected("approved")),
        (vec!["a2a:review"], 2, connected("approved")),
        (vec!["a2a:review"], 0, connected("pending")),
        (vec!["a2a:review"], 0, None),
    ] {
        match submit_review(&submitter(&perms), request(), 5, "fresh", recent, QUOTA, repo) {
            Decided::Rejected(r) => {
                assert_eq!(r.stored.state, TaskState::Rejected);
                assert_eq!(r.context_id, "ctx");
            }
            other => panic!("{other:?}"),
        }
    }
    let mut foreign = request();
    foreign.tenant = Some("t".to_string());
    match submit_review(&caller, foreign, 5, "fresh", 0, QUOTA, connected("approved")) {
        Decided::Failed(e) => assert_eq!(e.kind, ErrorKind::UnsupportedOperation),
        other => panic!("{other:?}"),
    }
}

#[test]
fn an_update_names_its_task_and_holds_its_body() {
    let update = status_update_payload(5, "ctx", TaskState::Working);
    assert_eq!(update.task_id, id_text(5));
    assert_eq!(update.context_id, "ctx");
    assert_eq!(update.body, StreamBody::Status(TaskState::Working));
    assert_eq!(update.last_chunk, None);
    let artifact = Artifact {
        artifact_id: "a".to_string(),
        name: None,
        description: None,
        parts: vec![Part::text("done".to_string())],
    };
    let update = artifact_update_payload(5, "ctx", artifact);
    assert_eq!(update.last_chunk, Some(true));
    match update.body {
        StreamBody::Artifact(a) => assert_eq!(a.parts[0].as_text(), Some("done")),
        other => panic!("{other:?}"),
    }
}

#[test]
fn a_finished_review_is_an_artifact() {
    let run = Some(RunRow {
        status: "succeeded".to_string(),
        repo_owner: Some("acme".to_string()),
        repo_name: Some("api".to_string()),
        target_id: 164,
        base_sha: None,
        head_sha: Some("9f2a".to_string()),
    });
    let review = ReviewRecord {
        summary: "Two findings.".to_string(),
        findings: Json::Array(vec![]),
        review_url: None,
    };
    let artifact = completed_artifact(Some(review), &run).expect("a review was persisted");
    assert_eq!(artifact.parts[0].as_text(), Some("Two findings."));
    assert!(completed_artifact(None, &run).is_none());
}

#[test]
fn metadata_keeps_its_entries() {
    let entries = vec![("a".to_string(), Json::Int(1)), ("b".to_string(), words("x"))];
    let metadata = Metadata::from_entries(entries).insert("c", Json::Bool(true)).remove("a");
    assert!(metadata.get("a").is_none());
    assert_eq!(metadata.get("b"), Some(&words("x")));
    let mut left: Vec<String> = metadata.into_entries().into_iter().map(|(k, _)| k).collect();
    left.sort();
    assert_eq!(left, vec!["b", "c"]);
}

#[test]
fn a_state_has_one_name_on_the_wire() {
    assert_eq!(state_wire(TaskState::InputRequired), "TASK_STATE_INPUT_REQUIRED");
    assert_eq!(state_wire(TaskState::Canceled), "TASK_STATE_CANCELED");
}

#[test]
fn a_repository_is_named_by_owner_and_name() {
    assert_eq!(split_repo("acme/api"), Some(("acme", "api")));
    assert_eq!(split_repo("acme"), None);
    assert_eq!(split_repo("/api"), None);
    assert_eq!(split_repo("acme/"), None);
}

fn url(scheme: &str, host: Option<UrlHost>, port: Option<u16>) -> ParsedUrl {
    ParsedUrl { scheme: scheme.to_string(), host, port, text: String::new() }
}

#[test]
fn a_webhook_is_an_address_or_a_name() {
    match webhook_target(&url("https", Some(UrlHost::V4(1)), None)) {
        Ok(WebhookTarget::Address(IpAddr::V4(1))) => {}
        other => panic!("{other:?}"),
    }
    match webhook_target(&url("https", Some(UrlHost::Domain("h".to_string())), Some(443))) {
        Ok(WebhookTarget::Name(name)) => assert_eq!(name, "h"),
        other => panic!("{other:?}"),
    }
    assert!(matches!(webhook_target(&url("http", None, None)), Err(SsrfError::NotHttps)));
    assert!(matches!(webhook_target(&url("https", None, None)), Err(SsrfError::MissingHost)));
    assert!(matches!(
        webhook_target(&url("https", Some(UrlHost::V4(1)), Some(8443))),
        Err(SsrfError::DisallowedPort(8443))
    ));
}

#[test]
fn one_blocked_address_blocks_them_all() {
    let policy = SsrfPolicy::default();
    let public = IpAddr::v4(93, 184, 216, 34);
    let private = IpAddr::v4(10, 0, 0, 1);
    assert!(check_addresses(&vec![public], &policy).is_ok());
    match check_addresses(&vec![public, private], &policy) {
        Err(SsrfError::BlockedAddress(ip)) => assert_eq!(display_ip(ip), "10.0.0.1"),
        other => panic!("{other:?}"),
    }
    assert!(matches!(check_addresses(&vec![], &policy), Err(SsrfError::NoAddresses)));
    assert!(is_blocked_v4(0x7f00_0001));
    assert!(!is_blocked_v4(0x5db8_d822));
    assert!(is_blocked_v6(1));
    assert!(!is_blocked_v6(0x2606_2800_0220_0001_0248_1893_25c8_1946));
}

#[test]
fn a_float_counts_as_a_whole_number_where_it_is_one() {
    assert_eq!(float_as_i64(164.0_f64.to_bits()), Some(164));
    assert_eq!(float_as_i64((-3.0_f64).to_bits()), Some(-3));
    assert_eq!(float_as_i64(1.5_f64.to_bits()), None);
    assert_eq!(float_as_i64(f64::NAN.to_bits()), None);
    assert_eq!(float_as_i64(9_223_372_036_854_775_808.0_f64.to_bits()), None, "one past the range");
    assert_eq!(float_as_i64((-9_223_372_036_854_775_808.0_f64).to_bits()), Some(i64::MIN));
    assert_eq!(
        float_as_i64(9_223_372_036_854_774_784.0_f64.to_bits()),
        Some(9_223_372_036_854_774_784)
    );
}

#[test]
fn rows_are_arranged_by_key() {
    let key = |major: i128, id: u128| Key { major, minor: 0, id };
    let keys = vec![key(2, 1), key(1, 9), key(1, 3), key(0, 0)];
    assert_eq!(arrange(&vec![true, true, true, false], &keys), vec![2, 1, 0]);
}

#[test]
fn texts_are_cut_and_read() {
    assert_eq!(text::split("a,,b", ','), vec!["a", "", "b"]);
    assert_eq!(text::split("", ','), vec![""]);
    assert_eq!(text::trim("\u{3000} x \n"), "x");
    assert!(text::blank(" \t"));
    assert_eq!(text::trim_end_slashes("http://h//"), "http://h");
    assert!(text::not_after("a", "ab"));
    assert!(!text::not_after("b", "ab"));
    assert_eq!(text::parse_i64("+7"), Some(7));
    assert_eq!(text::parse_i64("-9223372036854775808"), Some(i64::MIN));
    assert_eq!(text::parse_i64("9223372036854775808"), None);
    assert_eq!(text::parse_i64(" 7"), None);
    assert_eq!(text::parse_u32("-0"), "-0".parse::<u32>().ok());
    assert_eq!(text::i64_text(i64::MIN), "-9223372036854775808");
    assert_eq!(text::u64_text(u64::MAX), "18446744073709551615");
}
