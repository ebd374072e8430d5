//! Runs, repositories, reviews and the tables around them.

use control_plane::db::code_chunks::{
    delete_code_chunks_for_repo, delete_repo_index_rows, has_active_index_task, in_use_commits,
    latest_indexed_commit, list_disabled_repos_needing_purge, prune_code_chunks,
    reconcile_embedding_dimension, repos_with_stale_snapshots, upsert_code_chunks, vector_literal,
    ChunkRow, CodeChunk, DimensionChange,
};
use control_plane::db::durable_step::{
    fetch_durable_step, get_pr_open_blob, has_durable_steps, purge_durable_steps,
    put_pr_open_blob, sweep_durable_steps, upsert_durable_step, DurableStep, InvalidResult,
    PrOpenBlob,
};
use control_plane::db::feedback::{
    get_feedback, list_pollable_comments, reconcile_comment_feedback, rejected_findings_for_repo,
    FeedbackRecord, Reaction, ReportedFinding, StoredComment,
};
use control_plane::db::outbox::{
    claim_outbox_batch, enqueue_outbox_post, load_pending_outbox_row, mark_outbox_dead_letter,
    mark_outbox_failed, mark_outbox_posted, outbox_id_by_dedup_key, prune_outbox, NewPost,
    OutboxRow, OutboxStatus,
};
use control_plane::db::pending_actions::{ActionKind, PendingBuffer, PendingInline};
use control_plane::db::repositories::{
    find_by_id, get_repository_by_id, get_task_context, list_repositories, list_repositories_page,
    register_pending_repository, repository_approved, repository_installation_id,
    set_repository_status_by_id, set_repository_status_by_platform_id, shown_activity,
    update_repository_default_branch, upsert_repository, RepoStatus, RepositoryCursor,
    RepositoryRecord,
};
use control_plane::db::reviews::{
    all_prior_reviews_for_target, get_review, get_transcript, has_responded_or_pending_content,
    has_review_intent_or_posted_review, insert_review_if_absent, posted_findings,
    posted_findings_for_head, record_review_run_telemetry, replace_transcript, store_review_comments,
    target_has_prior_findings, upsert_review, ReviewComment, ReviewCommentRef, ReviewRow,
    RunTelemetry, Target, TranscriptInput, TranscriptRow,
};
use control_plane::db::search::{holds, read_query};
use control_plane::db::tasks::{
    cancel_active_tasks_for_pr, cancel_active_tasks_for_repo, cancel_superseded_pr_reviews,
    claim_next_task, claimed_task, clear_job_name, create_explicit_task, create_index_task,
    create_task, durable_step_run_epoch, get_check_run_external_id, get_task, get_task_status,
    is_runner_reportable_status, list_cancelled_with_job, list_reapable_tasks, list_tasks_page,
    release_task, renew_lease, retry_explicit, set_check_run_external_id, set_task_job,
    set_task_kind, set_task_status, should_report_check_run, task_row, NewTask, RunStatus,
    TaskRecord, TasksPageFilter, DEFAULT_PRIORITY,
};
use control_plane::db::webhook_deliveries::{
    compact_webhook_payloads, count_recent_mcp_runs, record_delivery, Delivery,
};
use control_plane::json::Json;
use control_plane::platform::Platform;
use uuid::Uuid;

const NOW: i64 = 1_700_000_000_000_000;
const SECOND: i64 = 1_000_000;
const MINUTE: i64 = 60 * SECOND;
const HOUR: i64 = 60 * MINUTE;
const DAY: i64 = 24 * HOUR;
const LEASE: u64 = 60_000_000;

fn new_id() -> u128 {
    Uuid::new_v4().as_u128()
}

fn convert(value: serde_json::Value) -> Json {
    match value {
        serde_json::Value::Null => Json::Null,
        serde_json::Value::Bool(b) => Json::Bool(b),
        serde_json::Value::Number(n) => match n.as_i64() {
            Some(i) => Json::Int(i),
            None => Json::Float(n.as_f64().unwrap().to_bits()),
        },
        serde_json::Value::String(s) => Json::Str(s),
        serde_json::Value::Array(items) => Json::Array(items.into_iter().map(convert).collect()),
        serde_json::Value::Object(members) => {
            Json::Object(members.into_iter().map(|(k, v)| (k, convert(v))).collect())
        }
    }
}

fn json(text: &str) -> Json {
    convert(serde_json::from_str(text).unwrap())
}

fn delivery(id: &str, event: &str, at: i64) -> Delivery {
    Delivery {
        platform: Platform::GitHub,
        delivery_id: id.to_string(),
        event_name: event.to_string(),
        caller: None,
        payload: json(r#"{ "action": "opened" }"#),
        received_at: at,
    }
}

fn seed() -> (Vec<RepositoryRecord>, i64) {
    let mut repos = Vec::new();
    let id = upsert_repository(&mut repos, Platform::GitHub, 1, "octo", "repo", "main", None, 1);
    (repos, id)
}

fn pr_task(repository_id: i64, head: &str) -> NewTask {
    NewTask {
        repository_id,
        installation_id: 99,
        webhook_delivery_id: "d1".to_string(),
        target_type: "pull_request".to_string(),
        target_id: 7,
        command_text: "review".to_string(),
        base_sha: Some("base".to_string()),
        head_sha: Some(head.to_string()),
        run_epoch: 0,
        preset: "fast".to_string(),
        entry_point: "pr_open".to_string(),
        trigger_comment_id: None,
        trace_context: None,
        model_override: None,
        check_runs_enabled: false,
        run_after_secs: None,
    }
}

fn created(tasks: &mut Vec<TaskRecord>, task: &NewTask) -> u128 {
    create_task(tasks, task, new_id(), NOW).expect("task").id
}

fn claim_after_create(tasks: &mut Vec<TaskRecord>, head: &str) -> u128 {
    created(tasks, &pr_task(1, head));
    let at = claim_next_task(tasks, "owner-a", LEASE, NOW).unwrap();
    tasks[at].id
}

fn at(tasks: &Vec<TaskRecord>, id: u128) -> &TaskRecord {
    &tasks[get_task(tasks, id).unwrap()]
}

fn status_of(tasks: &Vec<TaskRecord>, id: u128) -> &'static str {
    get_task_status(tasks, id).unwrap().as_str()
}

fn review(task_id: u128, summary: &str, counts: (i32, i32), findings: &str) -> ReviewRow {
    ReviewRow {
        task_id,
        summary: summary.to_string(),
        body: "body".to_string(),
        inline_count: counts.0,
        deferred_count: counts.1,
        out_of_scope_count: 0,
        findings: json(findings),
        review_url: None,
        platform_review_id: None,
        created_at: NOW,
    }
}

fn post(task: Option<u128>, kind: &str, payload: &str, key: &str) -> NewPost {
    NewPost {
        platform: Platform::GitHub,
        task_id: task,
        installation_id: 99,
        owner: "o".to_string(),
        repo: "r".to_string(),
        kind: kind.to_string(),
        payload: json(payload),
        dedup_key: key.to_string(),
    }
}

fn enqueue(rows: &mut Vec<OutboxRow>, post: NewPost) -> bool {
    let fresh = rows.len() as i64 + 1;
    enqueue_outbox_post(rows, post, fresh, NOW)
}

fn comment_ref(id: i64, kind: &str, place: Option<(&str, i32)>) -> ReviewCommentRef {
    ReviewCommentRef {
        platform_comment_id: id,
        kind: kind.to_string(),
        file: place.map(|(f, _)| f.to_string()),
        line: place.map(|(_, l)| l),
    }
}

fn pr(repository_id: i64, number: i64) -> Target {
    Target { repository_id, target_type: "pull_request".to_string(), target_id: number }
}

#[test]
fn record_delivery_dedupes_on_delivery_id() {
    let mut table = Vec::new();
    assert!(
        record_delivery(&mut table, delivery("delivery-abc", "pull_request", NOW)),
        "first delivery is new"
    );
    assert!(
        !record_delivery(&mut table, delivery("delivery-abc", "pull_request", NOW)),
        "replayed delivery id is a duplicate"
    );
    assert!(
        record_delivery(&mut table, delivery("delivery-xyz", "push", NOW)),
        "a different delivery id is independent"
    );
    let count = table.iter().filter(|d| d.delivery_id == "delivery-abc").count();
    assert_eq!(count, 1, "the replayed delivery is stored exactly once");
}

#[test]
fn old_payloads_are_compacted_and_the_ledger_is_kept() {
    let mut table = Vec::new();
    record_delivery(&mut table, delivery("old", "push", NOW - 40 * DAY));
    record_delivery(&mut table, delivery("new", "push", NOW));
    let mut mcp = delivery("m1", "mcp_run", NOW - 10 * SECOND);
    mcp.caller = Some("svc".to_string());
    record_delivery(&mut table, mcp);
    let counted = count_recent_mcp_runs(&table, "svc", 60, NOW);
    assert_eq!(compact_webhook_payloads(&mut table, 30, 100, NOW), 1);
    assert_eq!(table.len(), 3, "rows stay; only the payload shrinks");
    assert_eq!(table[1].payload, json(r#"{ "action": "opened" }"#));
    assert_ne!(table[0].payload, json(r#"{ "action": "opened" }"#));
    assert_eq!(count_recent_mcp_runs(&table, "svc", 60, NOW), counted);
    // A delivery that was compacted is still known.
    assert!(!record_delivery(&mut table, delivery("old", "push", NOW)));
}

#[test]
fn review_waits_for_index_when_an_index_is_in_flight() {
    let mut tasks = Vec::new();
    // An index task is queued = in flight.
    create_index_task(&mut tasks, 1, 99, new_id(), NOW).expect("index task");
    // A review enqueued now must wait for it.
    let review = created(&mut tasks, &pr_task(1, "head1"));
    assert_eq!(status_of(&tasks, review), "waiting_for_index");
    // It is NOT claimable (claim only takes `queued`) — the index task is what gets claimed.
    let i = claim_next_task(&mut tasks, "w", LEASE, NOW).expect("a claimable task");
    let claimed = claimed_task(&tasks[i]);
    assert_ne!(claimed.id, review, "the waiting review must not be claimed");
    assert_eq!(claimed.command_text, "index");
}

#[test]
fn index_completion_releases_waiting_reviews() {
    let mut tasks = Vec::new();
    let index = create_index_task(&mut tasks, 1, 99, new_id(), NOW).expect("index task");
    let review = created(&mut tasks, &pr_task(1, "head1"));
    assert_eq!(status_of(&tasks, review), "waiting_for_index");

    let report = set_task_status(&mut tasks, index, RunStatus::Succeeded, None, NOW);
    assert_eq!(report.released, vec![review]);
    assert_eq!(
        status_of(&tasks, review),
        "queued",
        "the index completing releases the parked review"
    );
}

#[test]
fn review_is_queued_when_no_index_in_flight() {
    let mut tasks = Vec::new();
    let c = create_task(&mut tasks, &pr_task(1, "head1"), new_id(), NOW).unwrap();
    assert_eq!(status_of(&tasks, c.id), "queued");
    assert!(c.wake);
}

#[test]
fn a_failed_index_still_releases_waiting_reviews() {
    let mut tasks = Vec::new();
    let index = create_index_task(&mut tasks, 1, 99, new_id(), NOW).expect("index task");
    let review = created(&mut tasks, &pr_task(1, "head1"));
    set_task_status(&mut tasks, index, RunStatus::Failed, Some("boom"), NOW);
    assert_eq!(
        status_of(&tasks, review),
        "queued",
        "a failed index still releases the parked review"
    );
}

#[test]
fn has_responded_reflects_posted_reviews_and_comments() {
    let mut tasks = Vec::new();
    let (mut reviews, mut comments, outbox) = (Vec::new(), Vec::new(), Vec::new());
    let task = created(&mut tasks, &pr_task(1, "head1"));
    // Nothing posted or queued → false (a failed run here SHOULD get a fallback notice).
    assert!(!has_responded_or_pending_content(&reviews, &comments, &outbox, task));

    // A recorded comment (the failure notice itself, or an inline finding) flips it true.
    store_review_comments(&mut comments, task, vec![comment_ref(12345, "failure_notice", None)]);
    assert!(has_responded_or_pending_content(&reviews, &comments, &outbox, task));

    // A posted grouped review also counts as responded.
    let task2 = created(&mut tasks, &pr_task(1, "head2"));
    assert!(!has_responded_or_pending_content(&reviews, &comments, &outbox, task2));
    upsert_review(&mut reviews, review(task2, "summary", (0, 0), "[]"));
    assert!(has_responded_or_pending_content(&reviews, &comments, &outbox, task2));
}

#[test]
fn outbox_enqueue_claim_and_mark() {
    let task = new_id();
    let mut rows = Vec::new();
    let payload = r#"{ "issue": 7, "content": "eyes" }"#;

    // First enqueue inserts; a second with the same dedup_key is a no-op (idempotent).
    assert!(enqueue(&mut rows, post(Some(task), "reaction", payload, "k1")));
    assert!(!enqueue(&mut rows, post(Some(task), "reaction", payload, "k1")));

    // Claimable, carrying the coordinates to post with (no join needed).
    let batch = claim_outbox_batch(&rows, 10, NOW);
    assert_eq!(batch.len(), 1);
    let row = &mut rows[batch[0]];
    assert_eq!((row.kind.as_str(), row.owner.as_str()), ("reaction", "o"));

    // Marking posted removes it from the claim set.
    mark_outbox_posted(row, Some(555), NOW);
    assert!(claim_outbox_batch(&rows, 10, NOW).is_empty());

    // A failed delivery backs the row off into the future (not immediately re-claimable).
    enqueue(&mut rows, post(Some(task), "reply", payload, "k2"));
    let i = claim_outbox_batch(&rows, 10, NOW)[0];
    mark_outbox_failed(&mut rows[i], "github 502", NOW);
    assert!(
        claim_outbox_batch(&rows, 10, NOW).is_empty(),
        "a just-failed row is backed off, not immediately re-claimable"
    );
    assert_eq!(claim_outbox_batch(&rows, 10, NOW + 7 * DAY), vec![i], "but it is later");
    assert_eq!(rows[i].last_error.as_deref(), Some("github 502"));
    assert_eq!(rows[i].attempts, 1);
    // The wait is the square of the count in minutes, whatever the count is.
    rows[i].attempts = -4;
    mark_outbox_failed(&mut rows[i], "again", NOW);
    assert_eq!((rows[i].attempts, rows[i].status), (-3, OutboxStatus::Pending));
    assert_eq!(rows[i].next_attempt_at, i128::from(NOW + 9 * MINUTE));
}

#[test]
fn pr_open_intent_is_dedup_keyed_by_task_and_run_epoch() {
    let task = new_id();
    let key = format!("{task}:0:pr_open");
    let payload = r#"{ "branch": "open/357", "title": "Add feature", "content_hash": "abc123" }"#;

    // Offload the patch twice (a replay re-stores the same bytes) — idempotent on content hash.
    let mut blobs = Vec::new();
    for _ in 0..2 {
        put_pr_open_blob(
            &mut blobs,
            PrOpenBlob {
                content_hash: "abc123".to_string(),
                task_id: task,
                run_epoch: 0,
                patch: b"PATCH-BYTES".to_vec(),
            },
        );
    }
    assert_eq!(
        get_pr_open_blob(&blobs, "abc123").map(|b| b.as_slice()),
        Some(&b"PATCH-BYTES"[..]),
        "the offloaded branch rehydrates by content hash"
    );
    assert_eq!(blobs.len(), 1);
    assert!(get_pr_open_blob(&blobs, "abc").is_none());

    // First proposal enqueues the intent; a replay with the SAME (task, run_epoch) key is a no-op.
    let mut rows = Vec::new();
    assert!(enqueue(&mut rows, post(Some(task), "pr_open", payload, &key)));
    assert!(!enqueue(&mut rows, post(Some(task), "pr_open", payload, &key)));
    let count = rows.iter().filter(|r| r.task_id == Some(task) && r.kind == "pr_open").count();
    assert_eq!(count, 1, "replay must open exactly one PR intent");
}

#[test]
fn silent_clean_guard_and_insert_if_absent_protect_a_posted_review() {
    let (task, task2) = (new_id(), new_id());
    let (mut reviews, mut outbox) = (Vec::new(), Vec::new());

    // Nothing yet → the clean branch may proceed.
    assert!(!has_review_intent_or_posted_review(&outbox, &reviews, task));

    // A silent-clean persisted row (no platform_review_id) does NOT trip the guard.
    insert_review_if_absent(&mut reviews, review(task, "clean", (0, 0), "[]"));
    assert!(!has_review_intent_or_posted_review(&outbox, &reviews, task));

    // The reconciler upserts the POSTED copy (platform_review_id set) → guard trips…
    let mut posted = review(task, "found things", (2, 0), "[]");
    posted.review_url = Some("https://github.com/o/r/pull/7#pullrequestreview-9".to_string());
    posted.platform_review_id = Some(9);
    upsert_review(&mut reviews, posted);
    assert!(has_review_intent_or_posted_review(&outbox, &reviews, task));

    // …and a late clean-path insert is a no-op: the posted row keeps its platform_review_id.
    insert_review_if_absent(&mut reviews, review(task, "clean", (0, 0), "[]"));
    let row = &reviews[get_review(&reviews, task).expect("review row")];
    assert_eq!(
        row.platform_review_id,
        Some(9),
        "insert-if-absent must never clobber the posted review"
    );
    assert_eq!(row.inline_count, 2, "posted counts survive");

    // A pending `review` intent alone (no reviews row yet) also trips the guard.
    enqueue(&mut outbox, post(Some(task2), "review", "{}", "t2:review"));
    assert!(has_review_intent_or_posted_review(&outbox, &reviews, task2));
}

#[test]
fn has_responded_or_pending_content_covers_in_flight_review() {
    let task = new_id();
    let (reviews, comments, mut outbox) = (Vec::new(), Vec::new(), Vec::new());
    assert!(
        !has_responded_or_pending_content(&reviews, &comments, &outbox, task),
        "nothing posted or queued yet"
    );

    // A pending review intent → counts as responding (suppress the notice).
    enqueue(&mut outbox, post(Some(task), "review", r#"{ "pr": 7 }"#, "rk"));
    assert!(
        has_responded_or_pending_content(&reviews, &comments, &outbox, task),
        "a pending review intent means a review is coming"
    );

    // Once that review intent dead-letters, it no longer suppresses (the review won't post).
    let i = claim_outbox_batch(&outbox, 10, NOW)[0];
    let mut failures = 0;
    while outbox[i].status == OutboxStatus::Pending {
        mark_outbox_failed(&mut outbox[i], "boom", NOW);
        failures += 1;
        assert!(failures < 100);
    }
    assert!(
        !has_responded_or_pending_content(&reviews, &comments, &outbox, task),
        "a dead-lettered review no longer suppresses the failure notice"
    );
}

#[test]
fn outbox_rows_are_found_dead_lettered_and_pruned() {
    let mut rows = Vec::new();
    enqueue(&mut rows, post(None, "reply", "{}", "a"));
    enqueue(&mut rows, post(None, "reply", "{}", "b"));
    enqueue(&mut rows, post(None, "reply", "{}", "c"));
    assert_eq!(outbox_id_by_dedup_key(&rows, "b"), Some(2));
    assert_eq!(outbox_id_by_dedup_key(&rows, "z"), None);
    assert_eq!(load_pending_outbox_row(&rows, 2), Some(1));
    mark_outbox_posted(&mut rows[0], None, NOW);
    mark_outbox_dead_letter(&mut rows[1], "gone");
    assert_eq!(rows[1].status, OutboxStatus::Failed);
    assert_eq!(rows[1].last_error.as_deref(), Some("gone"));
    assert_eq!(load_pending_outbox_row(&rows, 2), None);
    assert_eq!(prune_outbox(&mut rows, 30, 90, NOW), (0, 0));
    assert_eq!(prune_outbox(&mut rows, 30, 90, NOW + 31 * DAY), (1, 0));
    assert_eq!(prune_outbox(&mut rows, 30, 90, NOW + 91 * DAY), (0, 1));
    // What is pending is never pruned.
    assert_eq!(prune_outbox(&mut rows, 30, 90, NOW + 10_000 * DAY), (0, 0));
    assert_eq!(rows.len(), 1);
    assert_eq!(rows[0].dedup_key, "c");
}

#[test]
fn issue_target_task_round_trips_and_is_distinct_from_a_pr() {
    let (repos, repo_id) = seed();
    let mut tasks = Vec::new();
    let mut issue = pr_task(repo_id, "");
    issue.target_type = "issue".to_string();
    issue.target_id = 42;
    issue.command_text = "explain the retry logic".to_string();
    issue.base_sha = None;
    issue.head_sha = None;
    let issue_id = created(&mut tasks, &issue);
    let ctx = get_task_context(&tasks, &repos, issue_id).expect("exists");
    assert_eq!(ctx.target_type, "issue");
    assert_eq!(ctx.target_id, 42);
    assert!(ctx.base_sha.is_none() && ctx.head_sha.is_none());

    // A PR #42 (same number) is a different task — target_type discriminates the idempotency key.
    let mut other = issue;
    other.target_type = "pull_request".to_string();
    let pr_id = created(&mut tasks, &other);
    assert_ne!(issue_id, pr_id);
}

#[test]
fn create_task_is_idempotent_on_target_and_head() {
    let mut tasks = Vec::new();
    let first = create_task(&mut tasks, &pr_task(1, "head1"), new_id(), NOW);
    assert!(first.is_some(), "first task is created");
    let dup = create_task(&mut tasks, &pr_task(1, "head1"), new_id(), NOW);
    assert!(dup.is_none(), "equivalent task is deduped");
    let new_head = create_task(&mut tasks, &pr_task(1, "head2"), new_id(), NOW);
    assert!(new_head.is_some(), "a new head SHA is a new task");
    assert_eq!(tasks.len(), 2);
}

#[test]
fn explicit_mention_always_creates_a_task_at_the_next_epoch() {
    let mut tasks = Vec::new();
    let mut mention = pr_task(1, "h1");
    mention.command_text = "review this".to_string();
    mention.preset = "deep".to_string();
    mention.entry_point = "mention".to_string();

    let first = create_explicit_task(&mut tasks, &mention, new_id(), NOW);
    let second = create_explicit_task(&mut tasks, &mention, new_id(), NOW);
    assert_ne!(first.id, second.id, "a repeated mention is not deduped");

    let mut epochs: Vec<i32> = tasks.iter().map(|t| t.run_epoch).collect();
    epochs.sort();
    assert_eq!(epochs, vec![0, 1], "consecutive epochs N and N+1");

    // A lost race is tried again, a bounded number of times.
    assert!(retry_explicit(0, true));
    assert!(!retry_explicit(0, false));
    assert!(!retry_explicit(1_000, true));
}

#[test]
fn auto_review_collapses_duplicate_opened_and_synchronize() {
    let mut tasks = Vec::new();
    let opened = create_task(&mut tasks, &pr_task(1, "head1"), new_id(), NOW);
    assert!(opened.is_some(), "the opened event creates the task");
    let synchronize = create_task(&mut tasks, &pr_task(1, "head1"), new_id(), NOW);
    assert!(synchronize.is_none(), "a duplicate for the same head is collapsed");
    assert_eq!(tasks.len(), 1, "exactly one auto-review task for the head");
}

#[test]
fn claim_next_task_takes_one_queued_task() {
    let mut tasks = Vec::new();
    created(&mut tasks, &pr_task(1, "head1"));
    let i = claim_next_task(&mut tasks, "owner-a", LEASE, NOW).expect("a queued task is claimed");
    let claimed = claimed_task(&tasks[i]);
    assert_eq!(claimed.attempts, 1, "claim increments attempts");
    assert_eq!(claimed.command_text, "review");
    assert!(
        claim_next_task(&mut tasks, "owner-b", LEASE, NOW).is_none(),
        "the claimed task is no longer queued"
    );
}

#[test]
fn reconcile_embedding_dimension_guards_and_migrates() {
    // Same dimension → no-op.
    assert_eq!(
        reconcile_embedding_dimension(Some(4096), 4096, false),
        Ok(DimensionChange::Keep)
    );
    // A change without the flag fails loud (no destruction).
    assert!(reconcile_embedding_dimension(Some(4096), 1536, false).is_err());
    // With the flag, the column migrates to the new width.
    assert_eq!(
        reconcile_embedding_dimension(Some(4096), 1536, true),
        Ok(DimensionChange::Rebuild(1536))
    );
}

#[test]
fn cancel_active_tasks_for_pr_cancels_the_prs_task() {
    let mut tasks = Vec::new();
    let id = created(&mut tasks, &pr_task(1, "h1"));
    // Closing the PR cancels its active task.
    assert_eq!(cancel_active_tasks_for_pr(&mut tasks, 1, 7, NOW), vec![id]);
    assert_eq!(status_of(&tasks, id), "cancelled");
    assert!(cancel_active_tasks_for_pr(&mut tasks, 1, 7, NOW).is_empty());
}

#[test]
fn a_push_cancels_what_it_supersedes() {
    let mut tasks = Vec::new();
    let old = created(&mut tasks, &pr_task(1, "h1"));
    let new = created(&mut tasks, &pr_task(1, "h2"));
    let mut asked = pr_task(1, "h1");
    asked.command_text = "@lightbridge review".to_string();
    asked.entry_point = "mention".to_string();
    let asked = created(&mut tasks, &asked);
    assert_eq!(cancel_superseded_pr_reviews(&mut tasks, 1, 7, "h2", NOW), vec![old]);
    assert_eq!(status_of(&tasks, old), "cancelled");
    assert_eq!(status_of(&tasks, new), "queued");
    assert_eq!(status_of(&tasks, asked), "queued", "what was asked for stays");
}

#[test]
fn release_task_requeues_for_another_claim() {
    let mut tasks = Vec::new();
    created(&mut tasks, &pr_task(1, "head1"));
    let first = claim_next_task(&mut tasks, "owner-a", LEASE, NOW).unwrap();
    let first_id = tasks[first].id;
    // Zero backoff so it is immediately due again.
    assert!(release_task(&mut tasks[first], 0, NOW));
    assert!(tasks[first].started_at.is_none(), "release clears started_at");

    let second = claim_next_task(&mut tasks, "owner-a", LEASE, NOW)
        .expect("released task is claimable again");
    assert_eq!(tasks[second].id, first_id);
    assert_eq!(tasks[second].attempts, 2, "the re-claim counts as another attempt");

    // A backoff holds it back until it has passed.
    assert!(release_task(&mut tasks[second], 5_000_000, NOW));
    assert!(claim_next_task(&mut tasks, "owner-a", LEASE, NOW).is_none());
    assert!(claim_next_task(&mut tasks, "owner-a", LEASE, NOW + 5 * SECOND).is_some());
}

#[test]
fn a_lease_is_renewed_while_it_lasts() {
    let mut tasks = Vec::new();
    let id = claim_after_create(&mut tasks, "head1");
    let i = get_task(&tasks, id).unwrap();
    assert_eq!(tasks[i].lease_expires_at, Some(NOW as i128 + LEASE as i128));
    assert!(renew_lease(&mut tasks[i], LEASE, NOW + SECOND));
    assert_eq!(tasks[i].lease_expires_at, Some((NOW + SECOND) as i128 + LEASE as i128));
    set_task_status(&mut tasks, id, RunStatus::Succeeded, None, NOW);
    assert!(!renew_lease(&mut tasks[i], LEASE, NOW + SECOND), "a finished run has no lease");
}

#[test]
fn list_repositories_summarises_activity() {
    let mut repos = Vec::new();
    let mut tasks = Vec::new();
    let active =
        upsert_repository(&mut repos, Platform::GitHub, 1, "vymalo", "shop", "main", None, 1);
    let idle =
        upsert_repository(&mut repos, Platform::GitHub, 2, "vymalo", "idle", "trunk", None, 2);
    for n in 0..2 {
        let mut task = pr_task(active, "");
        task.target_id = n;
        task.head_sha = None;
        created(&mut tasks, &task);
    }

    let listed = list_repositories(&repos, &tasks, None);
    assert_eq!(listed.len(), 2);
    // Active repo (has tasks) sorts first by last_task_at.
    assert_eq!(listed[0].id, active);
    assert_eq!(listed[0].task_count, 2);
    assert!(listed[0].last_task_at.is_some());

    let idle_row = listed.iter().find(|r| r.id == idle).unwrap();
    assert_eq!(idle_row.task_count, 0);
    assert!(idle_row.last_task_at.is_none());

    let one = get_repository_by_id(&repos, &tasks, active).unwrap();
    assert_eq!((one.name.as_str(), one.task_count), ("shop", 2));
    assert!(get_repository_by_id(&repos, &tasks, 99).is_none());
}

#[test]
fn list_tasks_returns_most_recent_first() {
    let mut tasks = Vec::new();
    let mut ids = Vec::new();
    for n in 0..3 {
        let mut task = pr_task(1, "");
        task.target_id = n;
        task.head_sha = None;
        ids.push(created(&mut tasks, &task));
    }
    let (oldest, middle, newest) = (ids[0], ids[1], ids[2]);
    // Insertion order is NOT recency order.
    for (id, hours_ago) in [(newest, 1), (middle, 2), (oldest, 3)] {
        let i = get_task(&tasks, id).unwrap();
        tasks[i].created_at = NOW - hours_ago * HOUR;
    }
    let (repos, _) = seed();
    let all = TasksPageFilter { status: None, repository_id: None, query: None };
    let page = list_tasks_page(&tasks, &repos, &all, 100, 0);
    let order: Vec<u128> = page.rows.iter().map(|i| tasks[*i].id).collect();
    assert_eq!(
        order,
        vec![newest, middle, oldest],
        "the list must return most-recent-first by created_at"
    );
    assert_eq!(page.total, 3);

    // A page is cut out of the order; the total counts every match.
    let page = list_tasks_page(&tasks, &repos, &all, 1, 1);
    assert_eq!(tasks[page.rows[0]].id, middle);
    assert_eq!((page.rows.len(), page.total), (1, 3));
    let running = TasksPageFilter {
        status: Some(vec![RunStatus::Running]),
        repository_id: None,
        query: None,
    };
    assert_eq!(list_tasks_page(&tasks, &repos, &running, 100, 0).total, 0);
    let elsewhere = TasksPageFilter { status: None, repository_id: Some(2), query: None };
    assert_eq!(list_tasks_page(&tasks, &repos, &elsewhere, 100, 0).total, 0);
}

#[test]
fn runs_are_searched_by_command_and_repository() {
    let (mut repos, id) = seed();
    let other = upsert_repository(&mut repos, Platform::GitHub, 2, "acme", "a_b", "main", None, 2);
    let mut tasks = Vec::new();
    let review = created(&mut tasks, &pr_task(id, "h1"));
    let mut asked = pr_task(other, "h2");
    asked.command_text = "Explain 100% of it".to_string();
    let asked = created(&mut tasks, &asked);
    let search = |query: &str| {
        let filter = TasksPageFilter {
            status: None,
            repository_id: None,
            query: Some(query.to_string()),
        };
        let page = list_tasks_page(&tasks, &repos, &filter, 100, 0);
        assert_eq!(page.rows.len(), page.total);
        page.rows.iter().map(|i| tasks[*i].id).collect::<Vec<u128>>()
    };
    // The case of letters does not matter, and the pattern may stand anywhere.
    assert_eq!(search("REVIEW"), vec![review]);
    assert_eq!(search("OctO"), vec![review]);
    assert_eq!(search("xplain"), vec![asked]);
    assert!(search("nowhere").is_empty());
    // A percent sign stands for any text, an underscore for one character, and a backslash takes
    // the next character as it is.
    assert_eq!(search("ex%it"), vec![asked]);
    assert_eq!(search("100\\%"), vec![asked]);
    assert_eq!(search("r_view"), vec![review]);
    assert_eq!(search("a\\_b"), vec![asked]);
}

#[test]
fn a_query_is_a_pattern() {
    let found = |text: &str, query: &str| holds(&read_query(query), text);
    assert!(found("octo/Repo", "O/R"));
    assert!(found("", ""));
    assert!(!found("octo", "octopus"));
    assert!(found("a\\b", "\\\\"));
    assert!(!found("abc", "a\\_c"));
    assert!(found("abc", "a_c"));
    assert!(!found("ac", "a_c"));
    assert!(found("one two", "o%o"));
    assert!(found("50% off", "\\% OFF"));
    assert!(!found("50 off", "0\\%"));
}

#[test]
fn repo_approval_status_transitions() {
    let mut repos = Vec::new();
    let tasks = Vec::new();
    // A repo seen via the normal upsert path defaults to pending → gated.
    let id = upsert_repository(&mut repos, Platform::GitHub, 4242, "o", "r", "main", None, 1);
    let i = find_by_id(&repos, id).unwrap();
    assert!(!repository_approved(Some(&repos[i])), "new repos start pending (gated)");

    // register_pending is insert-only: it reports not-new for an existing repo and leaves it be.
    let again = |repos: &mut Vec<RepositoryRecord>| {
        register_pending_repository(repos, Platform::GitHub, 4242, "o", "r", "", None, 9)
    };
    assert!(!again(&mut repos));
    // A brand-new repo registers as pending (reports new).
    let second = |repos: &mut Vec<RepositoryRecord>| {
        register_pending_repository(repos, Platform::GitHub, 5555, "o", "r2", "", None, 2)
    };
    assert!(second(&mut repos));

    // Both pending repos show under the status filter; none are approved yet.
    let pending = list_repositories(&repos, &tasks, Some(RepoStatus::Pending));
    assert_eq!(pending.len(), 2);
    assert!(pending.iter().all(|r| r.status.as_str() == "pending" && !r.active));
    assert!(list_repositories(&repos, &tasks, Some(RepoStatus::Approved)).is_empty());

    // Approve → approved + active + records the approver; the repo may be reviewed.
    set_repository_status_by_id(&mut repos[i], RepoStatus::Approved, Some("alice"), NOW);
    let row = get_repository_by_id(&repos, &tasks, id).unwrap();
    assert_eq!(row.status.as_str(), "approved");
    assert!(row.active);
    assert_eq!(row.approved_by.as_deref(), Some("alice"));
    assert!(row.approved_at.is_some());
    assert!(repository_approved(Some(&repos[i])));

    // Disable → not approved, approver/timestamp cleared.
    set_repository_status_by_id(&mut repos[i], RepoStatus::Disabled, None, NOW);
    let row = get_repository_by_id(&repos, &tasks, id).unwrap();
    assert_eq!(row.status.as_str(), "disabled");
    assert!(!row.active);
    assert!(row.approved_by.is_none() && row.approved_at.is_none());
    assert!(!repository_approved(Some(&repos[i])));

    // Disable by the forge's number (the webhook removal path).
    set_repository_status_by_platform_id(
        &mut repos,
        Platform::GitHub,
        5555,
        RepoStatus::Disabled,
    );
    // Re-install of a DISABLED repo re-opens it to pending (so the admin can re-approve).
    assert!(second(&mut repos), "re-registering a disabled repo re-pends it");
    assert!(list_repositories(&repos, &tasks, Some(RepoStatus::Pending))
        .iter()
        .any(|r| r.platform_repo_id == 5555));
    // Re-registering an APPROVED repo is a no-op (must not revert it).
    set_repository_status_by_id(&mut repos[i], RepoStatus::Approved, Some("alice"), NOW);
    assert!(!again(&mut repos), "an approved repo is not re-pended");
    assert!(repository_approved(Some(&repos[i])));

    // Unknown local id → None.
    assert!(find_by_id(&repos, 999_999).is_none());
    assert!(!repository_approved(None));

    // Another sighting keeps the decision and follows the name.
    upsert_repository(&mut repos, Platform::GitHub, 4242, "o", "renamed", "dev", Some(5), 9);
    assert!(repository_approved(Some(&repos[i])));
    assert_eq!(repos[i].name, "renamed");
    update_repository_default_branch(&mut repos[i], "trunk");
    assert_eq!(repos[i].default_branch, "trunk");
}

#[test]
fn pages_of_repositories_tile_the_list() {
    let mut repos = Vec::new();
    for n in 1..=5 {
        let name = format!("r{n}");
        upsert_repository(&mut repos, Platform::GitHub, n, "o", &name, "main", None, n);
        repos[n as usize - 1].last_task_at = NOW + n * SECOND;
    }
    let first = list_repositories_page(&repos, None, None, 2);
    assert_eq!(first.rows, vec![4, 3]);
    assert_eq!(first.total, 5);
    assert!(first.prev.is_none());
    let (at, id) = first.next.unwrap();
    let second = list_repositories_page(&repos, None, Some(RepositoryCursor::After(at, id)), 2);
    assert_eq!(second.rows, vec![2, 1]);
    let (at, id) = second.next.unwrap();
    let third = list_repositories_page(&repos, None, Some(RepositoryCursor::After(at, id)), 2);
    assert_eq!(third.rows, vec![0]);
    assert!(third.next.is_none());
    let (at, id) = third.prev.unwrap();
    let back = list_repositories_page(&repos, None, Some(RepositoryCursor::Before(at, id)), 2);
    assert_eq!(back.rows, vec![2, 1]);
    // A search narrows the list and its total.
    let found = list_repositories_page(&repos, Some("R4"), None, 2);
    assert_eq!((found.rows, found.total), (vec![3], 1));
    assert_eq!(list_repositories_page(&repos, Some("nowhere"), None, 2).total, 0);
    assert!(shown_activity(NOW).is_some());
    assert!(shown_activity(0).is_none() || shown_activity(i64::MIN).is_none());
}

#[test]
fn purge_cancels_only_target_repo_tasks() {
    let mut tasks = Vec::new();
    created(&mut tasks, &pr_task(1, "h1"));
    created(&mut tasks, &pr_task(2, "h2"));
    // Cancels only the first repo's active task; the other's stays cancellable.
    assert_eq!(cancel_active_tasks_for_repo(&mut tasks, 1, NOW).len(), 1);
    assert!(
        cancel_active_tasks_for_repo(&mut tasks, 1, NOW).is_empty(),
        "already cancelled → no-op"
    );
    assert_eq!(cancel_active_tasks_for_repo(&mut tasks, 2, NOW).len(), 1);

    // Delete helpers are safe no-ops with nothing indexed.
    let mut chunks: Vec<ChunkRow<String>> = Vec::new();
    let mut indexed: Vec<i64> = Vec::new();
    assert_eq!(delete_code_chunks_for_repo(&mut chunks, 1), 0);
    assert_eq!(delete_repo_index_rows(&mut indexed, 1), 0);
    indexed = vec![1, 2, 1];
    assert_eq!(delete_repo_index_rows(&mut indexed, 1), 2);
    assert_eq!(indexed, vec![2]);
}

#[test]
fn index_task_creation_is_deduped() {
    let mut repos = Vec::new();
    let mut tasks = Vec::new();
    let id = upsert_repository(&mut repos, Platform::GitHub, 1212, "o", "r", "main", Some(555), 1);
    let i = find_by_id(&repos, id).unwrap();
    assert_eq!(
        repository_installation_id(Some(&repos[i])),
        Some(555),
        "installation_id recorded for the clone token"
    );

    let first = create_index_task(&mut tasks, id, 555, new_id(), NOW);
    assert!(first.is_some(), "first approve enqueues an index task");
    assert!(
        create_index_task(&mut tasks, id, 555, new_id(), NOW).is_none(),
        "no duplicate while one index task is active"
    );

    // Once the first index is over, a later default-branch push can enqueue a fresh index.
    set_task_status(&mut tasks, first.unwrap(), RunStatus::Succeeded, None, NOW);
    let second = create_index_task(&mut tasks, id, 555, new_id(), NOW);
    assert!(
        second.is_some(),
        "a push after the first index completed enqueues a new index (fresh run_epoch)"
    );
    assert_eq!(
        at(&tasks, second.unwrap()).run_epoch,
        1,
        "the re-index bumps run_epoch past the first index"
    );
}

#[test]
fn review_persist_and_read() {
    let task_id = new_id();
    let mut reviews = Vec::new();
    assert!(get_review(&reviews, task_id).is_none());

    let mut posted = review(
        task_id,
        "sum",
        (1, 2),
        r#"[{ "file": "a.rs", "line": 3, "severity": "error", "title": "t", "body": "b" }]"#,
    );
    posted.review_url = Some("https://github.com/o/r/pull/7#pullrequestreview-1".to_string());
    posted.platform_review_id = Some(987654);
    upsert_review(&mut reviews, posted);
    let row = &reviews[get_review(&reviews, task_id).unwrap()];
    assert_eq!(row.summary, "sum");
    assert_eq!(row.inline_count, 1);
    assert_eq!(row.deferred_count, 2);
    assert_eq!(
        row.findings,
        json(r#"[{ "file": "a.rs", "line": 3, "severity": "error", "title": "t", "body": "b" }]"#)
    );
    assert_eq!(
        row.review_url.as_deref(),
        Some("https://github.com/o/r/pull/7#pullrequestreview-1")
    );
    assert_eq!(row.platform_review_id, Some(987654), "review id persisted");

    // Re-post upserts in place (still one row).
    upsert_review(&mut reviews, review(task_id, "sum2", (0, 0), "[]"));
    assert_eq!(reviews[get_review(&reviews, task_id).unwrap()].summary, "sum2");
    assert_eq!(reviews.len(), 1);

    assert!(get_review(&reviews, new_id()).is_none());
}

#[test]
fn target_has_prior_findings_gates_on_nonempty_prior_findings() {
    let mut tasks = Vec::new();
    let mut reviews = Vec::new();
    let prior = created(&mut tasks, &pr_task(1, "h1"));
    let current = created(&mut tasks, &pr_task(1, "h2"));

    // No prior review at all → no prior findings.
    assert!(!target_has_prior_findings(&reviews, &tasks, &pr(1, 7), current));

    // A prior CLEAN review (empty findings array) still doesn't gate — nothing to retract.
    upsert_review(&mut reviews, review(prior, "clean", (0, 0), "[]"));
    assert!(
        !target_has_prior_findings(&reviews, &tasks, &pr(1, 7), current),
        "an empty findings array is not a prior finding"
    );

    // A prior review WITH findings (any commit — h1 vs the current h2) gates the silence.
    let f = r#"[{ "file": "a.rs", "line": 3, "title": "leak", "body": "b" }]"#;
    upsert_review(&mut reviews, review(prior, "one P1", (1, 0), f));
    assert!(
        target_has_prior_findings(&reviews, &tasks, &pr(1, 7), current),
        "prior findings on any commit force the verdict to post"
    );

    // The current task's own persisted review never counts as a prior.
    assert!(
        !target_has_prior_findings(&reviews, &tasks, &pr(1, 7), prior),
        "a task is never its own prior"
    );
}

#[test]
fn all_prior_reviews_are_target_scoped_ordered_and_exclude_current() {
    let mut tasks = Vec::new();
    let mut reviews = Vec::new();
    // Three tasks on the SAME PR (#7): two prior reviews and the current re-review.
    let first = created(&mut tasks, &pr_task(1, "h1"));
    let second = created(&mut tasks, &pr_task(1, "h2"));
    let rereview = created(&mut tasks, &pr_task(1, "h3"));
    let mut earlier = review(first, "first verdict", (1, 0), r#"[{ "title": "leak" }]"#);
    earlier.created_at = NOW - MINUTE;
    upsert_review(&mut reviews, earlier);
    upsert_review(&mut reviews, review(second, "second verdict", (1, 0), r#"[{ "title": "nit" }]"#));

    // The re-review sees BOTH priors, newest first, excluding itself — and each carries its true
    // chronological ordinal.
    let priors = all_prior_reviews_for_target(&reviews, &tasks, &pr(1, 7), rereview);
    assert_eq!(priors.len(), 2, "both prior reviews returned");
    assert_eq!(reviews[priors[0].place].summary, "second verdict", "newest first");
    assert_eq!(priors[0].ordinal, 2, "the newest review is chronologically #2");
    assert_eq!(reviews[priors[1].place].summary, "first verdict");
    assert_eq!(priors[1].ordinal, 1, "the oldest review is chronologically #1");
    assert_eq!(reviews[priors[0].place].findings, json(r#"[{ "title": "nit" }]"#));

    // From the first task's own perspective its own review is excluded → only the second remains.
    let from_first = all_prior_reviews_for_target(&reviews, &tasks, &pr(1, 7), first);
    assert_eq!(from_first.len(), 1, "a task is never its own prior review");
    assert_eq!(reviews[from_first[0].place].summary, "second verdict");

    // A different target on the same repo doesn't leak across.
    assert!(
        all_prior_reviews_for_target(&reviews, &tasks, &pr(1, 999), rereview).is_empty(),
        "scoped to the target id"
    );
}

#[test]
fn posted_findings_for_head_is_head_scoped_and_excludes_current() {
    let mut tasks = Vec::new();
    let (mut reviews, mut outbox) = (Vec::new(), Vec::new());
    let prior_same_head = created(&mut tasks, &pr_task(1, "same"));
    let prior_other_head = created(&mut tasks, &pr_task(1, "other"));
    // The current re-review shares head_sha "same" with `prior_same_head` (a new run_epoch).
    let current = created(&mut tasks, &NewTask { run_epoch: 1, ..pr_task(1, "same") });

    upsert_review(&mut reviews, review(prior_same_head, "v", (1, 0), r#"[{ "title": "leak" }]"#));
    upsert_review(&mut reviews, review(prior_other_head, "v", (1, 0), r#"[{ "title": "other" }]"#));

    let posted = posted_findings_for_head(&reviews, &outbox, &tasks, &pr(1, 7), "same", current);
    assert_eq!(posted.reviews.len() + posted.outbox.len(), 1, "only the same-head prior");
    assert_eq!(reviews[posted.reviews[0]].findings, json(r#"[{ "title": "leak" }]"#));
    let findings = posted_findings(&reviews, &outbox, &tasks, &pr(1, 7), "same", current);
    assert_eq!(findings, vec![Some(&json(r#"[{ "title": "leak" }]"#))]);

    // The current task never dedups against its own (not-yet-posted) review.
    upsert_review(&mut reviews, review(current, "v", (1, 0), r#"[{ "title": "leak" }]"#));
    let posted = posted_findings_for_head(&reviews, &outbox, &tasks, &pr(1, 7), "same", current);
    assert_eq!(
        posted.reviews.len() + posted.outbox.len(),
        1,
        "still only the *other* task's review, not its own"
    );

    // A review ENQUEUED but not yet delivered also counts: its findings ride the payload.
    let queued = created(&mut tasks, &NewTask { run_epoch: 2, ..pr_task(1, "same") });
    let payload = r#"{ "pr": 7, "body": "b", "summary": "v",
        "findings_json": [{ "file": "q.rs", "line": 5, "title": "queued finding", "body": "b" }] }"#;
    enqueue(&mut outbox, post(Some(queued), "review", payload, &format!("{queued}:review")));
    let posted = posted_findings_for_head(&reviews, &outbox, &tasks, &pr(1, 7), "same", current);
    assert_eq!(posted.reviews.len(), 1);
    assert_eq!(posted.outbox, vec![0], "pending outbox review counts as posted");
    let findings = posted_findings(&reviews, &outbox, &tasks, &pr(1, 7), "same", current);
    assert_eq!(findings.len(), 2);
    assert_eq!(
        findings[1],
        Some(&json(r#"[{ "file": "q.rs", "line": 5, "title": "queued finding", "body": "b" }]"#)),
        "the queued review's findings come from the outbox payload"
    );

    // Once delivered, the outbox arm skips it — the stored review takes over.
    mark_outbox_posted(&mut outbox[0], None, NOW);
    let posted = posted_findings_for_head(&reviews, &outbox, &tasks, &pr(1, 7), "same", current);
    assert_eq!(
        posted.reviews.len() + posted.outbox.len(),
        1,
        "a delivered outbox row no longer contributes"
    );
    assert_eq!(posted_findings(&reviews, &outbox, &tasks, &pr(1, 7), "same", current).len(), 1);

    // A queued review without the member has no findings to give.
    let bare = created(&mut tasks, &NewTask { run_epoch: 3, ..pr_task(1, "same") });
    enqueue(&mut outbox, post(Some(bare), "review", r#"{ "pr": 7 }"#, &format!("{bare}:review")));
    let findings = posted_findings(&reviews, &outbox, &tasks, &pr(1, 7), "same", current);
    assert_eq!(findings.last(), Some(&None));
}

fn reactions(who: &[(&str, &str)]) -> Vec<Reaction> {
    who.iter()
        .map(|(reactor, reaction)| Reaction {
            fresh_id: new_id(),
            reactor: reactor.to_string(),
            reaction: reaction.to_string(),
        })
        .collect()
}

#[test]
fn rejected_findings_for_repo_returns_thumbs_down_only() {
    let mut tasks = Vec::new();
    let (mut comments, mut feedback) = (Vec::new(), Vec::new());
    let task_id = created(&mut tasks, &pr_task(1, "h1"));
    let finding = |line: i32, title: &str| ReportedFinding {
        task_id,
        file: Some("a.rs".to_string()),
        line: Some(line),
        title: Some(title.to_string()),
    };
    let findings = vec![finding(7, "Bogus nit"), finding(9, "Liked nit")];
    store_review_comments(
        &mut comments,
        task_id,
        vec![
            comment_ref(555, "inline", Some(("a.rs", 7))),
            comment_ref(556, "inline", Some(("a.rs", 9))),
        ],
    );
    reconcile_comment_feedback(
        &mut feedback,
        task_id,
        555,
        "inline",
        &reactions(&[("alice", "-1")]),
        NOW,
    );
    reconcile_comment_feedback(
        &mut feedback,
        task_id,
        556,
        "inline",
        &reactions(&[("bob", "+1")]),
        NOW,
    );

    let rejected = rejected_findings_for_repo(&feedback, &comments, &tasks, &findings, 1, 30);
    assert_eq!(
        rejected,
        vec![("a.rs".to_string(), 7, "Bogus nit".to_string())],
        "only the 👎'd finding, with its title"
    );
    assert!(rejected_findings_for_repo(&feedback, &comments, &tasks, &findings, 2, 30).is_empty());

    // A second thumb down on the other line comes after it, and a limit cuts the list.
    reconcile_comment_feedback(
        &mut feedback,
        task_id,
        556,
        "inline",
        &reactions(&[("bob", "-1"), ("carol", "-1")]),
        NOW,
    );
    let rejected = rejected_findings_for_repo(&feedback, &comments, &tasks, &findings, 1, 30);
    assert_eq!(rejected.iter().map(|r| r.1).collect::<Vec<_>>(), vec![7, 9]);
    let rejected = rejected_findings_for_repo(&feedback, &comments, &tasks, &findings, 1, 1);
    assert_eq!(rejected.iter().map(|r| r.1).collect::<Vec<_>>(), vec![7]);
}

fn stored_comment(id: u128, task_id: u128, platform_comment_id: i64) -> StoredComment {
    StoredComment {
        id,
        task_id,
        platform_comment_id,
        kind: "inline".to_string(),
        created_at: NOW,
    }
}

#[test]
fn feedback_reconcile_inserts_and_removes() {
    let (repos, repo_id) = seed();
    let mut tasks = Vec::new();
    let task_id = created(&mut tasks, &pr_task(repo_id, "h1"));
    let (mut comments, mut feedback): (Vec<ReviewComment>, Vec<FeedbackRecord>) =
        (Vec::new(), Vec::new());
    store_review_comments(
        &mut comments,
        task_id,
        vec![comment_ref(555, "inline", Some(("a.rs", 7)))],
    );

    // The comment is pollable (joined to repo identity + installation).
    let stored = vec![stored_comment(1, task_id, 555)];
    let pollable = list_pollable_comments(&stored, &tasks, &repos, 14, 300, NOW);
    assert_eq!(pollable.len(), 1);
    assert_eq!(pollable[0].platform_comment_id, 555);
    assert_eq!(pollable[0].owner, "octo");
    assert_eq!((pollable[0].task_id, pollable[0].kind.as_str()), (task_id, "inline"));
    assert_eq!((pollable[0].name.as_str(), pollable[0].platform), ("repo", Platform::GitHub));
    assert_eq!((pollable[0].installation_id, pollable[0].target_id), (99, 7));
    assert_eq!(pollable[0].target_type, "pull_request");
    // Without its run or its repository there is nothing to ask for.
    assert!(list_pollable_comments(&stored, &Vec::new(), &repos, 14, 300, NOW).is_empty());
    assert!(list_pollable_comments(&stored, &tasks, &Vec::new(), 14, 300, NOW).is_empty());

    // First cycle: two reactions.
    reconcile_comment_feedback(
        &mut feedback,
        task_id,
        555,
        "inline",
        &reactions(&[("alice", "+1"), ("bob", "-1")]),
        NOW,
    );
    let fb = get_feedback(&feedback, &comments, task_id);
    assert_eq!(fb.len(), 2);
    assert!(fb.iter().any(|r| r.reactor == "alice" && r.reaction == "+1"));
    assert_eq!(fb[0].file.as_deref(), Some("a.rs"), "joined from the comments");

    // Second cycle: alice un-reacted, carol added → removes alice, keeps bob, adds carol.
    reconcile_comment_feedback(
        &mut feedback,
        task_id,
        555,
        "inline",
        &reactions(&[("bob", "-1"), ("carol", "heart")]),
        NOW,
    );
    let fb = get_feedback(&feedback, &comments, task_id);
    assert_eq!(fb.len(), 2);
    assert!(!fb.iter().any(|r| r.reactor == "alice"), "un-react removed");
    assert!(fb.iter().any(|r| r.reactor == "carol" && r.reaction == "heart"));

    // Empty cycle (all reactions gone) clears the comment's feedback.
    reconcile_comment_feedback(&mut feedback, task_id, 555, "inline", &Vec::new(), NOW);
    assert!(get_feedback(&feedback, &comments, task_id).is_empty());
}

#[test]
fn transcript_replace_and_read() {
    let mut tasks = Vec::new();
    let task_id = created(&mut tasks, &pr_task(1, "h1"));
    let mut table: Vec<TranscriptRow<TranscriptInput>> = Vec::new();
    assert!(get_transcript(&table, task_id).is_empty());

    let calls = r#"[{ "function": { "name": "lightbridge_vector_semantic_search" } }]"#;
    let first = vec![
        TranscriptInput {
            role: "assistant".to_string(),
            content: Some("let me search".to_string()),
            tool_calls: Some(json(calls)),
            tool_name: None,
            prompt_tokens: Some(1200),
            completion_tokens: Some(30),
            reasoning_tokens: Some(12),
            model: Some("adorsys-review".to_string()),
        },
        TranscriptInput {
            role: "tool".to_string(),
            content: Some("hit: a.rs".to_string()),
            tool_calls: None,
            tool_name: Some("lightbridge_vector_semantic_search".to_string()),
            prompt_tokens: None,
            completion_tokens: None,
            reasoning_tokens: None,
            model: None,
        },
    ];
    replace_transcript(&mut table, task_id, first, NOW);
    let rows = get_transcript(&table, task_id);
    assert_eq!(rows.len(), 2);
    assert_eq!(table[rows[0]].seq, 0);
    assert_eq!(table[rows[0]].entry.role, "assistant");
    assert_eq!(table[rows[0]].entry.prompt_tokens, Some(1200));
    assert_eq!(table[rows[1]].entry.role, "tool");
    assert_eq!(
        table[rows[1]].entry.tool_name.as_deref(),
        Some("lightbridge_vector_semantic_search")
    );
    // The model and the reasoning tokens round-trip on the assistant turn; a tool turn has neither.
    assert_eq!(table[rows[0]].entry.model.as_deref(), Some("adorsys-review"));
    assert_eq!(table[rows[0]].entry.reasoning_tokens, Some(12));
    assert_eq!(table[rows[0]].entry.completion_tokens, Some(30));
    assert_eq!(table[rows[0]].entry.tool_calls, Some(json(calls)));
    assert_eq!(table[rows[1]].entry.model, None);
    assert_eq!(table[rows[1]].entry.reasoning_tokens, None);
    assert_eq!((table[rows[0]].created_at, table[rows[1]].created_at), (NOW, NOW));

    let turn = |content: &str, prompt: i64, completion: i64, model: &str| TranscriptInput {
        role: "assistant".to_string(),
        content: Some(content.to_string()),
        tool_calls: None,
        tool_name: None,
        prompt_tokens: Some(prompt),
        completion_tokens: Some(completion),
        reasoning_tokens: None,
        model: Some(model.to_string()),
    };
    // Another run's transcript is left alone.
    let other = new_id();
    replace_transcript(&mut table, other, vec![turn("hello", 1, 1, "m")], NOW);

    // A retry re-submits a (shorter) transcript → fully replaces the old one.
    let second = vec![turn("done", 500, 10, "adorsys-review-pro")];
    replace_transcript(&mut table, task_id, second, NOW + SECOND);
    let rows = get_transcript(&table, task_id);
    assert_eq!(rows.len(), 1, "replaced, not appended");
    assert_eq!(table[rows[0]].entry.content.as_deref(), Some("done"));
    assert_eq!(table[rows[0]].entry.model.as_deref(), Some("adorsys-review-pro"));
    assert_eq!(table[rows[0]].created_at, NOW + SECOND);
    let kept = get_transcript(&table, other);
    assert_eq!(kept.len(), 1);
    assert_eq!(table[kept[0]].created_at, NOW);
}

#[test]
fn review_run_telemetry_records_and_replaces() {
    // A fresh task has no run telemetry.
    let mut run = Some(RunTelemetry { run_tools: None, run_config_b64: None });
    let offered = r#"[
        { "name": "read_file", "source": "builtin" },
        { "name": "mcp__context7__get_docs", "source": "mcp" }
    ]"#;
    assert!(record_review_run_telemetry(&mut run, json(offered), "cnfg-b64-v1"));
    // Unknown id → no row touched.
    let mut unknown = None;
    assert!(!record_review_run_telemetry(&mut unknown, json(offered), "cnfg-b64-x"));
    assert!(unknown.is_none());
    assert_eq!(run.as_ref().unwrap().run_tools, Some(json(offered)));
    assert_eq!(run.as_ref().unwrap().run_config_b64.as_deref(), Some("cnfg-b64-v1"));

    // A re-run (retry) overwrites in place — latest run wins.
    record_review_run_telemetry(&mut run, json("[]"), "cnfg-b64-v2");
    assert_eq!(run.as_ref().unwrap().run_tools, Some(json("[]")));
    assert_eq!(
        run.unwrap().run_config_b64.as_deref(),
        Some("cnfg-b64-v2"),
        "replaced, not appended"
    );
}

#[test]
fn get_task_context_joins_repo_identity() {
    let (repos, repo_id) = seed();
    let mut tasks = Vec::new();
    let task_id = created(&mut tasks, &pr_task(repo_id, "head1"));

    let context = get_task_context(&tasks, &repos, task_id).expect("task exists");
    assert_eq!(context.owner, "octo");
    assert_eq!(context.name, "repo");
    assert_eq!(context.default_branch, "main");
    assert_eq!(context.installation_id, 99);
    assert_eq!(context.command_text, "review");
    assert_eq!(context.kind, "review", "run kind round-trips");
    assert_eq!(context.preset, "fast");
    assert_eq!(context.head_sha.as_deref(), Some("head1"));

    // The deep preset (an @mention) round-trips too.
    let mut mention = pr_task(repo_id, "head2");
    mention.target_id = 8;
    mention.command_text = "@lightbridge review".to_string();
    mention.preset = "deep".to_string();
    mention.trigger_comment_id = Some(918_273);
    let deep_id = create_explicit_task(&mut tasks, &mention, new_id(), NOW).id;
    let deep_ctx = get_task_context(&tasks, &repos, deep_id).expect("deep task exists");
    assert_eq!(deep_ctx.preset, "deep");
    assert_eq!(deep_ctx.trigger_comment_id, Some(918_273));

    assert!(get_task_context(&tasks, &repos, 0).is_none(), "unknown id yields None");

    let row = task_row(at(&tasks, task_id), repos.first());
    assert_eq!(row.repo_owner.as_deref(), Some("octo"));
    assert_eq!(row.repo_platform, Some(Platform::GitHub));
    assert!(task_row(at(&tasks, task_id), None).repo_name.is_none());
    let i = get_task(&tasks, task_id).unwrap();
    set_task_kind(&mut tasks[i], "ask");
    assert_eq!(get_task_context(&tasks, &repos, task_id).unwrap().kind, "ask");
}

fn inline(line: i32, title: &str, priority: &str, suggestion: Option<&str>, body: &str) -> PendingInline {
    PendingInline {
        file: "a.rs".to_string(),
        line,
        title: Some(title.to_string()),
        priority: Some(priority.to_string()),
        category: Some("correctness".to_string()),
        suggestion: suggestion.map(str::to_string),
        body: body.to_string(),
    }
}

#[test]
fn pending_review_actions_accumulate_dedup_and_clear() {
    let mut buffer = PendingBuffer::new();
    // Two inline findings on the same (file, line) → the second overwrites the first.
    buffer.upsert_pending_inline(inline(7, "t1", "P2", None, "first"));
    buffer.upsert_pending_inline(inline(7, "t1-refined", "P0", Some("let x = 1;"), "second, refined"));
    // A finding on a different line is kept separately.
    buffer.upsert_pending_inline(inline(9, "t2", "P1", None, "other"));
    // Comments append; the summary is single-valued (last write wins).
    buffer.add_pending_comment(None, None, "first comment");
    buffer.add_pending_comment(None, None, "second comment");
    buffer.upsert_pending_summary("draft summary");
    buffer.upsert_pending_summary("final summary");

    let pending = buffer.load_pending_review();
    assert_eq!(pending.inline.len(), 2, "deduped to one row per (file, line)");
    let line7 = pending.inline.iter().find(|f| f.line == 7).expect("line 7");
    assert_eq!(line7.body, "second, refined", "last write wins");
    assert_eq!(line7.priority.as_deref(), Some("P0"));
    assert_eq!(line7.suggestion.as_deref(), Some("let x = 1;"));
    assert_eq!(pending.comments, vec!["first comment", "second comment"]);
    assert_eq!(pending.summary.as_deref(), Some("final summary"));
    assert!(!pending.is_empty());

    let mut buffer = PendingBuffer::new();
    buffer.upsert_pending_inline(inline(7, "t", "P1", None, "x"));
    buffer.add_pending_comment(None, None, "c");
    buffer.upsert_pending_summary("s");
    buffer.clear_pending_action(ActionKind::Comment);
    assert_eq!((buffer.inline.len(), buffer.comments.len()), (1, 0));
    buffer.clear_pending_review();
    assert!(buffer.load_pending_review().is_empty(), "buffer cleared on restart/flush");
}

/// Stands in for the database's cast to `jsonb`: its own writing of a JSON value.
fn cast(text: &str) -> Option<String> {
    let value: serde_json::Value = serde_json::from_str(text).ok()?;
    Some(serde_json::to_string_pretty(&value).unwrap())
}

fn journal(
    rows: &mut Vec<DurableStep>,
    task_id: u128,
    run_epoch: i32,
    step_name: &str,
    result: &str,
    hash: &str,
) {
    let kept = cast(result);
    upsert_durable_step(rows, task_id, run_epoch, step_name, kept.as_deref(), hash, NOW).unwrap();
}

#[test]
fn running_transition_preserves_buffer_on_resume_but_clears_on_fresh() {
    let mut tasks = Vec::new();
    let task = claim_after_create(&mut tasks, "head-resume");
    let run_epoch = durable_step_run_epoch(&tasks, task).unwrap();
    let mut steps = Vec::new();
    let mut buffer = PendingBuffer::new();
    buffer.upsert_pending_inline(inline(3, "t", "P1", None, "a finding from the prior attempt"));
    journal(&mut steps, task, run_epoch, "tools:5", "{\"ok\":true}", "hash-5");

    // A run with journaled steps is a resume, not a fresh attempt: nothing is cleared.
    if !has_durable_steps(&steps, task, run_epoch) {
        buffer.clear_pending_review();
    }
    assert_eq!(buffer.inline.len(), 1, "the resumed run keeps the buffered finding");

    // With no journaled steps the run is a fresh attempt.
    assert_eq!(purge_durable_steps(&mut steps, task, run_epoch), 1);
    assert!(!has_durable_steps(&steps, task, run_epoch));
    buffer.clear_pending_review();
    assert!(buffer.load_pending_review().is_empty(), "a fresh attempt clears the buffer");
}

#[test]
fn add_pending_comment_dedups_on_call_id() {
    let mut buffer = PendingBuffer::new();
    // Same call_id twice → the replay is a no-op.
    buffer.add_pending_comment(Some(0), Some("call_1"), "first");
    buffer.add_pending_comment(Some(0), Some("call_1"), "first (replayed)");
    assert_eq!(buffer.comments.len(), 1);
    assert_eq!(buffer.comments[0].body, "first");

    // A different call_id is a genuinely distinct reply.
    buffer.add_pending_comment(Some(0), Some("call_2"), "second");
    assert_eq!(buffer.comments.len(), 2, "a different call_id appends");

    // Without a call_id a comment always appends.
    buffer.add_pending_comment(None, None, "legacy-a");
    buffer.add_pending_comment(None, None, "legacy-b");
    assert_eq!(buffer.comments.len(), 4);
}

#[test]
fn delete_pending_inline_removes_one() {
    let mut buffer = PendingBuffer::new();
    for (line, body) in [(7, "keep"), (9, "drop me")] {
        buffer.upsert_pending_inline(inline(line, "t", "P1", None, body));
    }
    // Retract the line-9 finding; line 7 stays.
    buffer.delete_pending_inline("a.rs", 9);
    assert_eq!(buffer.inline.len(), 1, "only the retracted one is gone");
    assert_eq!(buffer.inline[0].line, 7);
    // Retracting a non-existent finding is a harmless no-op.
    buffer.delete_pending_inline("a.rs", 999);
    assert_eq!(buffer.inline.len(), 1);
}

#[test]
fn set_task_status_stamps_and_releases() {
    let mut tasks = Vec::new();
    let task = claim_after_create(&mut tasks, "head1");
    assert!(at(&tasks, task).started_at.is_some());

    assert!(set_task_status(&mut tasks, task, RunStatus::Succeeded, None, NOW).found);
    let row = at(&tasks, task);
    assert_eq!(row.status.as_str(), "succeeded");
    assert!(row.completed_at.is_some(), "terminal status stamps completed_at");
    assert!(row.lease_owner.is_none(), "terminal status clears the lease");

    assert!(
        !set_task_status(&mut tasks, 0, RunStatus::Failed, None, NOW).found,
        "unknown id reports no row updated"
    );
}

#[test]
fn set_task_status_persists_and_preserves_detail() {
    let mut tasks = Vec::new();
    let task = claim_after_create(&mut tasks, "head1");
    let said = "Review produced no comments to post.";

    // A report carrying a detail records it.
    assert!(set_task_status(&mut tasks, task, RunStatus::Succeeded, Some(said), NOW).found);
    assert_eq!(at(&tasks, task).error_detail.as_deref(), Some(said));

    // A later report without a detail must not erase the recorded reason.
    assert!(set_task_status(&mut tasks, task, RunStatus::Succeeded, None, NOW).found);
    assert_eq!(
        at(&tasks, task).error_detail.as_deref(),
        Some(said),
        "a detail-less report preserves the earlier reason"
    );

    // A retry/restart transitions back to `running` — it must CLEAR the stale reason.
    assert!(set_task_status(&mut tasks, task, RunStatus::Running, None, NOW).found);
    assert_eq!(
        at(&tasks, task).error_detail,
        None,
        "a fresh `running` transition clears error_detail"
    );
}

fn chunk(file: &str, fresh_id: i64) -> CodeChunk<String> {
    CodeChunk {
        fresh_id,
        file_path: file.to_string(),
        start_line: 1,
        end_line: 6,
        content: format!("// {file}"),
    }
}

#[test]
fn latest_indexed_commit_returns_newest_snapshot() {
    let mut table = Vec::new();
    // Never indexed → None.
    assert_eq!(latest_indexed_commit(&table, 1), None);

    // Both inserts fall into one instant, so the higher id decides.
    upsert_code_chunks(&mut table, 1, "base-sha", vec![chunk("a.rs", 1)], NOW);
    upsert_code_chunks(&mut table, 1, "newer-sha", vec![chunk("b.rs", 2)], NOW);
    assert_eq!(latest_indexed_commit(&table, 1), Some("newer-sha"));
    // A different repo is unaffected.
    assert_eq!(latest_indexed_commit(&table, 9999), None);

    // A chunk that is stored again keeps its place.
    upsert_code_chunks(&mut table, 1, "newer-sha", vec![chunk("b.rs", 3)], NOW);
    assert_eq!(table.len(), 2);
}

#[test]
fn prune_keeps_latest_and_in_flight_and_drops_the_rest() {
    let mut table = Vec::new();
    let mut tasks = Vec::new();
    // Three snapshots, oldest → newest, all older than the grace.
    for (n, (sha, file)) in
        [("stale-sha", "a.rs"), ("inflight-sha", "b.rs"), ("latest-sha", "c.rs")].iter().enumerate()
    {
        upsert_code_chunks(&mut table, 1, sha, vec![chunk(file, n as i64 + 1)], NOW - HOUR);
    }
    // An in-flight (status 'queued') review pins `inflight-sha`.
    created(&mut tasks, &pr_task(1, "inflight-sha"));

    // Keep-set the sweeper assembles.
    assert_eq!(in_use_commits(&tasks, 1), vec!["inflight-sha".to_string()]);
    assert_eq!(latest_indexed_commit(&table, 1), Some("latest-sha"));
    assert_eq!(repos_with_stale_snapshots(&table), vec![1]);

    // Prune everything outside the keep-set: only `stale-sha` goes.
    let keep = vec!["inflight-sha".to_string(), "latest-sha".to_string()];
    assert_eq!(prune_code_chunks(&mut table, 1, &keep, NOW), 1);
    let mut remaining: Vec<&str> = table.iter().map(|c| c.commit_sha.as_str()).collect();
    remaining.sort();
    assert_eq!(remaining, vec!["inflight-sha", "latest-sha"]);

    // Safety: an empty keep-set never deletes (guards against wiping a live index).
    assert_eq!(prune_code_chunks(&mut table, 1, &Vec::new(), NOW), 0);
    // Nor does anything recent go.
    upsert_code_chunks(&mut table, 1, "fresh-sha", vec![chunk("d.rs", 9)], NOW);
    assert_eq!(prune_code_chunks(&mut table, 1, &keep, NOW), 0);
}

#[test]
fn has_active_index_task_gates_a_repo_mid_index() {
    let mut tasks = Vec::new();
    // A review task in flight is NOT an index task.
    created(&mut tasks, &pr_task(1, "review-head"));
    assert!(!has_active_index_task(&tasks, 1));

    // A queued index task (no head_sha): it is active, and in_use_commits still doesn't list it.
    create_index_task(&mut tasks, 1, 99, new_id(), NOW).unwrap();
    assert!(has_active_index_task(&tasks, 1));
    assert_eq!(in_use_commits(&tasks, 1), vec!["review-head".to_string()]);
}

#[test]
fn a_disabled_repository_with_leftovers_is_to_be_purged() {
    let mut repos = Vec::new();
    for n in 1..=3 {
        upsert_repository(&mut repos, Platform::GitHub, n, "o", "r", "main", None, n);
        set_repository_status_by_id(&mut repos[n as usize - 1], RepoStatus::Disabled, None, NOW);
    }
    let mut table = Vec::new();
    upsert_code_chunks(&mut table, 1, "sha", vec![chunk("a.rs", 1)], NOW);
    let found = list_disabled_repos_needing_purge(&repos, &table, &vec![3], 10);
    assert_eq!(found, vec![1, 3]);
    assert_eq!(list_disabled_repos_needing_purge(&repos, &table, &vec![3], 1).len(), 1);
    set_repository_status_by_id(&mut repos[0], RepoStatus::Pending, None, NOW);
    assert_eq!(list_disabled_repos_needing_purge(&repos, &table, &vec![3], 10), vec![3]);
}

#[test]
fn a_vector_is_written_in_brackets() {
    let numbers = vec!["1".to_string(), "-0.5".to_string(), "2e-3".to_string()];
    assert_eq!(vector_literal(&numbers), "[1,-0.5,2e-3]");
    assert_eq!(vector_literal(&Vec::new()), "[]");
}

#[test]
fn durable_step_keys_on_the_run_identity_tuple_and_upsert_is_idempotent() {
    let task_id = new_id();
    let run_epoch = 1;
    let mut rows: Vec<DurableStep> = Vec::new();
    let turn = r#"{"content":"Looking at the diff now.","tool_calls":[]}"#;
    journal(&mut rows, task_id, run_epoch, "llm_turn:0", turn, "hash-turn");
    journal(&mut rows, task_id, run_epoch, "tools:0", "[]", "hash-tools");

    // Each step is keyed independently by name.
    let got = fetch_durable_step(&rows, task_id, run_epoch, "llm_turn:0").unwrap();
    let result = json(got.result.as_deref().unwrap());
    assert_eq!(result, json(turn), "the right step returns its own result");

    // A wrong tuple component → the replay gap, not a spurious hit.
    assert!(fetch_durable_step(&rows, task_id, run_epoch, "llm_turn:99").is_none());
    assert!(fetch_durable_step(&rows, task_id, run_epoch + 1, "llm_turn:0").is_none());
    assert!(fetch_durable_step(&rows, new_id(), run_epoch, "llm_turn:0").is_none());

    // Re-running the same step overwrites its row rather than duplicating.
    let revised = r#"{"content":"revised","tool_calls":[]}"#;
    journal(&mut rows, task_id, run_epoch, "llm_turn:0", revised, "hash-revised");
    let after = fetch_durable_step(&rows, task_id, run_epoch, "llm_turn:0").unwrap();
    assert_eq!(after.content_hash, "hash-revised", "the upsert overwrote in place");
    assert_eq!(rows.len(), 2, "it did not duplicate");

    // The journal of another epoch is swept apart.
    upsert_durable_step(&mut rows, task_id, 2, "llm_turn:0", Some("{}"), "h", NOW - DAY).unwrap();
    assert_eq!(sweep_durable_steps(&mut rows, HOUR, NOW), 1);
    assert_eq!(rows.len(), 2);
}

#[test]
fn durable_step_round_trips_a_real_step_result_through_jsonb() {
    let task_id = new_id();
    let mut rows: Vec<DurableStep> = Vec::new();
    let turn = r#"{"content":"Looking at the diff now.","tool_calls":[{"id":"call_abc"}]}"#;
    journal(&mut rows, task_id, 3, "llm_turn:0", turn, "sha256:turn");
    let fetched = fetch_durable_step(&rows, task_id, 3, "llm_turn:0").expect("journaled");
    assert_eq!(fetched.content_hash, "sha256:turn", "the content hash round-trips verbatim");
    assert_eq!(json(fetched.result.as_deref().expect("result is set")), json(turn));
    let outputs = r#"[[0,{"Continue":"fn main() {}\n"}]]"#;
    journal(&mut rows, task_id, 3, "tools:0", outputs, "sha256:tools");
    let fetched = fetch_durable_step(&rows, task_id, 3, "tools:0").expect("tools:0 is journaled");
    assert_eq!(json(fetched.result.as_deref().unwrap()), json(outputs));
}

#[test]
fn a_journal_keeps_the_databases_writing_of_a_result() {
    let mut rows: Vec<DurableStep> = Vec::new();
    // The database spaces an object in its own way, and that is what is kept and read.
    let kept = Some(r#"{"a": 1}"#);
    assert_eq!(upsert_durable_step(&mut rows, 7, 1, "tools:0", kept, "h", NOW), Ok(()));
    let row = fetch_durable_step(&rows, 7, 1, "tools:0").unwrap();
    assert_eq!((row.result.as_deref(), row.content_hash.as_str()), (kept, "h"));
    // What is no JSON is refused, and what was kept stays.
    assert_eq!(cast("{ not json"), None);
    assert_eq!(
        upsert_durable_step(&mut rows, 7, 1, "tools:0", None, "other", NOW),
        Err(InvalidResult)
    );
    assert_eq!(upsert_durable_step(&mut rows, 8, 1, "new", None, "h", NOW), Err(InvalidResult));
    assert_eq!(rows.len(), 1);
    let row = fetch_durable_step(&rows, 7, 1, "tools:0").unwrap();
    assert_eq!((row.result.as_deref(), row.content_hash.as_str()), (kept, "h"));
}

#[test]
fn durable_step_run_epoch_resolves_from_the_task_row() {
    let mut tasks = Vec::new();
    let task_id = created(&mut tasks, &pr_task(1, "head1"));
    assert_eq!(durable_step_run_epoch(&tasks, task_id), Some(0), "pr_task seeds run_epoch 0");
    assert!(durable_step_run_epoch(&tasks, new_id()).is_none(), "an unknown task has no run_epoch");
}

#[test]
fn list_pollable_comments_ties_break_on_id() {
    let (repos, repo_id) = seed();
    let mut tasks = Vec::new();
    let task_id = created(&mut tasks, &pr_task(repo_id, "head1"));
    let comments = vec![stored_comment(9, task_id, 1), stored_comment(3, task_id, 2)];
    let order: Vec<i64> = list_pollable_comments(&comments, &tasks, &repos, 7, 3600, NOW)
        .into_iter()
        .filter(|c| c.task_id == task_id)
        .map(|c| c.platform_comment_id)
        .collect();
    assert_eq!(order, vec![2, 1], "a created_at tie must break on id");
}

#[test]
fn an_older_comment_has_its_turn_in_the_cycles() {
    let (repos, repo_id) = seed();
    let mut tasks = Vec::new();
    let task_id = created(&mut tasks, &pr_task(repo_id, "head1"));
    let turns = |age: i64, cycles: i64| {
        let mut comment = stored_comment(1, task_id, 100);
        comment.created_at = NOW - age;
        let comments = vec![comment];
        (0..cycles)
            .filter(|c| {
                let now = NOW + c * 300 * SECOND;
                !list_pollable_comments(&comments, &tasks, &repos, 14, 300, now).is_empty()
            })
            .count()
    };
    assert_eq!(turns(HOUR, 72), 72, "a fresh one is looked at in every cycle");
    assert_eq!(turns(DAY + HOUR, 72), 6, "a recent one in one of twelve");
    assert_eq!(turns(4 * DAY, 72), 1, "an older one in one of seventy-two");
    assert_eq!(turns(4 * DAY, 144), 2);
    // Before the epoch the cycles count down from zero, and so do the remainders.
    tasks[0].created_at = -DAY;
    let at = |pcid: i64, now: i64| {
        let mut comment = stored_comment(1, task_id, pcid);
        comment.created_at = now - 2 * DAY;
        list_pollable_comments(&vec![comment], &tasks, &repos, 14, 1, now).len()
    };
    assert_eq!(at(-5, -5 * SECOND), 1);
    assert_eq!(at(5, -5 * SECOND), 0);
    assert_eq!(at(-5, -5 * SECOND + SECOND / 2), 1, "half a second counts away from zero");
    assert_eq!(at(-17, -5 * SECOND), 1);
    assert_eq!(at(0, -SECOND / 2 + 1), 1);
    tasks[0].created_at = NOW;
    assert!(
        list_pollable_comments(
            &vec![stored_comment(1, task_id, 100)],
            &tasks,
            &repos,
            14,
            300,
            NOW + 14 * DAY
        )
        .is_empty(),
        "a run past its days is not looked at"
    );
}

#[test]
fn get_feedback_ties_break_on_id() {
    let task_id = new_id();
    let mut table = Vec::new();
    reconcile_comment_feedback(
        &mut table,
        task_id,
        555,
        "inline",
        &reactions(&[("alice", "+1"), ("bob", "-1"), ("carol", "heart")]),
        NOW,
    );
    let mut rows: Vec<(u128, String)> = table.iter().map(|f| (f.id, f.reactor.clone())).collect();
    rows.sort();
    let expected: Vec<String> = rows.into_iter().map(|(_, reactor)| reactor).collect();
    for _ in 0..3 {
        let order: Vec<String> = get_feedback(&table, &Vec::new(), task_id)
            .into_iter()
            .map(|f| f.reactor)
            .collect();
        assert_eq!(order, expected, "a created_at tie must break on id");
    }
}

#[test]
fn claim_next_task_ties_break_on_id() {
    let mut tasks = Vec::new();
    let first = created(&mut tasks, &pr_task(1, "head1"));
    let second = created(&mut tasks, &pr_task(1, "head2"));
    assert!(tasks.iter().all(|t| t.priority == DEFAULT_PRIORITY));
    let (lower, higher) = if first < second { (first, second) } else { (second, first) };

    let i = claim_next_task(&mut tasks, "owner-a", LEASE, NOW).expect("a queued task is claimed");
    assert_eq!(tasks[i].id, lower, "the lower id wins the created_at tie");
    let i = claim_next_task(&mut tasks, "owner-b", LEASE, NOW).expect("the second is next");
    assert_eq!(tasks[i].id, higher);
    assert!(
        claim_next_task(&mut tasks, "owner-c", LEASE, NOW).is_none(),
        "both tasks are now running — nothing left to claim"
    );
}

#[test]
fn list_reapable_tasks_ties_break_on_id() {
    let mut tasks = Vec::new();
    let first = created(&mut tasks, &pr_task(1, "head1"));
    let second = created(&mut tasks, &pr_task(1, "head2"));
    claim_next_task(&mut tasks, "owner-a", LEASE, NOW);
    claim_next_task(&mut tasks, "owner-a", LEASE, NOW);
    let (lower, higher) = if first < second { (first, second) } else { (second, first) };

    // While the leases last nothing is to be reaped.
    assert!(list_reapable_tasks(&tasks, 100, NOW).is_empty());
    let later = NOW + 2 * MINUTE;
    let order: Vec<u128> = list_reapable_tasks(&tasks, 100, later).iter().map(|t| t.id).collect();
    assert_eq!(order, vec![lower, higher], "a started_at tie must break on id ascending");
    assert_eq!(list_reapable_tasks(&tasks, 1, later).len(), 1);
}

#[test]
fn cancelled_runs_with_a_job_are_listed_until_it_is_gone() {
    let mut tasks = Vec::new();
    let id = claim_after_create(&mut tasks, "head1");
    let i = get_task(&tasks, id).unwrap();
    set_task_job(&mut tasks[i], "job-1");
    assert!(list_cancelled_with_job(&tasks, 10).is_empty());
    cancel_active_tasks_for_repo(&mut tasks, 1, NOW);
    let listed = list_cancelled_with_job(&tasks, 10);
    assert_eq!(listed.len(), 1);
    assert_eq!(listed[0].job_name.as_deref(), Some("job-1"));
    clear_job_name(&mut tasks[i]);
    assert!(list_cancelled_with_job(&tasks, 10).is_empty());
    assert_eq!(get_check_run_external_id(Some(&tasks[i])), None);
    set_check_run_external_id(&mut tasks[i], 77);
    assert_eq!(get_check_run_external_id(Some(&tasks[i])), Some(77));
    assert_eq!(get_check_run_external_id(None), None);
}

#[test]
fn one_run_reports_a_head() {
    let mut tasks = Vec::new();
    let mut reporting = pr_task(1, "h");
    reporting.check_runs_enabled = true;
    let first = created(&mut tasks, &reporting);
    assert!(should_report_check_run(&tasks, first));
    let second = created(&mut tasks, &NewTask { run_epoch: 1, ..reporting });
    assert!(
        should_report_check_run(&tasks, first) != should_report_check_run(&tasks, second),
        "exactly one of two runs of a head reports"
    );
    // The later one outdates the earlier; once it is cancelled, the earlier one reports again.
    let (older, newer) = if first < second { (first, second) } else { (second, first) };
    assert!(should_report_check_run(&tasks, newer));
    set_task_status(&mut tasks, newer, RunStatus::Cancelled, None, NOW);
    assert!(should_report_check_run(&tasks, older));
    // There is nothing to hold an unknown run against.
    assert!(should_report_check_run(&tasks, 0));
}

#[test]
fn a_runner_reports_what_it_may() {
    for status in ["running", "posting_result", "succeeded", "failed"] {
        assert!(is_runner_reportable_status(status), "{status}");
    }
    for status in ["received", "queued", "waiting_for_index", "bogus", ""] {
        assert!(!is_runner_reportable_status(status), "{status}");
    }
    for status in [
        "received", "waiting_for_index", "queued", "running", "posting_result", "succeeded",
        "failed", "timed_out", "cancelled",
    ] {
        assert_eq!(RunStatus::from_name(status).unwrap().as_str(), status);
    }
    assert!(RunStatus::from_name("bogus").is_none());
}

#[test]
fn a_delayed_run_waits_for_its_time() {
    let mut tasks = Vec::new();
    let mut task = pr_task(1, "h");
    task.run_after_secs = Some(30);
    let c = create_task(&mut tasks, &task, new_id(), NOW).unwrap();
    assert!(!c.wake, "nobody is woken for a run that has to wait");
    assert!(claim_next_task(&mut tasks, "w", LEASE, NOW).is_none());
    assert!(claim_next_task(&mut tasks, "w", LEASE, NOW + 30 * SECOND).is_some());
}
