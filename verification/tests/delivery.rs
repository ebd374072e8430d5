//! Push delivery, settings and the analytics of feedback.

use control_plane::a2a::events::LoggedEvent;
use control_plane::db::analytics::{
    approval_rate, feedback_analytics, AnalyticsWindow, CommentKind, CommentReaction,
    FeedbackTotals, PostedComment, Share, Vote,
};
use control_plane::db::model_overrides::{
    clear_org_model_override, clear_repo_model_override, get_org_model_override,
    get_repo_model_override, set_org_model_override, set_repo_model_override,
};
use control_plane::db::push_notifications::{
    advance_push_delivered, bump_push_attempts, claim_next_push_config, claimed_push_config,
    insert_push_config, newest_event, next_push_event, release_push_config, schedule_push_retry,
    sweep_terminal_a2a_tasks, PushConfigRow, PushState, RetainedTask,
};
use control_plane::db::repo_settings::{
    get_repo_settings, set_repo_settings, RepoSettingsPatch,
};
use control_plane::db::repositories::{upsert_repository, RepositoryRecord};
use control_plane::platform::Platform;
use time::format_description::well_known::Rfc3339;
use time::OffsetDateTime;

const NOW: i64 = 1_700_000_000_000_000;
const SECOND: i64 = 1_000_000;
const DAY: i64 = 86_400 * SECOND;
const LEASE: u64 = 60_000_000;

fn config(id: u128) -> PushConfigRow {
    insert_push_config(id, 1, "https://93.184.216.34/a", Some(vec![1, 2]), "caller", NOW)
}

fn event(seq: i64) -> LoggedEvent<&'static str> {
    LoggedEvent { seq, payload: "p", is_final: false }
}

#[test]
fn claim_next_push_config_ties_break_on_config_id() {
    let mut rows = vec![config(20), config(10)];
    // One undelivered event so both configs are "due" (delivered_seq 0 < the newest).
    let newest = vec![1, 1];
    let first = claim_next_push_config(&mut rows, &newest, "owner-a", LEASE, NOW)
        .expect("one of the two due configs is claimed");
    assert_eq!(rows[first].config_id, 10, "the lower config_id wins the tie");
    let second = claim_next_push_config(&mut rows, &newest, "owner-b", LEASE, NOW)
        .expect("the second due config is claimed next");
    assert_eq!(rows[second].config_id, 20);
    assert!(
        claim_next_push_config(&mut rows, &newest, "owner-c", LEASE, NOW).is_none(),
        "both configs are now leased — nothing left to claim"
    );
    // A lease that ran out is taken over.
    assert!(claim_next_push_config(&mut rows, &newest, "owner-c", LEASE, NOW + 61 * SECOND).is_some());
}

#[test]
fn delivery_moves_on_event_by_event() {
    let events = vec![event(1), event(3), event(2)];
    assert_eq!(newest_event(&events), 3);
    assert_eq!(newest_event::<&str>(&Vec::new()), 0);
    assert_eq!(next_push_event(&events, 0), Some(0));
    assert_eq!(next_push_event(&events, 1), Some(2));
    assert_eq!(next_push_event(&events, 3), None);

    let mut rows = vec![config(1)];
    claim_next_push_config(&mut rows, &vec![3], "w", LEASE, NOW).unwrap();
    let claimed = claimed_push_config(&rows[0]);
    assert_eq!((claimed.config_id, claimed.delivered_seq), (1, 0));
    assert_eq!(claimed.url, "https://93.184.216.34/a");
    assert_eq!(claimed.token_enc, Some(vec![1, 2]));

    assert_eq!(bump_push_attempts(&mut rows[0]), 1);
    advance_push_delivered(&mut rows[0], 2, LEASE, NOW);
    assert_eq!((rows[0].delivered_seq, rows[0].attempts), (2, 0));
    // A late writer does not move the cursor back.
    advance_push_delivered(&mut rows[0], 1, LEASE, NOW);
    assert_eq!(rows[0].delivered_seq, 2);
    release_push_config(&mut rows[0]);
    assert!(rows[0].lease_owner.is_none());
    // A registration that has everything is not claimed.
    assert!(claim_next_push_config(&mut rows, &vec![2], "w", LEASE, NOW).is_none());
    assert!(claim_next_push_config(&mut rows, &vec![3], "w", LEASE, NOW).is_some());
}

#[test]
fn a_failed_delivery_waits_and_may_be_switched_off() {
    let mut rows = vec![config(1)];
    schedule_push_retry(&mut rows[0], 5_000_000, false, NOW);
    assert!(claim_next_push_config(&mut rows, &vec![1], "w", LEASE, NOW).is_none());
    assert!(claim_next_push_config(&mut rows, &vec![1], "w", LEASE, NOW + 5 * SECOND).is_some());
    schedule_push_retry(&mut rows[0], 0, true, NOW);
    assert_eq!(rows[0].state, PushState::Disabled);
    assert!(claim_next_push_config(&mut rows, &vec![1], "w", LEASE, NOW + DAY).is_none());
}

#[test]
fn a_sweep_spares_what_is_live_or_young() {
    let task = |id: u128, days: i64, state: &str, has_final: bool| RetainedTask {
        a2a_task_id: id,
        created_at: (NOW - days * DAY) as i128,
        state: state.to_string(),
        has_final,
    };
    let tasks = vec![
        task(1, 40, "TASK_STATE_WORKING", false),
        task(2, 40, "TASK_STATE_WORKING", true),
        task(3, 50, "TASK_STATE_COMPLETED", false),
        task(4, 10, "TASK_STATE_COMPLETED", true),
    ];
    assert_eq!(sweep_terminal_a2a_tasks(&tasks, 30, 100, NOW), vec![2, 1]);
    assert_eq!(sweep_terminal_a2a_tasks(&tasks, 30, 1, NOW), vec![2]);
    assert!(sweep_terminal_a2a_tasks(&tasks, 0, 100, NOW).is_empty());
    assert!(sweep_terminal_a2a_tasks(&tasks, 30, 0, NOW).is_empty());
}

#[test]
fn model_overrides_are_set_replaced_and_cleared() {
    let mut repos = Vec::new();
    assert_eq!(get_repo_model_override(&repos, 1), None);
    set_repo_model_override(&mut repos, 1, "m1", "alice", NOW);
    set_repo_model_override(&mut repos, 1, "m2", "bob", NOW);
    set_repo_model_override(&mut repos, 2, "m3", "bob", NOW);
    assert_eq!(get_repo_model_override(&repos, 1), Some("m2"));
    assert_eq!(repos.len(), 2);
    // Only the row of the repository was touched.
    let row = |repo: i64| repos.iter().find(|r| r.scope_id == repo).unwrap();
    assert_eq!((row(1).set_by.as_str(), row(1).updated_at), ("bob", NOW));
    assert_eq!((row(2).model.as_str(), row(2).set_by.as_str()), ("m3", "bob"));
    assert!(clear_repo_model_override(&mut repos, 1));
    assert!(!clear_repo_model_override(&mut repos, 1));
    assert_eq!(get_repo_model_override(&repos, 2), Some("m3"));

    let mut orgs = Vec::new();
    set_org_model_override(&mut orgs, 7, "m", "alice", NOW);
    assert_eq!(get_org_model_override(&orgs, 7), Some("m"));
    assert!(clear_org_model_override(&mut orgs, 7));
    assert_eq!(get_org_model_override(&orgs, 7), None);
}

fn no_patch() -> RepoSettingsPatch {
    RepoSettingsPatch {
        check_run_reporting: None,
        review_on_pr_open: None,
        review_on_push: None,
        push_strategy: None,
        push_debounce_seconds: None,
        dedup_scope: None,
    }
}

#[test]
fn a_settings_patch_sets_clears_and_leaves() {
    assert!(no_patch().is_empty());
    assert!(get_repo_settings(&None).is_none());
    let mut patch = no_patch();
    patch.review_on_push = Some(Some(true));
    patch.push_strategy = Some(Some("debounce".to_string()));
    assert!(!patch.is_empty());
    let stored = set_repo_settings(None, &patch, "alice", NOW);
    assert_eq!(stored.settings.review_on_push, Some(true));
    assert_eq!(stored.settings.push_strategy.as_deref(), Some("debounce"));
    assert_eq!(stored.settings.dedup_scope, None);
    assert_eq!((stored.set_by.as_str(), stored.updated_at), ("alice", NOW));

    let mut patch = no_patch();
    patch.push_strategy = Some(None);
    patch.push_debounce_seconds = Some(Some(30));
    let stored = set_repo_settings(Some(stored), &patch, "bob", NOW + 1);
    let row = &stored.settings;
    assert_eq!(row.review_on_push, Some(true), "what the patch leaves stays");
    assert_eq!(row.push_strategy, None, "what it clears is gone");
    assert_eq!(row.push_debounce_seconds, Some(30));
}

fn ts(raw: &str) -> i64 {
    (OffsetDateTime::parse(raw, &Rfc3339).expect("rfc3339").unix_timestamp_nanos() / 1000) as i64
}

/// 1–7 August 2026; its predecessor is 25–31 July.
fn week(repository_id: Option<i64>) -> AnalyticsWindow {
    AnalyticsWindow {
        repository_id,
        from: ts("2026-08-01T00:00:00Z"),
        to: ts("2026-08-08T00:00:00Z"),
        bucket: DAY as u64,
    }
}

fn comment(repository_id: i64, id: i64, kind: &str, at: &str) -> PostedComment {
    PostedComment {
        repository_id,
        platform_comment_id: id,
        kind: CommentKind::from_name(kind),
        created_at: ts(at),
    }
}

fn repository(repos: &mut Vec<RepositoryRecord>, number: i64, name: &str) -> i64 {
    upsert_repository(repos, Platform::GitHub, number, "acme", name, "main", None, number)
}

fn react(out: &mut Vec<CommentReaction>, id: i64, kind: &str, who: &[(&str, &str)]) {
    for (reactor, reaction) in who {
        out.push(CommentReaction {
            platform_comment_id: id,
            kind: CommentKind::from_name(kind),
            reactor: reactor.to_string(),
            vote: Vote::from_name(reaction),
        });
    }
}

#[test]
fn feedback_is_a_cohort_of_the_comments_posted_in_the_window() {
    let mut repos = Vec::new();
    let widgets = repository(&mut repos, 1, "widgets");
    let gadgets = repository(&mut repos, 2, "gadgets");
    let comments = vec![
        comment(widgets, 101, "inline", "2026-08-02T09:06:00Z"),
        comment(widgets, 102, "inline", "2026-08-02T09:06:00Z"),
        comment(widgets, 103, "inline", "2026-08-03T09:06:00Z"),
        comment(widgets, 104, "reply", "2026-08-02T09:07:00Z"),
        comment(widgets, 201, "inline", "2026-07-28T09:06:00Z"),
        comment(gadgets, 301, "inline", "2026-08-04T09:06:00Z"),
    ];
    let mut reactions = Vec::new();
    react(&mut reactions, 101, "inline", &[("alice", "-1"), ("bob", "-1"), ("carol", "+1")]);
    react(&mut reactions, 102, "inline", &[("alice", "+1"), ("dave", "heart")]);
    react(&mut reactions, 103, "inline", &[("bob", "-1")]);
    react(&mut reactions, 104, "reply", &[("alice", "+1")]);
    react(&mut reactions, 201, "inline", &[("alice", "+1")]);
    react(&mut reactions, 301, "inline", &[("erin", "-1")]);

    let scoped = feedback_analytics(&comments, &reactions, &repos, &week(Some(widgets)));
    assert_eq!(
        scoped.current,
        FeedbackTotals {
            inline_comments: 3,
            reacted_inline: 3,
            up: 2,
            down: 3,
            other: 1,
            reactors: 4,
            reply_up: 1,
            reply_down: 0,
            approval_rate: Some(Share { part: 2, whole: 5 }),
        },
        "the heart is never part of the rate, and the reply's 👍 is reported beside it"
    );
    let rate = scoped.current.approval_rate.unwrap();
    assert_eq!(rate.part as f64 / rate.whole as f64, 0.4);
    assert_eq!(
        (scoped.previous.inline_comments, scoped.previous.up, scoped.previous.down),
        (1, 1, 0),
        "the preceding week is counted too"
    );
    assert_eq!(scoped.previous.approval_rate, Some(Share { part: 1, whole: 1 }));

    assert_eq!(scoped.series.len(), 7, "every day in the window has a point");
    assert_eq!(
        (scoped.series[1].inline_comments, scoped.series[1].up, scoped.series[1].down),
        (2, 2, 2)
    );
    assert_eq!(
        (scoped.series[2].inline_comments, scoped.series[2].up, scoped.series[2].down),
        (1, 0, 1)
    );
    assert!(scoped.by_repository.is_none(), "one repository, no table");

    let estate = feedback_analytics(&comments, &reactions, &repos, &week(None));
    assert_eq!((estate.current.inline_comments, estate.current.down), (4, 4));
    assert!(!estate.by_repository_truncated);
    assert_eq!(
        estate
            .by_repository
            .expect("estate scope lists repositories")
            .iter()
            .map(|r| (r.repository_id, r.name.as_str(), r.inline_comments, r.up, r.down))
            .collect::<Vec<_>>(),
        vec![(widgets, "widgets", 3, 2, 3), (gadgets, "gadgets", 1, 0, 1)]
    );

    // A part says whose repository it is, and one that is not known has no part.
    repos.truncate(1);
    let parts = feedback_analytics(&comments, &reactions, &repos, &week(None)).by_repository;
    let parts = parts.unwrap();
    assert_eq!(parts.len(), 1);
    assert_eq!((parts[0].owner.as_str(), parts[0].platform), ("acme", Platform::GitHub));
}

#[test]
fn a_rate_needs_a_verdict() {
    assert_eq!(approval_rate(0, 0), None);
    assert_eq!(approval_rate(0, 4), Some(Share { part: 0, whole: 4 }));
    assert_eq!(approval_rate(3, 1), Some(Share { part: 3, whole: 4 }));
}
