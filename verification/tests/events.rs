//! The log of a task, and what its events send.

use control_plane::a2a::events::{
    fetch_events_after, update_of, Event, EventBody, Front, LoggedEvent, StreamBody,
};
use control_plane::a2a::model::{Artifact, Part, TaskState};
use control_plane::db::tasks::{
    create_task, report_transition, NewTask, RunStatus, TaskRecord,
};
use control_plane::ids::id_text;

const NOW: i64 = 1_700_000_000_000_000;

fn front(id: u128, last_seq: i64, has_final: bool) -> Front {
    Front { a2a_task_id: id, context_id: format!("ctx-{id}"), last_seq, has_final }
}

fn artifact() -> Artifact {
    Artifact {
        artifact_id: "review".to_string(),
        name: None,
        description: None,
        parts: vec![Part::text("Found it".to_string())],
    }
}

fn running(tasks: &mut Vec<TaskRecord>) -> u128 {
    let task = NewTask {
        repository_id: 1,
        installation_id: 99,
        webhook_delivery_id: "d1".to_string(),
        target_type: "pull_request".to_string(),
        target_id: 7,
        command_text: "review".to_string(),
        base_sha: None,
        head_sha: Some("head".to_string()),
        run_epoch: 0,
        preset: "fast".to_string(),
        entry_point: "a2a".to_string(),
        trigger_comment_id: None,
        trace_context: None,
        model_override: None,
        check_runs_enabled: false,
        run_after_secs: None,
    };
    create_task(tasks, &task, 42, NOW).unwrap().id
}

#[test]
fn an_update_names_its_task_and_carries_the_event() {
    let front = front(5, 1, false);
    let working = Event { seq: 2, body: EventBody::Status(TaskState::Working), is_final: false };
    let update = update_of(&front, &working, None).unwrap();
    assert_eq!(update.task_id, id_text(5));
    assert_eq!(update.context_id, "ctx-5");
    assert_eq!(update.body, StreamBody::Status(TaskState::Working));
    assert_eq!(update.last_chunk, None);

    let found = Event { seq: 2, body: EventBody::Artifact, is_final: false };
    let update = update_of(&front, &found, Some(artifact())).unwrap();
    assert_eq!(update.body, StreamBody::Artifact(artifact()));
    assert_eq!(update.last_chunk, Some(true));
    assert!(update_of(&front, &found, None).is_none(), "there is no artifact to send");
}

#[test]
fn a_log_is_read_by_number_however_it_lies() {
    let event = |seq: i64| LoggedEvent { seq, payload: seq * 10, is_final: false };
    let log = vec![event(3), event(1), event(4), event(2)];
    let read = |after: i64| {
        fetch_events_after(&log, after).into_iter().map(|l| l.payload).collect::<Vec<i64>>()
    };
    assert_eq!(read(0), vec![10, 20, 30, 40]);
    assert_eq!(read(2), vec![30, 40]);
    assert!(read(4).is_empty());
}

#[test]
fn a_report_moves_the_run_and_its_logs_together() {
    let mut tasks = Vec::new();
    let run = running(&mut tasks);
    let fronts = vec![front(5, 1, false), front(6, 3, true)];
    let change =
        report_transition(&mut tasks, &fronts, run, RunStatus::Succeeded, None, true, NOW);
    assert!(change.report.found);
    assert_eq!(tasks[0].status.as_str(), "succeeded");
    assert_eq!(change.appended.len(), 2);
    assert_eq!(change.appended[0].a2a_task_id, 5);
    let bodies: Vec<(i64, EventBody, bool)> =
        change.appended[0].events.iter().map(|e| (e.seq, e.body, e.is_final)).collect();
    assert_eq!(
        bodies,
        vec![
            (2, EventBody::Artifact, false),
            (3, EventBody::Status(TaskState::Completed), true),
        ]
    );
    assert!(change.appended[1].events.is_empty(), "nothing follows a final event");

    // A run that is not there moves nothing.
    let change =
        report_transition(&mut tasks, &Vec::new(), run + 1, RunStatus::Failed, None, false, NOW);
    assert!(!change.report.found);
    assert!(change.appended.is_empty());
    assert_eq!(tasks[0].status.as_str(), "succeeded");
}
