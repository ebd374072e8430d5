//! The store of tasks: creation, compare-and-set updates and the reads of an owner.

use control_plane::a2a::model::{
    meta_i64, set_meta_i64, ErrorKind, Metadata, Task, TaskState,
};
use control_plane::a2a::store::{
    count_recent, create, created, get, list, list_matches, load_owned, prepare_update, update,
    MappingRow, StoredTask, Submission, LB_CALLER, LB_SKILL, LB_UNDERLYING, LB_VERSION,
};
use control_plane::a2a::model::A2aError;
use control_plane::ids::{id_text, read_id};
use control_plane::json::Json;
use uuid::Uuid;

fn new_id() -> u128 {
    Uuid::now_v7().as_u128()
}

fn task_with(id: u128, caller: &str, state: TaskState) -> Task {
    let metadata = Metadata::new()
        .insert(LB_CALLER, Json::Str(caller.to_string()))
        .insert(LB_SKILL, Json::Str("review".to_string()));
    Task {
        id: id_text(id),
        context_id: format!("ctx-{caller}"),
        state,
        artifacts: None,
        metadata: Some(metadata),
    }
}

fn copy_scalar(value: &Json) -> Json {
    match value {
        Json::Null => Json::Null,
        Json::Bool(b) => Json::Bool(*b),
        Json::Int(i) => Json::Int(*i),
        Json::Float(bits) => Json::Float(*bits),
        Json::Str(s) => Json::Str(s.clone()),
        other => panic!("no scalar: {other:?}"),
    }
}

fn copy_task(task: &Task) -> Task {
    let mut metadata = Metadata::new();
    if let Some(stored) = &task.metadata {
        for key in [LB_CALLER, LB_SKILL, LB_UNDERLYING, LB_VERSION] {
            if let Some(value) = stored.get(key) {
                metadata = metadata.insert(key, copy_scalar(value));
            }
        }
    }
    assert!(task.artifacts.is_none());
    Task {
        id: task.id.clone(),
        context_id: task.context_id.clone(),
        state: task.state,
        artifacts: None,
        metadata: task.metadata.as_ref().map(|_| metadata),
    }
}

fn copy_row(row: &MappingRow) -> MappingRow {
    MappingRow {
        a2a_task_id: row.a2a_task_id,
        context_id: row.context_id.clone(),
        caller_id: row.caller_id.clone(),
        skill: row.skill.clone(),
        underlying_task_id: row.underlying_task_id,
        state: row.state.clone(),
        version: row.version,
        task: copy_task(&row.task),
    }
}

/// The rows in memory, with when each was created.
struct Store {
    rows: Vec<(MappingRow, i64)>,
}

impl Store {
    fn new() -> Store {
        Store { rows: Vec::new() }
    }

    fn create(&mut self, task: Task) -> Result<i64, A2aError> {
        let row = create(task)?;
        let fresh = self.rows.iter().all(|(r, _)| r.a2a_task_id != row.a2a_task_id);
        let id = id_text(row.a2a_task_id);
        if fresh {
            self.rows.push((row, 1_000_000));
        }
        created(fresh, &id)
    }

    fn stored(&self) -> Vec<StoredTask> {
        self.rows
            .iter()
            .map(|(r, at)| StoredTask { row: copy_row(r), created_at: *at })
            .collect()
    }

    fn row(&self, id: &str) -> Option<MappingRow> {
        let id = read_id(id)?;
        self.rows.iter().find(|(r, _)| r.a2a_task_id == id).map(|(r, _)| copy_row(r))
    }

    fn get(&self, id: &str) -> Option<Task> {
        self.row(id).map(get)
    }

    fn update(&mut self, task: Task) -> Result<i64, A2aError> {
        let u = prepare_update(task)?;
        let at = self.rows.iter().position(|(r, _)| r.a2a_task_id == u.a2a_task_id);
        match at {
            None => update(&mut None, u),
            Some(at) => {
                let (row, when) = self.rows.remove(at);
                let mut slot = Some(row);
                let answer = update(&mut slot, u);
                self.rows.insert(at, (slot.unwrap(), when));
                answer
            }
        }
    }

    fn count(&self, caller: &str, skill: &str, window_secs: i64) -> usize {
        let submissions = self
            .rows
            .iter()
            .map(|(r, when)| Submission {
                caller_id: r.caller_id.clone(),
                skill: r.skill.clone(),
                state: r.state.clone(),
                created_at: *when,
            })
            .collect();
        count_recent(&submissions, caller, skill, window_secs, 1_000_000)
    }
}

#[test]
fn create_get_roundtrips_and_stamps_version() {
    let mut store = Store::new();
    let id = new_id();
    assert_eq!(store.create(task_with(id, "svc-a", TaskState::Submitted)).unwrap(), 1);
    // Duplicate create is rejected.
    assert!(store.create(task_with(id, "svc-a", TaskState::Submitted)).is_err());

    let fetched = store.get(&id_text(id)).unwrap();
    assert_eq!(fetched.state, TaskState::Submitted);
    // get() stamps the current version for CAS.
    assert_eq!(meta_i64(&fetched.metadata, LB_VERSION), Some(1));

    // Unknown / non-uuid ids read as None (→ TaskNotFound at the handler), never an error.
    assert!(store.get(&id_text(new_id())).is_none());
    assert!(store.get("not-a-uuid").is_none());
}

/// Two concurrent updates off the same read — one wins, the other is a conflict, and no lost update
/// occurs (the row ends at version 2 with the winner's state).
#[test]
fn cas_update_lets_one_writer_win_no_lost_update() {
    let mut store = Store::new();
    let id = new_id();
    store.create(task_with(id, "svc-a", TaskState::Submitted)).unwrap();

    // Two readers each observe version 1 (simulating two replicas).
    let mut a = store.get(&id_text(id)).unwrap();
    let mut b = store.get(&id_text(id)).unwrap();
    assert_eq!(meta_i64(&a.metadata, LB_VERSION), Some(1));
    assert_eq!(meta_i64(&b.metadata, LB_VERSION), Some(1));

    // Writer A wins → version 2.
    a.state = TaskState::Working;
    assert_eq!(store.update(a).unwrap(), 2);

    // Writer B (still holding expected=1) must NOT clobber — it is rejected.
    b.state = TaskState::Failed;
    let err = store.update(b).expect_err("stale update must be rejected");
    assert_eq!(err.kind, ErrorKind::InvalidRequest);

    // The persisted state is the winner's (WORKING), at version 2 — no lost update.
    let after = store.get(&id_text(id)).unwrap();
    assert_eq!(after.state, TaskState::Working);
    assert_eq!(meta_i64(&after.metadata, LB_VERSION), Some(2));

    // A fresh read lets B retry successfully against the new version.
    let mut b_retry = store.get(&id_text(id)).unwrap();
    b_retry.state = TaskState::Completed;
    assert_eq!(store.update(b_retry).unwrap(), 3);
}

#[test]
fn update_distinguishes_not_found_from_conflict() {
    let mut store = Store::new();
    // Updating an id that was never created is a not-found, even with an expected version.
    let mut ghost = task_with(new_id(), "svc-a", TaskState::Working);
    ghost.metadata = set_meta_i64(ghost.metadata, LB_VERSION, 1);
    let err = store.update(ghost).expect_err("unknown id");
    assert_eq!(err.kind, ErrorKind::TaskNotFound);

    // Updating without any expected version is a programmer error (internal), not a silent write.
    let id = new_id();
    store.create(task_with(id, "svc-a", TaskState::Submitted)).unwrap();
    let no_version = task_with(id, "svc-a", TaskState::Working); // no LB_VERSION stamped
    let err = store.update(no_version).unwrap_err();
    assert_eq!(err.kind, ErrorKind::Internal);
}

#[test]
fn load_owned_is_caller_scoped() {
    let mut store = Store::new();
    let id = new_id();
    store.create(task_with(id, "svc-a", TaskState::Submitted)).unwrap();

    // The owner sees it…
    let owned = load_owned(store.row(&id_text(id)), "svc-a");
    assert_eq!(owned.unwrap().state, "TASK_STATE_SUBMITTED");
    // …another caller does not (→ TaskNotFound, no existence leak).
    assert!(load_owned(store.row(&id_text(id)), "svc-b").is_none());
    assert!(load_owned(None, "svc-a").is_none());
}

#[test]
fn count_recent_scopes_by_caller_and_skill() {
    let mut store = Store::new();
    for _ in 0..3 {
        store.create(task_with(new_id(), "svc-a", TaskState::Submitted)).unwrap();
    }
    store.create(task_with(new_id(), "svc-b", TaskState::Submitted)).unwrap();
    assert_eq!(store.count("svc-a", "review", 3600), 3);
    assert_eq!(store.count("svc-b", "review", 3600), 1);
    assert_eq!(store.count("svc-a", "ask", 3600), 0);
    // A zero-length window sees nothing.
    assert_eq!(store.count("svc-a", "review", 0), 0);
    // A rejection launched no run, so it does not count.
    store.create(task_with(new_id(), "svc-a", TaskState::Rejected)).unwrap();
    assert_eq!(store.count("svc-a", "review", 3600), 3);
}

#[test]
fn list_filters_by_context_and_status() {
    let mut store = Store::new();
    let a = new_id();
    store.create(task_with(a, "svc-a", TaskState::Submitted)).unwrap();
    // Move it to WORKING via CAS.
    let mut fetched = store.get(&id_text(a)).unwrap();
    fetched.state = TaskState::Working;
    store.update(fetched).unwrap();
    store.create(task_with(new_id(), "svc-b", TaskState::Submitted)).unwrap();

    let tasks = store.stored();
    let by_ctx = list(&tasks, Some("ctx-svc-a"), None);
    assert_eq!(by_ctx.rows.len(), 1);
    assert_eq!(tasks[by_ctx.rows[0]].row.a2a_task_id, a);

    let by_status = list(&tasks, None, Some(TaskState::Working));
    assert_eq!(by_status.rows.len(), 1);
    assert_eq!(by_status.total, 1);
    assert!(list_matches(&tasks[by_status.rows[0]].row, None, Some(TaskState::Working)));
}

#[test]
fn a_listing_starts_with_the_newest() {
    let mut store = Store::new();
    for (id, at) in [(5, 10), (9, 10), (7, 30), (6, 20)] {
        store.create(task_with(id, "svc-a", TaskState::Submitted)).unwrap();
        store.rows.last_mut().unwrap().1 = at;
    }
    let tasks = store.stored();
    let all = list(&tasks, None, None);
    let order: Vec<u128> = all.rows.iter().map(|i| tasks[*i].row.a2a_task_id).collect();
    assert_eq!(order, vec![7, 6, 9, 5]);
    assert_eq!(all.total, 4);
    assert!(list(&tasks, Some("elsewhere"), None).rows.is_empty());
    assert_eq!(list(&tasks, Some("ctx-svc-a"), Some(TaskState::Working)).total, 0);
}

#[test]
fn creation_needs_an_id_and_a_caller() {
    let mut task = task_with(new_id(), "svc-a", TaskState::Submitted);
    task.id = "7".to_string();
    let err = create(task).unwrap_err();
    assert_eq!(err.kind, ErrorKind::InvalidParams);
    assert_eq!(err.message, "a2a taskId must be a uuid");

    let mut task = task_with(new_id(), "svc-a", TaskState::Submitted);
    task.metadata = None;
    let err = create(task).unwrap_err();
    assert_eq!(err.kind, ErrorKind::Internal);
    assert_eq!(err.message, "a2a store: create without lb.callerId metadata");
}

#[test]
fn ids_are_read_in_any_form_and_written_in_one() {
    let id = read_id("{67E55044-10B1-426F-9247-BB680E5FE0C8}").unwrap();
    assert_eq!(id, 0x67e5_5044_10b1_426f_9247_bb68_0e5f_e0c8);
    assert_eq!(id_text(id), "67e55044-10b1-426f-9247-bb680e5fe0c8");
    assert_eq!(read_id("67e5504410b1426f9247bb680e5fe0c8"), Some(id));
    assert!(read_id("67e55044").is_none());
}

#[test]
fn a_deleted_run_is_not_named_any_more() {
    let mut store = Store::new();
    let id = new_id();
    let run = new_id();
    let mut task = task_with(id, "svc-a", TaskState::Submitted);
    task.metadata =
        Some(task.metadata.unwrap().insert(LB_UNDERLYING, Json::Str(id_text(run))));
    store.create(task).unwrap();
    assert_eq!(store.rows[0].0.underlying_task_id, Some(run));
    store.rows[0].0.underlying_task_id = None;
    let got = store.get(&id_text(id)).unwrap();
    assert!(got.metadata.as_ref().unwrap().get(LB_UNDERLYING).is_none());
    assert_eq!(store.update(got).unwrap(), 2);
    assert_eq!(store.rows[0].0.underlying_task_id, None);
}
