//! Requests from end to end, over tables in memory.

use control_plane::a2a::events::{
    append_terminal_status, fetch_events_after, task_channel, update_of, Event, Front,
    LoggedEvent, StreamBody, StreamUpdate,
};
use control_plane::a2a::handler::{
    admit_stream, answer_push_config, cancel_task, canceled_snapshot, create_push_config, db_error,
    delete_push_config, get_extended_agent_card, get_push_config, get_task, list_push_configs,
    list_tasks, PushConfig,
};
use control_plane::a2a::lifecycle::{
    begin_submission, build_task_snapshot, check_quota, check_repository, client_view,
    completed_artifact, record_submission, Begun, CallerCtx, Rejection, ReviewRecord, RunRow,
    SubmitRequest,
};
use control_plane::a2a::limits::{HandlerLimits, QuotaConfig, StreamCounters};
use control_plane::a2a::mapping::task_state_from_status;
use control_plane::a2a::model::{
    meta_str, A2aError, ErrorKind, Metadata, Part, PartContent, Task, TaskState,
};
use control_plane::a2a::push_crypto::{decrypt, Key};
use control_plane::a2a::ssrf::{ResolveError, SsrfPolicy};
use control_plane::a2a::store::{
    count_recent, create, get, load_owned, prepare_update, update, Mapping, MappingRow, Submission,
    LB_CALLER, LB_SKILL, LB_UNDERLYING, LB_VERSION,
};
use control_plane::a2a::streaming::{
    is_live_terminal, start_stream, Answer, Failure, Fetched, LiveRun, Request,
};
use control_plane::db::push_notifications as push;
use control_plane::db::push_notifications::{PushConfigRow, PushState};
use control_plane::db::repositories::{
    find_by_id, find_repository, repository_status, set_repository_status_by_id, upsert_repository,
    RepoStatus, RepositoryRecord,
};
use control_plane::db::reviews::{get_review, insert_review_if_absent, ReviewRow};
use control_plane::db::tasks as runs_table;
use control_plane::db::tasks::{
    cancel_task_by_id, create_task, find_task_id_by_idempotency, report_transition, task_row,
    NewTask, RunStatus, TaskRecord,
};
use control_plane::ids::{id_text, read_id};
use control_plane::json::Json;
use control_plane::net::IpAddr;
use control_plane::platform::Platform;
use uuid::Uuid;

const NOW: i64 = 1_000_000_000;
const OK_WEBHOOK: &str = "https://93.184.216.34/webhook";

fn new_id() -> u128 {
    Uuid::now_v7().as_u128()
}

fn test_key() -> Key {
    Key::from_bytes(&[7u8; 32]).unwrap()
}

fn params(caller: &str, perms: &[&str]) -> CallerCtx {
    CallerCtx { id: caller.to_string(), perms: perms.iter().map(|p| p.to_string()).collect() }
}

fn convert(value: serde_json::Value) -> Json {
    match value {
        serde_json::Value::Null => Json::Null,
        serde_json::Value::Bool(b) => Json::Bool(b),
        serde_json::Value::Number(n) => match n.as_i64() {
            Some(i) => Json::Int(i),
            None => Json::Float(n.as_f64().unwrap().to_bits()),
        },
        serde_json::Value::String(s) => Json::Str(s),
        serde_json::Value::Array(items) => Json::Array(items.into_iter().map(convert).collect()),
        serde_json::Value::Object(members) => {
            Json::Object(members.into_iter().map(|(k, v)| (k, convert(v))).collect())
        }
    }
}

fn json(text: &str) -> Json {
    convert(serde_json::from_str(text).unwrap())
}

fn field<'a>(value: &'a Json, key: &str) -> &'a Json {
    match value {
        Json::Object(members) => control_plane::json::get(members, key).unwrap(),
        other => panic!("expected an object, got {other:?}"),
    }
}

fn review_req(data: &str) -> SubmitRequest {
    SubmitRequest { tenant: None, context_id: None, parts: vec![Part::data(json(data))] }
}

fn review_req_with_text(text: &str, data: &str) -> SubmitRequest {
    SubmitRequest {
        tenant: None,
        context_id: None,
        parts: vec![Part::text(text.to_string()), Part::data(json(data))],
    }
}

fn copy_text_metadata(metadata: &Option<Metadata>) -> Option<Metadata> {
    metadata.as_ref().map(|stored| {
        let mut copy = Metadata::new();
        for key in [LB_CALLER, LB_SKILL, LB_UNDERLYING, LB_VERSION, "lb.rejectionReason"] {
            match stored.get(key) {
                Some(Json::Str(s)) => copy = copy.insert(key, Json::Str(s.clone())),
                Some(Json::Int(i)) => copy = copy.insert(key, Json::Int(*i)),
                Some(other) => panic!("unexpected {other:?}"),
                None => {}
            }
        }
        copy
    })
}

fn copy_task(task: &Task) -> Task {
    assert!(task.artifacts.is_none());
    Task {
        id: task.id.clone(),
        context_id: task.context_id.clone(),
        state: task.state,
        artifacts: None,
        metadata: copy_text_metadata(&task.metadata),
    }
}

fn copy_row(row: &MappingRow) -> MappingRow {
    MappingRow {
        a2a_task_id: row.a2a_task_id,
        context_id: row.context_id.clone(),
        caller_id: row.caller_id.clone(),
        skill: row.skill.clone(),
        underlying_task_id: row.underlying_task_id,
        state: row.state.clone(),
        version: row.version,
        task: copy_task(&row.task),
    }
}

fn copy_config(row: &PushConfigRow) -> PushConfigRow {
    PushConfigRow {
        config_id: row.config_id,
        a2a_task_id: row.a2a_task_id,
        url: row.url.clone(),
        token_enc: row.token_enc.clone(),
        delivered_seq: row.delivered_seq,
        attempts: row.attempts,
        state: row.state,
        created_by: row.created_by.clone(),
        created_at: row.created_at,
        next_attempt_at: row.next_attempt_at,
        lease_owner: row.lease_owner.clone(),
        lease_expires_at: row.lease_expires_at,
    }
}

fn copy_json(value: &Json) -> Json {
    match value {
        Json::Null => Json::Null,
        Json::Bool(b) => Json::Bool(*b),
        Json::Int(i) => Json::Int(*i),
        Json::Float(bits) => Json::Float(*bits),
        Json::Str(s) => Json::Str(s.clone()),
        Json::Array(items) => Json::Array(items.iter().map(copy_json).collect()),
        Json::Object(members) => {
            Json::Object(members.iter().map(|(k, v)| (k.clone(), copy_json(v))).collect())
        }
    }
}

/// One event of a stream, as its state or the text of its artifact.
#[derive(Clone, Debug, PartialEq)]
enum Seen {
    Snapshot(TaskState),
    Status(TaskState),
    Artifact(String),
}

fn seen(update: &StreamUpdate) -> Seen {
    match &update.body {
        StreamBody::Status(s) => Seen::Status(*s),
        StreamBody::Artifact(a) => Seen::Artifact(a.parts[0].as_text().unwrap().to_string()),
    }
}

/// An event of a task's log, with what it sends.
struct Logged {
    task: u128,
    event: Event,
    sent: StreamUpdate,
}

struct World {
    repos: Vec<RepositoryRecord>,
    runs: Vec<TaskRecord>,
    rows: Vec<MappingRow>,
    events: Vec<Logged>,
    reviews: Vec<ReviewRow>,
    configs: Vec<PushConfigRow>,
    counters: StreamCounters,
    quota: QuotaConfig,
    limits: HandlerLimits,
    key: Option<Key>,
}

impl World {
    fn new(max: i64) -> World {
        World {
            repos: Vec::new(),
            runs: Vec::new(),
            rows: Vec::new(),
            events: Vec::new(),
            reviews: Vec::new(),
            configs: Vec::new(),
            counters: StreamCounters::new(),
            quota: QuotaConfig { max, window_secs: 3600 },
            limits: HandlerLimits::default(),
            key: Some(test_key()),
        }
    }

    fn with_api(max: i64) -> World {
        let mut w = World::new(max);
        w.seed_approved_repo("acme", "api", Some(111));
        w
    }

    fn seed_approved_repo(&mut self, owner: &str, name: &str, installation: Option<i64>) -> i64 {
        let fresh = self.repos.len() as i64 + 1;
        let number = (owner.len() * 1000 + name.len()) as i64;
        let id = upsert_repository(
            &mut self.repos,
            Platform::GitHub,
            number,
            owner,
            name,
            "main",
            installation,
            fresh,
        );
        let at = find_by_id(&self.repos, id).unwrap();
        set_repository_status_by_id(&mut self.repos[at], RepoStatus::Approved, Some("ops"), NOW);
        id
    }

    fn recent(&self, caller: &str) -> u64 {
        let submissions = self
            .rows
            .iter()
            .map(|r| Submission {
                caller_id: r.caller_id.clone(),
                skill: r.skill.clone(),
                state: r.state.clone(),
                created_at: NOW,
            })
            .collect();
        count_recent(&submissions, caller, "review", self.quota.window_secs, NOW) as u64
    }

    fn rejected(&mut self, rejection: Rejection) -> Task {
        let row = create(copy_task(&rejection.stored)).unwrap();
        let front = self.front(&row);
        self.log(&front, append_terminal_status(0, false, TaskState::Rejected));
        self.rows.push(row);
        client_view(rejection.stored)
    }

    fn send_message(&mut self, caller: &CallerCtx, req: SubmitRequest) -> Result<Task, A2aError> {
        let id = new_id();
        let pending = match begin_submission(caller, req, id, &id_text(new_id())) {
            Begun::Failed(e) => return Err(e),
            Begun::Rejected(r) => return Ok(self.rejected(r)),
            Begun::CountRecent(p) => p,
        };
        let recent = self.recent(&caller.id);
        let pending = match check_quota(pending, recent, self.quota) {
            Err(r) => return Ok(self.rejected(r)),
            Ok(p) => p,
        };
        let repo = find_repository(
            &self.repos,
            pending.input.platform,
            &pending.input.owner,
            &pending.input.name,
        );
        let admitted = match check_repository(pending, repo) {
            Err(r) => return Ok(self.rejected(r)),
            Ok(a) => a,
        };
        let created = create_task(&mut self.runs, &admitted.new_task, new_id(), NOW).map(|c| c.id);
        let existing = match created {
            Some(_) => None,
            None => find_task_id_by_idempotency(&self.runs, &admitted.new_task)
                .map(|i| self.runs[i].id),
        };
        let stored = record_submission(&admitted.pending, created, existing)?;
        self.rows.push(create(copy_task(&stored)).unwrap());
        Ok(client_view(stored))
    }

    fn row(&self, id: &str) -> Option<&MappingRow> {
        let id = read_id(id)?;
        self.rows.iter().find(|r| r.a2a_task_id == id)
    }

    fn owned(&self, caller: &CallerCtx, id: &str) -> Option<Mapping> {
        load_owned(self.row(id).map(copy_row), &caller.id)
    }

    fn run_row(&self, mapping: &Mapping) -> Option<RunRow> {
        let at = runs_table::get_task(&self.runs, mapping.underlying_task_id?)?;
        let repo = find_by_id(&self.repos, self.runs[at].repository_id).map(|i| &self.repos[i]);
        let row = task_row(&self.runs[at], repo);
        Some(RunRow {
            status: row.status.as_str().to_string(),
            repo_owner: row.repo_owner,
            repo_name: row.repo_name,
            target_id: row.target_id,
            base_sha: row.base_sha,
            head_sha: row.head_sha,
        })
    }

    fn review_record(&self, mapping: &Mapping) -> Option<ReviewRecord> {
        let at = get_review(&self.reviews, mapping.underlying_task_id?)?;
        let row = &self.reviews[at];
        Some(ReviewRecord {
            summary: row.summary.clone(),
            findings: copy_json(&row.findings),
            review_url: row.review_url.clone(),
        })
    }

    fn get_task(&self, caller: &CallerCtx, id: &str) -> Result<Task, A2aError> {
        let owned = self.owned(caller, id);
        let run = owned.as_ref().and_then(|m| self.run_row(m));
        let review = owned.as_ref().and_then(|m| self.review_record(m));
        get_task(id, owned, &run, review)
    }

    fn cancel_task(&mut self, caller: &CallerCtx, id: &str) -> Result<Task, A2aError> {
        let owned = self.owned(caller, id);
        let run = owned.as_ref().and_then(|m| self.run_row(m));
        let c = cancel_task(id, owned, &run)?;
        if let Some(run) = c.underlying_task_id {
            assert!(cancel_task_by_id(&mut self.runs, run, NOW));
        }
        let at = self.rows.iter().position(|r| r.a2a_task_id == c.a2a_task_id).unwrap();
        let front = self.front(&self.rows[at]);
        let ending = append_terminal_status(front.last_seq, front.has_final, TaskState::Canceled);
        self.log(&front, ending);
        let row = self.rows.remove(at);
        let stored = canceled_snapshot(get(copy_row(&row)));
        let mut slot = Some(row);
        update(&mut slot, prepare_update(stored).unwrap()).unwrap();
        self.rows.insert(at, slot.unwrap());
        Ok(c.task)
    }

    fn log_end(&self, id: u128) -> (i64, bool) {
        let log = self.events.iter().filter(|l| l.task == id);
        (
            log.clone().map(|l| l.event.seq).max().unwrap_or(0),
            log.clone().any(|l| l.event.is_final),
        )
    }

    fn front(&self, row: &MappingRow) -> Front {
        let (last_seq, has_final) = self.log_end(row.a2a_task_id);
        Front {
            a2a_task_id: row.a2a_task_id,
            context_id: row.context_id.clone(),
            last_seq,
            has_final,
        }
    }

    fn log(&mut self, front: &Front, events: Vec<Event>) {
        let mapping = self.rows.iter().find(|r| r.a2a_task_id == front.a2a_task_id).map(|r| {
            load_owned(Some(copy_row(r)), &r.caller_id).unwrap()
        });
        for event in events {
            let artifact = mapping
                .as_ref()
                .and_then(|m| completed_artifact(self.review_record(m), &self.run_row(m)));
            let sent = update_of(front, &event, artifact).unwrap();
            assert_eq!(sent.task_id, id_text(front.a2a_task_id));
            assert_eq!(sent.context_id, front.context_id);
            self.events.push(Logged { task: front.a2a_task_id, event, sent });
        }
    }

    fn set_status(&mut self, run: u128, status: &str) {
        let new = RunStatus::from_name(status).unwrap();
        let fronts: Vec<Front> = self
            .rows
            .iter()
            .filter(|r| r.underlying_task_id == Some(run))
            .map(|r| self.front(r))
            .collect();
        let persisted = get_review(&self.reviews, run).is_some();
        let change = report_transition(&mut self.runs, &fronts, run, new, None, persisted, NOW);
        assert!(change.report.found);
        assert_eq!(change.appended.len(), fronts.len());
        for (front, appended) in fronts.iter().zip(change.appended) {
            assert_eq!(front.a2a_task_id, appended.a2a_task_id);
            self.log(front, appended.events);
        }
    }

    fn add_review(&mut self, run: u128, summary: &str, inline_count: i32, findings: Json) {
        insert_review_if_absent(
            &mut self.reviews,
            ReviewRow {
                task_id: run,
                summary: summary.to_string(),
                body: "body".to_string(),
                inline_count,
                deferred_count: 0,
                out_of_scope_count: 0,
                findings,
                review_url: None,
                platform_review_id: None,
                created_at: NOW,
            },
        );
    }

    fn event_rows(&self, id: &str) -> Vec<Event> {
        let id = read_id(id).unwrap();
        self.events.iter().filter(|l| l.task == id).map(|l| l.event).collect()
    }

    fn batch(&self, id: &str, after: i64) -> Vec<(Event, Seen)> {
        let id = read_id(id).unwrap();
        let log = self
            .events
            .iter()
            .filter(|l| l.task == id)
            .map(|l| LoggedEvent { seq: l.event.seq, payload: l, is_final: l.event.is_final })
            .collect();
        fetch_events_after(&log, after)
            .into_iter()
            .map(|l| (l.payload.event, seen(&l.payload.sent)))
            .collect()
    }

    /// Subscribes and runs the stream to its end; `wake` happens at each wait.
    fn subscribe(
        &mut self,
        caller: &CallerCtx,
        id: &str,
        wake: &mut dyn FnMut(&mut World),
    ) -> Result<Vec<Seen>, A2aError> {
        let mapping = match self.owned(caller, id) {
            Some(m) => m,
            None => return Err(A2aError::task_not_found(id)),
        };
        let limits = self.limits;
        admit_stream(&mut self.counters, &caller.id, &limits)?;
        let run = self.run_row(&mapping);
        let review = self.review_record(&mapping);
        let snapshot = build_task_snapshot(id, &mapping, &run, review);
        let mut shown = vec![Seen::Snapshot(snapshot.state)];
        let (mut stream, mut request) = start_stream(snapshot.state.is_terminal());
        let mut fetched: Vec<(Event, Seen)> = Vec::new();
        let mut rounds = 0;
        loop {
            rounds += 1;
            assert!(rounds < 100, "the stream does not end");
            let answer = match request {
                Request::Fetch(after) => {
                    fetched = self.batch(id, after);
                    Answer::Events(
                        fetched
                            .iter()
                            .map(|(e, _)| Fetched {
                                seq: e.seq,
                                is_final: e.is_final,
                                decodes: true,
                            })
                            .collect(),
                    )
                }
                Request::Listen => Answer::Listening,
                Request::Probe => {
                    let live = match mapping.underlying_task_id {
                        None => LiveRun::NoRun,
                        Some(run) => match runs_table::get_task(&self.runs, run) {
                            None => LiveRun::Gone,
                            Some(i) => LiveRun::Status(self.runs[i].status.as_str().to_string()),
                        },
                    };
                    Answer::Live(is_live_terminal(&live), 1)
                }
                Request::Wait => {
                    wake(self);
                    Answer::Woken
                }
                Request::Close => break,
            };
            let step = stream.next(answer);
            assert_eq!(step.failure, None);
            shown.extend(fetched[..step.emit].iter().map(|(_, s)| s.clone()));
            fetched.clear();
            request = step.request;
        }
        self.counters.release(&caller.id);
        Ok(shown)
    }

    fn create_push(
        &mut self,
        caller: &CallerCtx,
        req: PushConfig,
    ) -> Result<PushConfig, A2aError> {
        let owned = self.owned(caller, &req.task_id).is_some();
        let active = match read_id(&req.task_id) {
            Some(id) => {
                push::count_active_push_configs_for_caller(&self.configs, id, &caller.id) as i64
            }
            None => 0,
        };
        let (row, answer) = create_push_config(
            &caller.id,
            req,
            owned,
            active,
            &self.limits,
            &SsrfPolicy::default(),
            no_resolver,
            self.key.as_ref(),
            new_id(),
            NOW,
        )?;
        self.configs.push(row);
        Ok(answer)
    }

    fn get_push(&self, caller: &CallerCtx, task: &str, id: &str) -> Result<PushConfig, A2aError> {
        let owned = self.owned(caller, task).is_some();
        let row = read_id(id)
            .and_then(|id| push::get_push_config(&self.configs, id))
            .map(|i| copy_config(&self.configs[i]));
        get_push_config(false, task, id, owned, row, self.key.as_ref())
    }

    fn list_push(&self, caller: &CallerCtx, task: &str) -> Result<Vec<PushConfig>, A2aError> {
        let owned = self.owned(caller, task).is_some();
        let rows = match read_id(task) {
            Some(id) => push::list_push_configs_for_task(&self.configs, id)
                .into_iter()
                .map(|i| copy_config(&self.configs[i]))
                .collect(),
            None => Vec::new(),
        };
        list_push_configs(false, task, owned, &rows, self.key.as_ref())
    }

    fn delete_push(&mut self, caller: &CallerCtx, task: &str, id: &str) -> Result<(), A2aError> {
        let owned = self.owned(caller, task).is_some();
        let deleted = match (owned, read_id(task), read_id(id)) {
            (true, Some(task), Some(id)) => push::delete_push_config(&mut self.configs, id, task),
            _ => false,
        };
        delete_push_config(false, task, id, owned, deleted)
    }

    fn config_count(&self, task: &str) -> usize {
        let id = read_id(task).unwrap();
        self.configs.iter().filter(|c| c.a2a_task_id == id).count()
    }

    fn submit(&mut self, caller: &CallerCtx, pr: i64) -> (String, u128) {
        let data = format!(r#"{{ "repo": "acme/api", "pr": {pr}, "headSha": "abc" }}"#);
        let task = self.send_message(caller, review_req(&data)).unwrap();
        let underlying = underlying_of(&task).expect("underlying id");
        (task.id, underlying)
    }
}

fn no_resolver(_host: &str) -> Result<Vec<IpAddr>, ResolveError> {
    panic!("a literal address takes no resolution");
}

fn underlying_of(task: &Task) -> Option<u128> {
    meta_str(&task.metadata, LB_UNDERLYING).and_then(|s| read_id(&s))
}

fn push_config(task_id: &str, url: &str, token: Option<&str>) -> PushConfig {
    PushConfig {
        url: url.to_string(),
        id: None,
        task_id: task_id.to_string(),
        token: token.map(str::to_string),
        authentication: None,
        tenant: None,
    }
}

#[test]
fn submit_creates_a_deep_task_and_returns_submitted() {
    let mut w = World::with_api(10);
    let task = w
        .send_message(
            &params("svc-a", &["a2a:review"]),
            review_req(
                r#"{ "repo": "acme/api", "pr": 42, "prompt": "focus on auth", "headSha": "deadbeef" }"#,
            ),
        )
        .unwrap();
    assert_eq!(task.state, TaskState::Submitted);
    // The client view never leaks the caller id.
    assert!(task.metadata.as_ref().map(|m| m.get(LB_CALLER).is_none()).unwrap_or(true));

    // A real deep-tier task row exists behind it.
    let underlying = underlying_of(&task).expect("underlying task id");
    let at = runs_table::get_task(&w.runs, underlying).unwrap();
    let row = task_row(&w.runs[at], None);
    assert_eq!(row.target_id, 42);
    assert_eq!(row.command_text, "focus on auth");
    assert_eq!(row.status.as_str(), "queued");
}

#[test]
fn text_instruction_becomes_command_text_over_data_prompt() {
    let mut w = World::with_api(10);
    let task = w
        .send_message(
            &params("svc-a", &["a2a:review"]),
            review_req_with_text(
                "Focus on the auth changes.",
                r#"{ "repo": "acme/api", "pr": 42, "prompt": "ignored hint", "headSha": "deadbeef" }"#,
            ),
        )
        .unwrap();
    assert_eq!(task.state, TaskState::Submitted);
    let underlying = underlying_of(&task).expect("underlying task id");
    let at = runs_table::get_task(&w.runs, underlying).unwrap();
    // The text wins over `data.prompt`; the target is still PR 42 from the data part.
    assert_eq!(w.runs[at].command_text, "Focus on the auth changes.");
    assert_eq!(w.runs[at].target_id, 42);
}

#[test]
fn text_only_message_is_invalid_params_with_guidance() {
    let mut w = World::new(10);
    let err = w
        .send_message(
            &params("svc-a", &["a2a:review"]),
            SubmitRequest {
                tenant: None,
                context_id: None,
                parts: vec![Part::text("review PR 128, focus on auth".to_string())],
            },
        )
        .expect_err("text-only must be an error, not a task");
    assert_eq!(err.kind, ErrorKind::InvalidParams);
    let msg = err.message;
    for field in ["repo", "pr", "headSha"] {
        assert!(msg.contains(field), "guided error names `{field}`: {msg}");
    }
}

#[test]
fn missing_permission_is_rejected() {
    let mut w = World::with_api(10);
    let task = w
        .send_message(
            &params("svc-a", &["some:other"]),
            review_req(r#"{ "repo": "acme/api", "pr": 1 }"#),
        )
        .unwrap();
    assert_eq!(task.state, TaskState::Rejected);
    // A rejection creates no underlying run.
    assert!(underlying_of(&task).is_none());
    // …and GetTask on it returns the terminal REJECTED (persisted, caller-scoped).
    let got = w.get_task(&params("svc-a", &["a2a:review"]), &task.id).unwrap();
    assert_eq!(got.state, TaskState::Rejected);
}

#[test]
fn quota_breach_is_rejected() {
    let mut w = World::with_api(2); // max 2 per window
    let ok = params("svc-a", &["a2a:review"]);
    for pr in 1..=2 {
        let data = format!(r#"{{ "repo": "acme/api", "pr": {pr}, "headSha": "abc" }}"#);
        let t = w.send_message(&ok, review_req(&data)).unwrap();
        assert_eq!(t.state, TaskState::Submitted, "submission {pr}");
    }
    // The third breaches the per-identity quota.
    let third = w
        .send_message(&ok, review_req(r#"{ "repo": "acme/api", "pr": 3, "headSha": "abc" }"#))
        .unwrap();
    assert_eq!(third.state, TaskState::Rejected);
    // A different caller is unaffected (quota is per-identity).
    let other = w
        .send_message(
            &params("svc-b", &["a2a:review"]),
            review_req(r#"{ "repo": "acme/api", "pr": 4, "headSha": "abc" }"#),
        )
        .unwrap();
    assert_eq!(other.state, TaskState::Submitted);
}

#[test]
fn rejections_do_not_consume_quota() {
    let mut w = World::with_api(1); // a single deep-run slot per window
    let ok = params("svc-a", &["a2a:review"]);

    // Two submissions to an unknown repo → both REJECTED, both persist rejection rows.
    for pr in 1..=2 {
        let data = format!(r#"{{ "repo": "ghost/repo", "pr": {pr} }}"#);
        let rejected = w.send_message(&ok, review_req(&data)).unwrap();
        assert_eq!(rejected.state, TaskState::Rejected, "reject {pr}");
    }

    // Despite max=1 and two prior rejection rows, a legitimate approved submission still lands.
    let submitted = w
        .send_message(&ok, review_req(r#"{ "repo": "acme/api", "pr": 42, "headSha": "abc" }"#))
        .unwrap();
    assert_eq!(submitted.state, TaskState::Submitted);
}

#[test]
fn unapproved_and_unknown_repos_are_rejected() {
    let mut w = World::new(10);
    // A connected-but-pending repo.
    let id = upsert_repository(
        &mut w.repos,
        Platform::GitHub,
        9999,
        "acme",
        "pending",
        "main",
        Some(1),
        1,
    );
    let at = find_by_id(&w.repos, id).unwrap();
    assert_eq!(repository_status(Some(&w.repos[at])).unwrap().as_str(), "pending");
    let ok = params("svc-a", &["a2a:review"]);

    let pending =
        w.send_message(&ok, review_req(r#"{ "repo": "acme/pending", "pr": 1 }"#)).unwrap();
    assert_eq!(pending.state, TaskState::Rejected);

    // A repo that was never connected at all.
    let unknown = w.send_message(&ok, review_req(r#"{ "repo": "ghost/repo", "pr": 1 }"#)).unwrap();
    assert_eq!(unknown.state, TaskState::Rejected);
    // No run was created.
    assert_eq!(w.runs.len(), 0);
}

#[test]
fn missing_head_sha_is_rejected_and_creates_no_run() {
    let mut w = World::with_api(10);
    let ok = params("svc-a", &["a2a:review"]);
    // Approved repo, authorized caller, valid PR — the only thing missing is a head SHA.
    let task = w
        .send_message(
            &ok,
            review_req(r#"{ "repo": "acme/api", "pr": 42, "prompt": "focus on auth" }"#),
        )
        .unwrap();
    assert_eq!(task.state, TaskState::Rejected);
    assert!(underlying_of(&task).is_none());
    assert_eq!(w.runs.len(), 0, "a null-head review must not create a run");

    // A base SHA alone does not satisfy the requirement — a head is still required.
    let base_only = w
        .send_message(&ok, review_req(r#"{ "repo": "acme/api", "pr": 42, "baseSha": "def456" }"#))
        .unwrap();
    assert_eq!(base_only.state, TaskState::Rejected);
}

#[test]
fn approved_repo_without_installation_is_rejected() {
    let mut w = World::new(10);
    // Approved but not fully provisioned: no installation id.
    w.seed_approved_repo("acme", "noinstall", None);
    let task = w
        .send_message(
            &params("svc-a", &["a2a:review"]),
            review_req(r#"{ "repo": "acme/noinstall", "pr": 1, "headSha": "abc" }"#),
        )
        .unwrap();
    assert_eq!(task.state, TaskState::Rejected);
    assert!(underlying_of(&task).is_none());
    assert_eq!(w.runs.len(), 0, "an unprovisioned repo must not create a run");
}

fn webhook_run(repository_id: i64, pr: i64, head: &str, command: &str) -> NewTask {
    NewTask {
        repository_id,
        installation_id: 111,
        webhook_delivery_id: "wh-1".to_string(),
        target_type: "pull_request".to_string(),
        target_id: pr,
        command_text: command.to_string(),
        base_sha: None,
        head_sha: Some(head.to_string()),
        run_epoch: 0,
        preset: "deep".to_string(),
        entry_point: "pr_open".to_string(),
        trigger_comment_id: None,
        trace_context: None,
        model_override: None,
        check_runs_enabled: false,
        run_after_secs: None,
    }
}

#[test]
fn dedups_against_a_webhook_triggered_review() {
    let mut w = World::new(10);
    let repo_id = w.seed_approved_repo("acme", "api", Some(111));
    // A webhook-triggered deep review of PR 42 @ head "abc" already exists (same idempotency
    // tuple the A2A path will produce for the default prompt).
    let webhook_task = create_task(
        &mut w.runs,
        &webhook_run(repo_id, 42, "abc", "Deep review requested via A2A."),
        new_id(),
        NOW,
    )
    .expect("webhook task created")
    .id;

    // The A2A submission of the same head dedups onto the existing run (no fork of idempotency).
    let task = w
        .send_message(
            &params("svc-a", &["a2a:review"]),
            review_req(r#"{ "repo": "acme/api", "pr": 42, "headSha": "abc" }"#),
        )
        .unwrap();
    assert_eq!(task.state, TaskState::Submitted);
    assert_eq!(
        underlying_of(&task),
        Some(webhook_task),
        "A2A review must map onto the webhook-triggered run, not create a second one"
    );
    let count = w.runs.iter().filter(|t| t.target_id == 42).count();
    assert_eq!(count, 1, "exactly one underlying run for the PR head");
}

#[test]
fn get_task_maps_live_state_and_returns_artifacts_on_completion() {
    let mut w = World::with_api(10);
    let caller = params("svc-a", &["a2a:review"]);
    let (a2a_id, underlying) = w.submit(&caller, 7);

    // queued → SUBMITTED
    assert_eq!(w.get_task(&caller, &a2a_id).unwrap().state, TaskState::Submitted);

    // running → WORKING
    w.set_status(underlying, "running");
    assert_eq!(w.get_task(&caller, &a2a_id).unwrap().state, TaskState::Working);

    // succeeded + a review row → COMPLETED with summary + findings + context artifacts
    w.set_status(underlying, "succeeded");
    let findings = json(r#"[{ "path": "auth.rs", "severity": "P1" }]"#);
    w.add_review(underlying, "Found an issue", 1, copy_json(&findings));
    let done = w.get_task(&caller, &a2a_id).unwrap();
    assert_eq!(done.state, TaskState::Completed);
    let arts = done.artifacts.expect("artifacts on completion");
    assert_eq!(arts.len(), 1);
    assert_eq!(arts[0].parts.len(), 3);
    assert_eq!(arts[0].parts[0].as_text(), Some("Found an issue"));
    match &arts[0].parts[1].content {
        PartContent::Data(v) => assert_eq!(v, &findings),
        other => panic!("expected findings data part, got {other:?}"),
    }
    // The context part echoes the effective SHAs (headSha "abc", no base → whole-tree scope),
    // the repo, and the PR — the caller can confirm exactly what was reviewed.
    match &arts[0].parts[2].content {
        PartContent::Data(v) => {
            assert_eq!(field(v, "repo"), &json("\"acme/api\""));
            assert_eq!(field(v, "pr"), &json("7"));
            assert_eq!(field(v, "headSha"), &json("\"abc\""));
            assert_eq!(field(v, "baseSha"), &json("null"));
            assert_eq!(field(v, "scope"), &json("\"whole-tree\""));
        }
        other => panic!("expected context data part, got {other:?}"),
    }
}

#[test]
fn completed_review_with_base_echoes_diff_scoped_context() {
    let mut w = World::with_api(10);
    let caller = params("svc-a", &["a2a:review"]);
    let submitted = w
        .send_message(
            &caller,
            review_req(
                r#"{ "repo": "acme/api", "pr": 9, "headSha": "head9", "baseSha": "base9" }"#,
            ),
        )
        .unwrap();
    let underlying = underlying_of(&submitted).unwrap();
    w.set_status(underlying, "succeeded");
    w.add_review(underlying, "ok", 0, json("[]"));
    let done = w.get_task(&caller, &submitted.id).unwrap();
    let arts = done.artifacts.expect("artifacts on completion");
    match &arts[0].parts[2].content {
        PartContent::Data(v) => {
            assert_eq!(field(v, "baseSha"), &json("\"base9\""));
            assert_eq!(field(v, "headSha"), &json("\"head9\""));
            assert_eq!(field(v, "scope"), &json("\"diff\""));
        }
        other => panic!("expected context data part, got {other:?}"),
    }
}

#[test]
fn get_task_unknown_or_foreign_id_is_task_not_found() {
    let mut w = World::with_api(10);
    let (mine, _) = w.submit(&params("svc-a", &["a2a:review"]), 1);

    // A client-supplied unknown id → TaskNotFound.
    let unknown = w.get_task(&params("svc-a", &["a2a:review"]), &id_text(new_id()));
    assert_eq!(unknown.unwrap_err().kind, ErrorKind::TaskNotFound);
    let malformed = w.get_task(&params("svc-a", &["a2a:review"]), "not-a-uuid");
    assert_eq!(malformed.unwrap_err().kind, ErrorKind::TaskNotFound);

    // Another caller cannot read my task (no existence leak → TaskNotFound, not Forbidden).
    let foreign = w.get_task(&params("svc-b", &["a2a:review"]), &mine);
    assert_eq!(foreign.unwrap_err().kind, ErrorKind::TaskNotFound);
}

#[test]
fn cancel_sets_underlying_and_rejects_terminal() {
    let mut w = World::with_api(10);
    let caller = params("svc-a", &["a2a:review"]);
    let (id, underlying) = w.submit(&caller, 5);

    let canceled = w.cancel_task(&caller, &id).unwrap();
    assert_eq!(canceled.state, TaskState::Canceled);
    // The underlying task was actually cancelled.
    let at = runs_table::get_task(&w.runs, underlying).unwrap();
    assert_eq!(w.runs[at].status.as_str(), "cancelled");
    let events = w.event_rows(&id);
    assert_eq!(events.len(), 1);
    assert!(events[0].is_final);

    // Cancelling an already-terminal task is not cancelable.
    let again = w.cancel_task(&caller, &id);
    assert_eq!(again.unwrap_err().kind, ErrorKind::TaskNotCancelable);
}

#[test]
fn tenant_and_unsupported_surface_are_refused() {
    let mut w = World::new(10);
    let caller = params("svc-a", &["a2a:review"]);

    // A tenant-carrying request is unsupported.
    let mut req = review_req(r#"{ "repo": "acme/api", "pr": 1 }"#);
    req.tenant = Some("t1".to_string());
    assert_eq!(w.send_message(&caller, req).unwrap_err().kind, ErrorKind::UnsupportedOperation);

    // A non-review skill is unsupported (not a REJECTED task — it's a malformed call).
    assert_eq!(
        w.send_message(
            &caller,
            review_req(r#"{ "skill": "ask", "repo": "acme/api", "pr": 1 }"#)
        )
        .unwrap_err()
        .kind,
        ErrorKind::UnsupportedOperation
    );

    // A malformed body → INVALID_PARAMS.
    assert_eq!(
        w.send_message(&caller, review_req(r#"{ "pr": 1 }"#)).unwrap_err().kind,
        ErrorKind::InvalidParams
    );

    // Listing and the extended card are not offered.
    assert_eq!(list_tasks().kind, ErrorKind::UnsupportedOperation);
    assert!(get_extended_agent_card().code() != 0);
    assert_eq!(db_error().kind, ErrorKind::Internal);
}

/// When the run's row is deleted, the column of the mapping is nulled while the stored task still
/// names the dead run. The read re-derives the name from the column, so writing the task back names
/// no dead run.
#[test]
fn get_update_is_fk_safe_after_underlying_task_deleted() {
    let mut w = World::with_api(10);
    let (id, underlying) = w.submit(&params("svc-a", &["a2a:review"]), 7);
    w.runs.retain(|t| t.id != underlying);
    w.rows[0].underlying_task_id = None;

    let mut got = get(copy_row(w.row(&id).unwrap()));
    assert!(
        underlying_of(&got).is_none(),
        "stale lb.underlyingTaskId must be stripped after the underlying row is deleted"
    );
    got.state = TaskState::Working;
    let u = prepare_update(got).unwrap();
    assert_eq!(u.underlying_task_id, None);
    let mut slot = Some(w.rows.remove(0));
    assert_eq!(update(&mut slot, u).unwrap(), 2);
    assert_eq!(slot.unwrap().underlying_task_id, None);
}

#[test]
fn transitions_append_gapfree_events_and_non_a2a_appends_none() {
    let mut w = World::new(10);
    let repo = w.seed_approved_repo("acme", "api", Some(111));
    let (a2a_id, underlying) = w.submit(&params("svc-a", &["a2a:review"]), 7);

    // Submission alone appends nothing — the initial state is carried by the Task snapshot.
    assert!(w.event_rows(&a2a_id).is_empty());

    // Each transition through set_task_status appends exactly one status-update.
    w.set_status(underlying, "running");
    w.set_status(underlying, "succeeded");

    let rows = w.event_rows(&a2a_id);
    let seqs: Vec<i64> = rows.iter().map(|e| e.seq).collect();
    assert_eq!(seqs, vec![1, 2], "seq is gap-free and monotonic from 1");
    assert_eq!(rows[0].state(), Some("TASK_STATE_WORKING"));
    assert_eq!(rows[0].kind(), "status-update");
    assert!(!rows[0].is_final, "WORKING is not terminal");
    assert_eq!(rows[1].state(), Some("TASK_STATE_COMPLETED"));
    assert!(rows[1].is_final, "COMPLETED is the terminal event (final=true)");

    // A non-A2A task (no front) appends no events.
    let plain = create_task(&mut w.runs, &webhook_run(repo, 999, "zzz", "plain"), new_id(), NOW)
        .unwrap()
        .id;
    w.set_status(plain, "running");
    w.set_status(plain, "succeeded");
    assert_eq!(w.events.len(), 2, "only the A2A-fronted task produced events");

    // Nothing follows a final event.
    w.set_status(underlying, "failed");
    assert_eq!(w.events.len(), 2);
}

#[test]
fn terminal_task_replays_in_order_and_closes() {
    let mut w = World::with_api(10);
    let caller = params("svc-a", &["a2a:review"]);
    let (a2a_id, underlying) = w.submit(&caller, 7);

    w.set_status(underlying, "running");
    // Persist the review BEFORE succeeded so the artifact rides the stream.
    w.add_review(underlying, "Found it", 1, json(r#"[{ "path": "auth.rs", "severity": "P1" }]"#));
    w.set_status(underlying, "succeeded");

    let events = w.subscribe(&caller, &a2a_id, &mut |_| panic!("no tailing")).unwrap();
    // Task snapshot, then WORKING, then the artifact-update, then the terminal COMPLETED — closed.
    assert_eq!(
        events,
        vec![
            Seen::Snapshot(TaskState::Completed),
            Seen::Status(TaskState::Working),
            Seen::Artifact("Found it".to_string()),
            Seen::Status(TaskState::Completed),
        ]
    );
}

#[test]
fn two_subscribers_see_identical_ordered_sequences() {
    let mut w = World::with_api(10);
    let caller = params("svc-a", &["a2a:review"]);
    let (a2a_id, underlying) = w.submit(&caller, 7);
    w.set_status(underlying, "running");
    w.set_status(underlying, "succeeded");

    let e1 = w.subscribe(&caller, &a2a_id, &mut |_| {}).unwrap();
    let e2 = w.subscribe(&caller, &a2a_id, &mut |_| {}).unwrap();
    assert_eq!(e1, e2, "concurrent subscribers converge on one order");
    assert_eq!(
        e1,
        vec![
            Seen::Snapshot(TaskState::Completed),
            Seen::Status(TaskState::Working),
            Seen::Status(TaskState::Completed),
        ]
    );
}

#[test]
fn streaming_and_polling_agree_on_transitions() {
    let mut w = World::with_api(10);
    let caller = params("svc-a", &["a2a:review"]);
    let (a2a_id, underlying) = w.submit(&caller, 7);

    // Poll after each transition; collect the states a poller observes.
    let mut polled = Vec::new();
    for status in ["running", "succeeded"] {
        w.set_status(underlying, status);
        polled.push(w.get_task(&caller, &a2a_id).unwrap().state);
    }
    assert_eq!(polled, vec![TaskState::Working, TaskState::Completed]);

    // Every polled transition has a matching status-update event in the log.
    let logged: Vec<TaskState> = w
        .event_rows(&a2a_id)
        .iter()
        .filter(|e| e.kind() == "status-update")
        .map(|e| control_plane::a2a::model::state_from_wire(e.state().unwrap()))
        .collect();
    assert_eq!(logged, polled, "the event log carries exactly the transitions a poller sees");
}

#[test]
fn foreign_or_unknown_subscription_is_task_not_found() {
    let mut w = World::with_api(10);
    let (a2a_id, _) = w.submit(&params("svc-a", &["a2a:review"]), 7);
    let foreign = w.subscribe(&params("svc-b", &["a2a:review"]), &a2a_id, &mut |_| {});
    assert_eq!(foreign.unwrap_err().kind, ErrorKind::TaskNotFound);
    let unknown =
        w.subscribe(&params("svc-a", &["a2a:review"]), &id_text(new_id()), &mut |_| {});
    assert_eq!(unknown.unwrap_err().kind, ErrorKind::TaskNotFound);
}

#[test]
fn rejected_streaming_submission_closes_on_one_terminal_event() {
    let mut w = World::with_api(10);
    // Missing the a2a:review permission → REJECTED, but still streamable by its owner.
    let caller = params("svc-a", &["some:other"]);
    let task =
        w.send_message(&caller, review_req(r#"{ "repo": "acme/api", "pr": 1 }"#)).unwrap();
    let events = w.subscribe(&caller, &task.id, &mut |_| {}).unwrap();
    // Snapshot (REJECTED) + the single terminal status-update, then close.
    assert_eq!(
        events,
        vec![Seen::Snapshot(TaskState::Rejected), Seen::Status(TaskState::Rejected)]
    );
}

#[test]
fn subscribe_then_tail_delivers_a_live_transition() {
    let mut w = World::with_api(10);
    let caller = params("svc-a", &["a2a:review"]);
    let (a2a_id, underlying) = w.submit(&caller, 7);
    // Move to running (WORKING, non-terminal) BEFORE subscribing.
    w.set_status(underlying, "running");

    // The terminal transition comes while the subscription is tailing.
    let events = w
        .subscribe(&caller, &a2a_id, &mut |w: &mut World| w.set_status(underlying, "succeeded"))
        .unwrap();
    // Snapshot(WORKING), replayed WORKING, then the tailed COMPLETED — closed on final.
    assert_eq!(
        events,
        vec![
            Seen::Snapshot(TaskState::Working),
            Seen::Status(TaskState::Working),
            Seen::Status(TaskState::Completed),
        ]
    );
}

#[test]
fn create_push_config_stores_and_returns_with_id() {
    let mut w = World::with_api(10);
    let caller = params("svc-a", &["a2a:review"]);
    let (a2a_id, _) = w.submit(&caller, 7);

    let created = w.create_push(&caller, push_config(&a2a_id, OK_WEBHOOK, Some("s3cr3t"))).unwrap();
    let config_id = created.id.clone().expect("server-assigned config id");
    assert!(read_id(&config_id).is_some(), "config id is a uuid");
    assert_eq!(created.url, OK_WEBHOOK);
    assert_eq!(created.task_id, a2a_id);

    // The stored row exists with the expected defaults + caller ownership + ENCRYPTED token.
    let at = push::get_push_config(&w.configs, read_id(&config_id).unwrap()).expect("row persisted");
    let row = &w.configs[at];
    assert_eq!(id_text(row.a2a_task_id), a2a_id);
    assert_eq!(row.url, OK_WEBHOOK);
    assert_eq!(row.state, PushState::Active);
    assert_eq!(row.delivered_seq, 0);
    assert_eq!(row.attempts, 0);
    assert_eq!(row.created_by, "svc-a");
    // The stored bytes are ciphertext, NOT the plaintext token, yet decrypt with the role key
    // recovers it exactly.
    let stored = row.token_enc.as_deref().expect("token stored");
    assert_ne!(stored, b"s3cr3t".as_ref(), "token must be stored encrypted, not plaintext");
    assert!(
        !stored.windows(6).any(|w| w == b"s3cr3t"),
        "the plaintext token must not appear anywhere in the stored bytes"
    );
    assert!(
        stored.len() > "s3cr3t".len() + 12 + 16 - 1,
        "ciphertext carries the 12-byte nonce + 16-byte tag"
    );
    assert_eq!(
        decrypt(stored, &test_key()).as_deref(),
        Some("s3cr3t"),
        "decrypt with the role key recovers the original token"
    );
}

#[test]
fn create_then_get_round_trips_the_token() {
    let mut w = World::with_api(10);
    let caller = params("svc-a", &["a2a:review"]);
    let (a2a_id, _) = w.submit(&caller, 7);

    let token = "bearer-abc-123!@#";
    let cfg_id =
        w.create_push(&caller, push_config(&a2a_id, OK_WEBHOOK, Some(token))).unwrap().id.unwrap();
    let got = w.get_push(&caller, &a2a_id, &cfg_id).unwrap();
    assert_eq!(got.token.as_deref(), Some(token), "get decrypts and echoes the original token");
}

#[test]
fn create_with_token_but_no_key_fails_closed_and_stores_nothing() {
    let mut w = World::with_api(10);
    w.key = None;
    let caller = params("svc-a", &["a2a:review"]);
    let (a2a_id, _) = w.submit(&caller, 7);

    // A tokened create with no key → rejected, nothing stored.
    let err = w
        .create_push(&caller, push_config(&a2a_id, OK_WEBHOOK, Some("s3cr3t")))
        .expect_err("a tokened create must fail closed when no key is configured");
    assert_eq!(err.kind, ErrorKind::InvalidParams);
    assert_eq!(w.config_count(&a2a_id), 0);

    // A tokenless create still works fine with no key (encryption only matters for a secret).
    let created = w
        .create_push(&caller, push_config(&a2a_id, OK_WEBHOOK, None))
        .expect("a tokenless config needs no key");
    assert!(created.id.is_some());
    assert_eq!(created.token, None);
    assert_eq!(w.config_count(&a2a_id), 1);
}

#[test]
fn create_push_config_rejects_ssrf_urls_and_stores_nothing() {
    let mut w = World::with_api(10);
    let caller = params("svc-a", &["a2a:review"]);
    let (a2a_id, _) = w.submit(&caller, 7);

    for bad in [
        "http://93.184.216.34/webhook",        // plaintext scheme
        "https://169.254.169.254/latest/meta", // cloud metadata IP
        "https://10.0.0.1/webhook",            // RFC 1918 private
    ] {
        let err = w
            .create_push(&caller, push_config(&a2a_id, bad, None))
            .expect_err("SSRF URL must be rejected");
        assert_eq!(err.kind, ErrorKind::InvalidParams, "{bad} should be invalid_params");
    }
    assert_eq!(w.config_count(&a2a_id), 0, "a rejected webhook URL must store no config row");
}

#[test]
fn a_registration_resolves_only_a_name_that_passed_every_check() {
    let id = id_text(new_id());
    let limits = HandlerLimits::default();
    let asked: std::cell::RefCell<Vec<String>> = std::cell::RefCell::new(Vec::new());
    let resolve = |host: &str| {
        asked.borrow_mut().push(host.to_string());
        Ok(vec![IpAddr::v4(93, 184, 216, 34)])
    };
    let key = test_key();
    let register = |url: &str, owned: bool, active: i64| {
        answer_push_config(
            "svc-a",
            push_config(&id, url, Some("s3cr3t")),
            owned,
            active,
            &limits,
            &SsrfPolicy::default(),
            resolve,
            Some(&key),
            7,
            NOW,
        )
    };
    let url = "https://hooks.example.com/a2a";
    assert_eq!(register(url, false, 0).unwrap_err().kind, ErrorKind::TaskNotFound);
    assert!(register(url, true, limits.push_config_cap).is_err());
    assert!(register("http://hooks.example.com/a2a", true, 0).is_err());
    assert!(register("https://hooks.example.com:8443/a2a", true, 0).is_err());
    assert!(register("not a url", true, 0).is_err());
    assert!(register(OK_WEBHOOK, true, 0).is_ok());
    assert!(asked.borrow().is_empty(), "no name had to be resolved");

    let (row, answer) = register(url, true, 0).unwrap();
    assert_eq!(*asked.borrow(), vec!["hooks.example.com".to_string()]);
    assert_eq!(decrypt(row.token_enc.as_deref().unwrap(), &key).as_deref(), Some("s3cr3t"));
    assert_eq!((answer.url.as_str(), answer.token.as_deref()), (url, Some("s3cr3t")));
}

#[test]
fn multiple_configs_list_get_and_delete() {
    let mut w = World::with_api(10);
    let caller = params("svc-a", &["a2a:review"]);
    let (a2a_id, _) = w.submit(&caller, 7);

    let c1 =
        w.create_push(&caller, push_config(&a2a_id, OK_WEBHOOK, Some("t1"))).unwrap().id.unwrap();
    let c2 = w
        .create_push(&caller, push_config(&a2a_id, "https://93.184.216.34/second", None))
        .unwrap()
        .id
        .unwrap();
    assert_ne!(c1, c2, "each config gets its own id");

    // list returns both.
    let mut ids: Vec<String> =
        w.list_push(&caller, &a2a_id).unwrap().into_iter().map(|c| c.id.unwrap()).collect();
    ids.sort();
    let mut want = vec![c1.clone(), c2.clone()];
    want.sort();
    assert_eq!(ids, want);

    // get returns c1 with its stored token echoed back.
    let got = w.get_push(&caller, &a2a_id, &c1).unwrap();
    assert_eq!(got.id.as_deref(), Some(c1.as_str()));
    assert_eq!(got.url, OK_WEBHOOK);
    assert_eq!(got.token.as_deref(), Some("t1"));

    // delete c1, then a get on it is TaskNotFound and list has only c2 left.
    w.delete_push(&caller, &a2a_id, &c1).unwrap();
    let after = w.get_push(&caller, &a2a_id, &c1);
    assert_eq!(
        after.unwrap_err().kind,
        ErrorKind::TaskNotFound,
        "a deleted config reads as TaskNotFound"
    );
    let remaining = w.list_push(&caller, &a2a_id).unwrap();
    assert_eq!(remaining.len(), 1);
    assert_eq!(remaining[0].id.as_deref(), Some(c2.as_str()));
}

#[test]
fn push_config_crud_is_caller_scoped() {
    let mut w = World::with_api(10);
    let alice = params("svc-a", &["a2a:review"]);
    let bob = params("svc-b", &["a2a:review"]);
    let (a2a_id, _) = w.submit(&alice, 7);

    // Alice registers a config; Bob cannot see or touch it.
    let cfg_id =
        w.create_push(&alice, push_config(&a2a_id, OK_WEBHOOK, None)).unwrap().id.unwrap();

    // Bob create on Alice's task → TaskNotFound (and stores nothing).
    let bob_create = w.create_push(&bob, push_config(&a2a_id, OK_WEBHOOK, None));
    assert_eq!(bob_create.unwrap_err().kind, ErrorKind::TaskNotFound);
    assert_eq!(w.config_count(&a2a_id), 1, "Bob's foreign create must not add a row");

    // Bob get / list / delete on Alice's task → all TaskNotFound.
    assert_eq!(w.get_push(&bob, &a2a_id, &cfg_id).unwrap_err().kind, ErrorKind::TaskNotFound);
    assert_eq!(w.list_push(&bob, &a2a_id).unwrap_err().kind, ErrorKind::TaskNotFound);
    assert_eq!(w.delete_push(&bob, &a2a_id, &cfg_id).unwrap_err().kind, ErrorKind::TaskNotFound);
    // Alice's config survived Bob's delete attempt.
    assert_eq!(w.config_count(&a2a_id), 1);
}

#[test]
fn push_config_unknown_task_and_cross_task_config_are_not_found() {
    let mut w = World::with_api(10);
    let caller = params("svc-a", &["a2a:review"]);
    let (task_a, _) = w.submit(&caller, 7);
    let (task_b, _) = w.submit(&caller, 8);

    // Unknown task id → TaskNotFound on create.
    let unknown = id_text(new_id());
    assert_eq!(
        w.create_push(&caller, push_config(&unknown, OK_WEBHOOK, None)).unwrap_err().kind,
        ErrorKind::TaskNotFound
    );

    // A config registered on task_b is not reachable via task_a (same caller, different task).
    let cfg_on_b =
        w.create_push(&caller, push_config(&task_b, OK_WEBHOOK, None)).unwrap().id.unwrap();
    assert_eq!(
        w.get_push(&caller, &task_a, &cfg_on_b).unwrap_err().kind,
        ErrorKind::TaskNotFound,
        "a config id from another task must not resolve under task_a"
    );
    assert_eq!(
        w.delete_push(&caller, &task_a, &cfg_on_b).unwrap_err().kind,
        ErrorKind::TaskNotFound
    );
    // The cross-task delete attempt did not remove the real config on task_b.
    assert_eq!(w.config_count(&task_b), 1);
}

#[test]
fn push_config_per_caller_cap_is_enforced() {
    let mut w = World::with_api(10);
    // Cap = 2 active configs per caller per task.
    w.limits = HandlerLimits { push_config_cap: 2, ..HandlerLimits::default() };
    let caller = params("svc-a", &["a2a:review"]);
    let (task_a, _) = w.submit(&caller, 7);
    let (task_b, _) = w.submit(&caller, 8);

    // Two configs on task_a fill the cap.
    let c1 = w.create_push(&caller, push_config(&task_a, OK_WEBHOOK, None)).unwrap().id.unwrap();
    w.create_push(&caller, push_config(&task_a, OK_WEBHOOK, None)).unwrap();

    // The 3rd is rejected and stores nothing (still exactly 2 rows on task_a).
    let over = w.create_push(&caller, push_config(&task_a, OK_WEBHOOK, None));
    assert_eq!(
        over.unwrap_err().kind,
        ErrorKind::InvalidParams,
        "the N+1th config on a task is rejected"
    );
    assert_eq!(w.config_count(&task_a), 2, "the over-cap create stored no row");

    // The cap is per-task: task_b has its own independent budget.
    w.create_push(&caller, push_config(&task_b, OK_WEBHOOK, None))
        .expect("a different task has its own cap");
    assert_eq!(w.config_count(&task_b), 1);

    // Deleting a config on task_a frees a slot (only ACTIVE configs count) → a new create lands.
    w.delete_push(&caller, &task_a, &c1).unwrap();
    w.create_push(&caller, push_config(&task_a, OK_WEBHOOK, None))
        .expect("a freed slot admits a new config");
    assert_eq!(w.config_count(&task_a), 2);
}

/// The per-caller stream counter: increments on acquire, rejects beyond the cap, and decrements
/// (frees a slot) when a stream ends.
#[test]
fn stream_counter_increments_rejects_and_decrements_on_drop() {
    let mut counters = StreamCounters::new();
    let cap = 2;

    assert!(counters.try_acquire("alice", cap), "1st slot");
    assert!(counters.try_acquire("alice", cap), "2nd slot");
    assert_eq!(counters.count("alice"), 2);

    // A 3rd for the same caller is rejected — nothing changes.
    assert!(!counters.try_acquire("alice", cap), "beyond the cap is rejected");
    assert_eq!(counters.count("alice"), 2);

    // A different caller has its own budget.
    assert!(counters.try_acquire("bob", cap), "bob's own slot");
    assert_eq!(counters.count("bob"), 1);

    // Releasing a slot frees it (the on-close/disconnect release) → a re-acquire succeeds.
    counters.release("alice");
    assert_eq!(counters.count("alice"), 1);
    assert!(counters.try_acquire("alice", cap), "a freed slot re-acquires");
    assert_eq!(counters.count("alice"), 2);

    // Releasing the last slot for a caller removes the entry (no idle-caller accumulation).
    counters.release("bob");
    assert_eq!(counters.count("bob"), 0);

    counters.release("alice");
    counters.release("alice");
    assert_eq!(counters.count("alice"), 0);
}

#[test]
fn per_caller_stream_cap_refuses_second_and_frees_on_drop() {
    let mut w = World::with_api(10);
    w.limits = HandlerLimits { max_streams_per_caller: 1, ..HandlerLimits::default() };
    let caller = params("svc-a", &["a2a:review"]);
    let (a2a_id, underlying) = w.submit(&caller, 7);
    w.set_status(underlying, "running");

    // While the first stream tails, a second one for the same caller is refused.
    let mut second = None;
    w.subscribe(&caller, &a2a_id, &mut |w: &mut World| {
        let err = w
            .subscribe(&params("svc-a", &["a2a:review"]), &a2a_id, &mut |_| {})
            .expect_err("second subscription is refused");
        second = Some(err);
        w.set_status(underlying, "succeeded");
    })
    .expect("first subscription acquires the slot");
    let err = second.unwrap();
    assert_eq!(err.kind, ErrorKind::Internal);
    assert!(
        err.message.contains("capacity"),
        "the clean capacity error is returned, got: {}",
        err.message
    );

    // The first stream released its slot, so a fresh subscription now succeeds.
    w.subscribe(&caller, &a2a_id, &mut |_| {}).expect("a freed slot admits a new subscription");
}

#[test]
fn a_stream_without_a_listener_ends_with_an_error() {
    let (mut stream, request) = start_stream(false);
    assert_eq!(request, Request::Fetch(0));
    let step = stream.next(Answer::Events(Vec::new()));
    assert_eq!(step.request, Request::Listen);
    let step = stream.next(Answer::NoListener);
    assert_eq!(step.failure, Some(Failure::Capacity));
    assert_eq!(step.request, Request::Close);
    assert!(Failure::Capacity.error().message.contains("capacity"));
    let (mut stream, _) = start_stream(false);
    let step = stream.next(Answer::FetchFailed);
    assert_eq!(step.failure, Some(Failure::Internal));
    assert_eq!(step.request, Request::Close);
}

#[test]
fn a_look_that_failed_ends_no_stream() {
    assert!(is_live_terminal(&LiveRun::NoRun));
    assert!(is_live_terminal(&LiveRun::Gone));
    assert!(!is_live_terminal(&LiveRun::Failed));
    assert!(is_live_terminal(&LiveRun::Status("failed".to_string())));
    assert!(!is_live_terminal(&LiveRun::Status("queued".to_string())));
}

#[test]
fn a_task_has_a_channel_of_its_own() {
    let id = 0x67e5_5044_10b1_426f_9247_bb68_0e5f_e0c8;
    assert_eq!(
        task_channel(id),
        format!("a2a_task_events:{}", "67e55044-10b1-426f-9247-bb680e5fe0c8")
    );
}

#[test]
fn the_error_codes_are_the_protocols() {
    let code = |kind: ErrorKind| A2aError::new(kind, "").code();
    assert_eq!(code(ErrorKind::InvalidParams), a2a::error_code::INVALID_PARAMS);
    assert_eq!(code(ErrorKind::InvalidRequest), a2a::error_code::INVALID_REQUEST);
    assert_eq!(code(ErrorKind::Internal), a2a::error_code::INTERNAL_ERROR);
    assert_eq!(code(ErrorKind::TaskNotFound), a2a::error_code::TASK_NOT_FOUND);
    assert_eq!(code(ErrorKind::TaskNotCancelable), a2a::error_code::TASK_NOT_CANCELABLE);
    assert_eq!(code(ErrorKind::UnsupportedOperation), a2a::error_code::UNSUPPORTED_OPERATION);
}

#[test]
fn an_unknown_status_is_in_progress() {
    assert_eq!(task_state_from_status("reindexing"), TaskState::Working);
}

#[test]
fn a_repository_is_found_whatever_the_case() {
    let w = World::with_api(10);
    let found = find_repository(&w.repos, Platform::GitHub, "ACME", "Api").unwrap();
    assert_eq!(found.installation_id, Some(111));
    assert_eq!(found.status, "approved");
    assert!(find_repository(&w.repos, Platform::GitLab, "acme", "api").is_none());
    assert!(find_repository(&w.repos, Platform::GitHub, "acme", "apis").is_none());
}
