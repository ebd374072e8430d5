//! Runs and their lifecycle.

use vstd::prelude::*;

use crate::a2a::events::{
    append_transition_events, transition_events, Appended, EventBody, Front,
};
use crate::a2a::mapping::state_of_status;
use crate::db::clock::SECOND;
use crate::db::repositories::RepositoryRecord;
use crate::db::search::{fits, holds, matches_query, read_query, sought, Piece};
use crate::order;
use crate::order::{arranges, is_first, Key};
use crate::platform::Platform;
use crate::text;
use crate::text::{decimal, lowercase_of, opt_str_view, opt_view};

verus! {

/// The priority of a new run.
pub const DEFAULT_PRIORITY: i32 = 100;

/// The channel on which the dispatcher is woken for a queued run.
pub const TASK_QUEUED_CHANNEL: &'static str = "task_queued";

/// What a new run is created from.
#[derive(Debug)]
pub struct NewTask {
    pub repository_id: i64,
    pub installation_id: i64,
    pub webhook_delivery_id: String,
    pub target_type: String,
    pub target_id: i64,
    pub command_text: String,
    pub base_sha: Option<String>,
    pub head_sha: Option<String>,
    /// Tells re-runs of one target apart; an automatic first review has epoch zero.
    pub run_epoch: i32,
    /// The review preset the run uses.
    pub preset: String,
    /// Which entry point asked for the run.
    pub entry_point: String,
    /// The comment that asked for the run.
    pub trigger_comment_id: Option<i64>,
    pub trace_context: Option<String>,
    pub model_override: Option<String>,
    /// Whether the run reports a check, settled when the run is created.
    pub check_runs_enabled: bool,
    /// Seconds before the run may be claimed.
    pub run_after_secs: Option<u64>,
}

/// The mathematical value of a [`NewTask`].
pub struct NewTaskView {
    pub repository_id: i64,
    pub installation_id: i64,
    pub webhook_delivery_id: Seq<char>,
    pub target_type: Seq<char>,
    pub target_id: i64,
    pub command_text: Seq<char>,
    pub base_sha: Option<Seq<char>>,
    pub head_sha: Option<Seq<char>>,
    pub run_epoch: i32,
    pub preset: Seq<char>,
    pub entry_point: Seq<char>,
    pub trigger_comment_id: Option<i64>,
    pub trace_context: Option<Seq<char>>,
    pub model_override: Option<Seq<char>>,
    pub check_runs_enabled: bool,
    pub run_after_secs: Option<u64>,
}

impl View for NewTask {
    type V = NewTaskView;

    open spec fn view(&self) -> NewTaskView {
        NewTaskView {
            repository_id: self.repository_id,
            installation_id: self.installation_id,
            webhook_delivery_id: self.webhook_delivery_id@,
            target_type: self.target_type@,
            target_id: self.target_id,
            command_text: self.command_text@,
            base_sha: opt_view(self.base_sha),
            head_sha: opt_view(self.head_sha),
            run_epoch: self.run_epoch,
            preset: self.preset@,
            entry_point: self.entry_point@,
            trigger_comment_id: self.trigger_comment_id,
            trace_context: opt_view(self.trace_context),
            model_override: opt_view(self.model_override),
            check_runs_enabled: self.check_runs_enabled,
            run_after_secs: self.run_after_secs,
        }
    }
}

/// Whether a status is one that the runner may report.
pub open spec fn reportable(status: Seq<char>) -> bool {
    ||| status == "running"@
    ||| status == "posting_result"@
    ||| status == "succeeded"@
    ||| status == "failed"@
    ||| status == "timed_out"@
    ||| status == "cancelled"@
}

/// Whether a status is one that the runner may report.
pub fn is_runner_reportable_status(status: &str) -> (r: bool)
    ensures
        r == reportable(status@),
{
    text::same(status, "running") || text::same(status, "posting_result") || text::same(
        status,
        "succeeded",
    ) || text::same(status, "failed") || text::same(status, "timed_out") || text::same(
        status,
        "cancelled",
    )
}

/// The statuses a run goes through.
#[derive(Clone, Copy, Debug, PartialEq, Eq, Structural)]
pub enum RunStatus {
    Received,
    /// Held back until the repository's index is written.
    WaitingForIndex,
    Queued,
    Running,
    PostingResult,
    Succeeded,
    Failed,
    TimedOut,
    Cancelled,
}

/// The name a status is stored under.
pub open spec fn status_name(s: RunStatus) -> Seq<char> {
    match s {
        RunStatus::Received => "received"@,
        RunStatus::WaitingForIndex => "waiting_for_index"@,
        RunStatus::Queued => "queued"@,
        RunStatus::Running => "running"@,
        RunStatus::PostingResult => "posting_result"@,
        RunStatus::Succeeded => "succeeded"@,
        RunStatus::Failed => "failed"@,
        RunStatus::TimedOut => "timed_out"@,
        RunStatus::Cancelled => "cancelled"@,
    }
}

/// The status stored under a name, if there is one.
pub open spec fn status_of(name: Seq<char>) -> Option<RunStatus> {
    if name == "received"@ {
        Some(RunStatus::Received)
    } else if name == "waiting_for_index"@ {
        Some(RunStatus::WaitingForIndex)
    } else if name == "queued"@ {
        Some(RunStatus::Queued)
    } else if name == "running"@ {
        Some(RunStatus::Running)
    } else if name == "posting_result"@ {
        Some(RunStatus::PostingResult)
    } else if name == "succeeded"@ {
        Some(RunStatus::Succeeded)
    } else if name == "failed"@ {
        Some(RunStatus::Failed)
    } else if name == "timed_out"@ {
        Some(RunStatus::TimedOut)
    } else if name == "cancelled"@ {
        Some(RunStatus::Cancelled)
    } else {
        None
    }
}

/// Whether a run is over.
pub open spec fn is_over(s: RunStatus) -> bool {
    s == RunStatus::Succeeded || s == RunStatus::Failed || s == RunStatus::TimedOut || s
        == RunStatus::Cancelled
}

/// Whether a run is being worked on, under a lease.
pub open spec fn is_leased(s: RunStatus) -> bool {
    s == RunStatus::Running || s == RunStatus::PostingResult
}

/// Whether a run is queued or being worked on.
pub open spec fn is_active(s: RunStatus) -> bool {
    s == RunStatus::Queued || is_leased(s)
}

impl RunStatus {
    /// The name the status is stored under.
    pub fn as_str(&self) -> (r: &'static str)
        ensures
            r@ == status_name(*self),
    {
        match self {
            RunStatus::Received => "received",
            RunStatus::WaitingForIndex => "waiting_for_index",
            RunStatus::Queued => "queued",
            RunStatus::Running => "running",
            RunStatus::PostingResult => "posting_result",
            RunStatus::Succeeded => "succeeded",
            RunStatus::Failed => "failed",
            RunStatus::TimedOut => "timed_out",
            RunStatus::Cancelled => "cancelled",
        }
    }

    /// The status stored under a name, if there is one.
    pub fn from_name(name: &str) -> (r: Option<RunStatus>)
        ensures
            r == status_of(name@),
    {
        if text::same(name, "received") {
            Some(RunStatus::Received)
        } else if text::same(name, "waiting_for_index") {
            Some(RunStatus::WaitingForIndex)
        } else if text::same(name, "queued") {
            Some(RunStatus::Queued)
        } else if text::same(name, "running") {
            Some(RunStatus::Running)
        } else if text::same(name, "posting_result") {
            Some(RunStatus::PostingResult)
        } else if text::same(name, "succeeded") {
            Some(RunStatus::Succeeded)
        } else if text::same(name, "failed") {
            Some(RunStatus::Failed)
        } else if text::same(name, "timed_out") {
            Some(RunStatus::TimedOut)
        } else if text::same(name, "cancelled") {
            Some(RunStatus::Cancelled)
        } else {
            None
        }
    }

    /// Whether the run is over.
    pub fn over(&self) -> (r: bool)
        ensures
            r == is_over(*self),
    {
        match self {
            RunStatus::Succeeded | RunStatus::Failed | RunStatus::TimedOut
            | RunStatus::Cancelled => true,
            _ => false,
        }
    }

    /// Whether the run is being worked on.
    pub fn leased(&self) -> (r: bool)
        ensures
            r == is_leased(*self),
    {
        match self {
            RunStatus::Running | RunStatus::PostingResult => true,
            _ => false,
        }
    }

    /// Whether the run is queued or being worked on.
    pub fn active(&self) -> (r: bool)
        ensures
            r == is_active(*self),
    {
        match self {
            RunStatus::Queued | RunStatus::Running | RunStatus::PostingResult => true,
            _ => false,
        }
    }
}

/// A status is read back under the name it is stored under.
pub proof fn law_status_survives_its_name(s: RunStatus)
    ensures
        status_of(status_name(s)) == Some(s),
{
    reveal_strlit("received");
    reveal_strlit("waiting_for_index");
    reveal_strlit("queued");
    reveal_strlit("running");
    reveal_strlit("posting_result");
    reveal_strlit("succeeded");
    reveal_strlit("failed");
    reveal_strlit("timed_out");
    reveal_strlit("cancelled");
    assert("received"@[0] == 'r' && "received"@[1] == 'e');
    assert("running"@[0] == 'r' && "running"@[1] == 'u');
    assert("waiting_for_index"@[0] == 'w');
    assert("queued"@[0] == 'q');
    assert("posting_result"@[0] == 'p');
    assert("succeeded"@[0] == 's');
    assert("failed"@[0] == 'f');
    assert("timed_out"@[0] == 't');
    assert("cancelled"@[0] == 'c');
}

/// A run as it is stored.
#[derive(Debug)]
pub struct TaskRecord {
    pub id: u128,
    pub repository_id: i64,
    pub installation_id: i64,
    pub webhook_delivery_id: Option<String>,
    pub target_type: String,
    pub target_id: i64,
    pub command_text: String,
    /// What the run turned out to be: a review, an answer, or both.
    pub kind: String,
    pub base_sha: Option<String>,
    pub head_sha: Option<String>,
    pub run_epoch: i32,
    pub preset: String,
    pub entry_point: String,
    pub trigger_comment_id: Option<i64>,
    pub trace_context: Option<String>,
    pub model_override: Option<String>,
    pub check_runs_enabled: bool,
    pub status: RunStatus,
    pub priority: i32,
    pub attempts: i32,
    pub created_at: i64,
    /// When the run may first be claimed.
    pub run_after: i128,
    pub started_at: Option<i64>,
    pub completed_at: Option<i64>,
    pub lease_owner: Option<String>,
    pub lease_expires_at: Option<i128>,
    pub job_name: Option<String>,
    /// Why the run posted nothing.
    pub error_detail: Option<String>,
    pub check_run_external_id: Option<i64>,
}

/// The mathematical value of a [`TaskRecord`].
#[verifier::ext_equal]
pub struct TaskView {
    pub id: u128,
    pub repository_id: i64,
    pub installation_id: i64,
    pub webhook_delivery_id: Option<Seq<char>>,
    pub target_type: Seq<char>,
    pub target_id: i64,
    pub command_text: Seq<char>,
    pub kind: Seq<char>,
    pub base_sha: Option<Seq<char>>,
    pub head_sha: Option<Seq<char>>,
    pub run_epoch: i32,
    pub preset: Seq<char>,
    pub entry_point: Seq<char>,
    pub trigger_comment_id: Option<i64>,
    pub trace_context: Option<Seq<char>>,
    pub model_override: Option<Seq<char>>,
    pub check_runs_enabled: bool,
    pub status: RunStatus,
    pub priority: i32,
    pub attempts: i32,
    pub created_at: i64,
    pub run_after: i128,
    pub started_at: Option<i64>,
    pub completed_at: Option<i64>,
    pub lease_owner: Option<Seq<char>>,
    pub lease_expires_at: Option<i128>,
    pub job_name: Option<Seq<char>>,
    pub error_detail: Option<Seq<char>>,
    pub check_run_external_id: Option<i64>,
}

impl View for TaskRecord {
    type V = TaskView;

    open spec fn view(&self) -> TaskView {
        TaskView {
            id: self.id,
            repository_id: self.repository_id,
            installation_id: self.installation_id,
            webhook_delivery_id: opt_view(self.webhook_delivery_id),
            target_type: self.target_type@,
            target_id: self.target_id,
            command_text: self.command_text@,
            kind: self.kind@,
            base_sha: opt_view(self.base_sha),
            head_sha: opt_view(self.head_sha),
            run_epoch: self.run_epoch,
            preset: self.preset@,
            entry_point: self.entry_point@,
            trigger_comment_id: self.trigger_comment_id,
            trace_context: opt_view(self.trace_context),
            model_override: opt_view(self.model_override),
            check_runs_enabled: self.check_runs_enabled,
            status: self.status,
            priority: self.priority,
            attempts: self.attempts,
            created_at: self.created_at,
            run_after: self.run_after,
            started_at: self.started_at,
            completed_at: self.completed_at,
            lease_owner: opt_view(self.lease_owner),
            lease_expires_at: self.lease_expires_at,
            job_name: opt_view(self.job_name),
            error_detail: opt_view(self.error_detail),
            check_run_external_id: self.check_run_external_id,
        }
    }
}

/// The values of a table of runs.
pub open spec fn runs(rows: Seq<TaskRecord>) -> Seq<TaskView> {
    Seq::new(rows.len(), |i: int| rows[i]@)
}

/// Whether a run is an index run of a repository that is not over yet.
pub open spec fn indexes(t: TaskView, repository_id: i64) -> bool {
    &&& t.repository_id == repository_id
    &&& t.command_text == "index"@
    &&& is_active(t.status) || t.status == RunStatus::WaitingForIndex
}

/// Whether a repository's index is being written.
pub open spec fn index_in_flight(table: Seq<TaskView>, repository_id: i64) -> bool {
    exists|i: int| 0 <= i < table.len() && indexes(#[trigger] table[i], repository_id)
}

/// The status a new run starts in: held back while the repository's index is being written, unless it
/// is itself an index run.
pub open spec fn first_status(
    table: Seq<TaskView>,
    repository_id: i64,
    command: Seq<char>,
) -> RunStatus {
    if command != "index"@ && index_in_flight(table, repository_id) {
        RunStatus::WaitingForIndex
    } else {
        RunStatus::Queued
    }
}

fn initial_status(tasks: &Vec<TaskRecord>, repository_id: i64, command: &str) -> (r: RunStatus)
    ensures
        r == first_status(runs(tasks@), repository_id, command@),
{
    let ghost table = runs(tasks@);
    if text::same(command, "index") {
        return RunStatus::Queued;
    }
    let mut i: usize = 0;
    while i < tasks.len()
        invariant
            i <= tasks@.len(),
            table == runs(tasks@),
            forall|j: int| 0 <= j < i ==> !indexes(#[trigger] table[j], repository_id),
            command@ != "index"@,
        decreases tasks@.len() - i,
    {
        let t = &tasks[i];
        let pending: bool = t.status.active() || t.status == RunStatus::WaitingForIndex;
        assert(table[i as int] == t@);
        if t.repository_id == repository_id && pending && text::same(
            t.command_text.as_str(),
            "index",
        ) {
            assert(indexes(table[i as int], repository_id));
            return RunStatus::WaitingForIndex;
        }
        i = i + 1;
    }
    RunStatus::Queued
}

/// Whether a run is of the same target, command and head.
pub open spec fn same_request(
    t: TaskView,
    repository_id: i64,
    target_type: Seq<char>,
    target_id: i64,
    command: Seq<char>,
    head_sha: Option<Seq<char>>,
) -> bool {
    &&& t.repository_id == repository_id
    &&& t.target_type == target_type
    &&& t.target_id == target_id
    &&& t.command_text == command
    &&& t.head_sha == head_sha
}

fn is_same_request(
    t: &TaskRecord,
    repository_id: i64,
    target_type: &str,
    target_id: i64,
    command: &str,
    head_sha: &Option<String>,
) -> (r: bool)
    ensures
        r == same_request(
            t@,
            repository_id,
            target_type@,
            target_id,
            command@,
            opt_view(*head_sha),
        ),
{
    t.repository_id == repository_id && t.target_id == target_id && text::same(
        t.target_type.as_str(),
        target_type,
    ) && text::same(t.command_text.as_str(), command) && text::same_opt(&t.head_sha, head_sha)
}

/// Whether a run is the one a new run would repeat: the same request, in the same epoch.
pub open spec fn repeats(t: TaskView, new: NewTaskView) -> bool {
    t.run_epoch == new.run_epoch && same_request(
        t,
        new.repository_id,
        new.target_type,
        new.target_id,
        new.command_text,
        new.head_sha,
    )
}

/// Whether a table holds the run that a new one would repeat.
pub open spec fn holds_repeat(table: Seq<TaskView>, new: NewTaskView) -> bool {
    exists|i: int| 0 <= i < table.len() && repeats(#[trigger] table[i], new)
}

/// No run of a table has the request and epoch of another.
pub open spec fn requests_differ(table: Seq<TaskView>) -> bool {
    forall|i: int, j: int|
        0 <= i < j < table.len() ==> !((#[trigger] table[i]).run_epoch == (#[trigger] table[j]).run_epoch
            && same_request(
            table[i],
            table[j].repository_id,
            table[j].target_type,
            table[j].target_id,
            table[j].command_text,
            table[j].head_sha,
        ))
}

/// The run a request becomes, in an epoch.
pub open spec fn new_run(
    table: Seq<TaskView>,
    new: NewTaskView,
    id: u128,
    epoch: i32,
    run_after: i128,
    now: i64,
) -> TaskView {
    TaskView {
        id,
        repository_id: new.repository_id,
        installation_id: new.installation_id,
        webhook_delivery_id: Some(new.webhook_delivery_id),
        target_type: new.target_type,
        target_id: new.target_id,
        command_text: new.command_text,
        kind: "review"@,
        base_sha: new.base_sha,
        head_sha: new.head_sha,
        run_epoch: epoch,
        preset: new.preset,
        entry_point: new.entry_point,
        trigger_comment_id: new.trigger_comment_id,
        trace_context: new.trace_context,
        model_override: new.model_override,
        check_runs_enabled: new.check_runs_enabled,
        status: first_status(table, new.repository_id, new.command_text),
        priority: DEFAULT_PRIORITY,
        attempts: 0,
        created_at: now,
        run_after,
        started_at: None,
        completed_at: None,
        lease_owner: None,
        lease_expires_at: None,
        job_name: None,
        error_detail: None,
        check_run_external_id: None,
    }
}

fn build_run(
    tasks: &Vec<TaskRecord>,
    task: &NewTask,
    id: u128,
    epoch: i32,
    run_after: i128,
    now: i64,
) -> (r: TaskRecord)
    ensures
        r@ == new_run(runs(tasks@), task@, id, epoch, run_after, now),
{
    TaskRecord {
        id,
        repository_id: task.repository_id,
        installation_id: task.installation_id,
        webhook_delivery_id: Some(task.webhook_delivery_id.clone()),
        target_type: task.target_type.clone(),
        target_id: task.target_id,
        command_text: task.command_text.clone(),
        kind: "review".to_owned(),
        base_sha: text::copy_opt(&task.base_sha),
        head_sha: text::copy_opt(&task.head_sha),
        run_epoch: epoch,
        preset: task.preset.clone(),
        entry_point: task.entry_point.clone(),
        trigger_comment_id: task.trigger_comment_id,
        trace_context: text::copy_opt(&task.trace_context),
        model_override: text::copy_opt(&task.model_override),
        check_runs_enabled: task.check_runs_enabled,
        status: initial_status(tasks, task.repository_id, task.command_text.as_str()),
        priority: DEFAULT_PRIORITY,
        attempts: 0,
        created_at: now,
        run_after,
        started_at: None,
        completed_at: None,
        lease_owner: None,
        lease_expires_at: None,
        job_name: None,
        error_detail: None,
        check_run_external_id: None,
    }
}

/// The seconds a new run is held back, as stored.
pub open spec fn delay_of(new: NewTaskView) -> i64 {
    match new.run_after_secs {
        Some(secs) => secs as i64,
        None => 0,
    }
}

/// Whether a dispatcher is woken for a new run: not for one that is held back for the index, and not
/// for one whose delay has still to pass.
pub open spec fn wakes(status: RunStatus, delayed: bool) -> bool {
    status == RunStatus::Queued && !delayed
}

/// A run that was created.
#[derive(Clone, Copy, Debug, PartialEq, Eq, Structural)]
pub struct CreatedTask {
    pub id: u128,
    /// Whether to wake a dispatcher.
    pub wake: bool,
}

/// Creates a run for a request, unless there is one of the same request and epoch already.
pub fn create_task(tasks: &mut Vec<TaskRecord>, task: &NewTask, id: u128, now: i64) -> (r: Option<
    CreatedTask,
>)
    ensures
        ({
            let before = runs(old(tasks)@);
            let run = new_run(
                before,
                task@,
                id,
                task.run_epoch,
                (now + delay_of(task@) * SECOND) as i128,
                now,
            );
            if holds_repeat(before, task@) {
                r is None && runs(final(tasks)@) == before
            } else {
                &&& runs(final(tasks)@) == before.push(run)
                &&& r == Some(
                    CreatedTask {
                        id,
                        wake: wakes(
                            run.status,
                            task.run_after_secs is Some && task.run_after_secs->0 > 0,
                        ),
                    },
                )
            }
        }),
{
    let ghost before = runs(tasks@);
    let mut i: usize = 0;
    while i < tasks.len()
        invariant
            i <= tasks@.len(),
            before == runs(tasks@),
            forall|j: int| 0 <= j < i ==> !repeats(#[trigger] before[j], task@),
        decreases tasks@.len() - i,
    {
        let t = &tasks[i];
        assert(before[i as int] == t@);
        if t.run_epoch == task.run_epoch && is_same_request(
            t,
            task.repository_id,
            task.target_type.as_str(),
            task.target_id,
            task.command_text.as_str(),
            &task.head_sha,
        ) {
            assert(repeats(before[i as int], task@));
            return None;
        }
        i = i + 1;
    }
    let delay: i64 = match task.run_after_secs {
        Some(secs) => secs as i64,
        None => 0,
    };
    let delayed: bool = match task.run_after_secs {
        Some(secs) => secs > 0,
        None => false,
    };
    let run_after: i128 = now as i128 + delay as i128 * SECOND;
    let run: TaskRecord = build_run(tasks, task, id, task.run_epoch, run_after, now);
    let wake: bool = run.status == RunStatus::Queued && !delayed;
    let ghost run_view = run@;
    tasks.push(run);
    assert(runs(tasks@) =~= before.push(run_view));
    Some(CreatedTask { id, wake })
}

/// Whether `e` is the epoch after the last one of a request.
pub open spec fn is_next_epoch(
    table: Seq<TaskView>,
    repository_id: i64,
    target_type: Seq<char>,
    target_id: i64,
    command: Seq<char>,
    head_sha: Option<Seq<char>>,
    e: int,
) -> bool {
    let of_request = |t: TaskView|
        same_request(t, repository_id, target_type, target_id, command, head_sha);
    if exists|i: int| 0 <= i < table.len() && of_request(#[trigger] table[i]) {
        &&& exists|i: int|
            0 <= i < table.len() && of_request(#[trigger] table[i]) && table[i].run_epoch == e - 1
        &&& forall|i: int|
            0 <= i < table.len() && of_request(#[trigger] table[i]) ==> table[i].run_epoch < e
    } else {
        e == 0
    }
}

fn next_epoch(
    tasks: &Vec<TaskRecord>,
    repository_id: i64,
    target_type: &str,
    target_id: i64,
    command: &str,
    head_sha: &Option<String>,
) -> (r: i32)
    requires
        forall|i: int|
            0 <= i < tasks@.len() && same_request(
                (#[trigger] tasks@[i])@,
                repository_id,
                target_type@,
                target_id,
                command@,
                opt_view(*head_sha),
            ) ==> tasks@[i].run_epoch < i32::MAX,
    ensures
        is_next_epoch(
            runs(tasks@),
            repository_id,
            target_type@,
            target_id,
            command@,
            opt_view(*head_sha),
            r as int,
        ),
{
    let ghost table = runs(tasks@);
    let ghost of_request = |t: TaskView|
        same_request(t, repository_id, target_type@, target_id, command@, opt_view(*head_sha));
    let mut last: Option<usize> = None;
    let mut i: usize = 0;
    while i < tasks.len()
        invariant
            i <= tasks@.len(),
            table == runs(tasks@),
            of_request == (|t: TaskView|
                same_request(
                    t,
                    repository_id,
                    target_type@,
                    target_id,
                    command@,
                    opt_view(*head_sha),
                )),
            match last {
                Some(k) => k < i && of_request(table[k as int]) && forall|j: int|
                    0 <= j < i && of_request(#[trigger] table[j]) ==> table[j].run_epoch
                        <= table[k as int].run_epoch,
                None => forall|j: int| 0 <= j < i ==> !of_request(#[trigger] table[j]),
            },
        decreases tasks@.len() - i,
    {
        let t = &tasks[i];
        assert(table[i as int] == t@);
        if is_same_request(t, repository_id, target_type, target_id, command, head_sha) {
            match last {
                Some(k) => {
                    assert(table[k as int] == tasks@[k as int]@);
                    if t.run_epoch > tasks[k].run_epoch {
                        last = Some(i);
                    }
                },
                None => {
                    last = Some(i);
                },
            }
        }
        i = i + 1;
    }
    match last {
        Some(k) => {
            assert(of_request(table[k as int]));
            assert(table[k as int] == tasks@[k as int]@);
            tasks[k].run_epoch + 1
        },
        None => 0,
    }
}

/// The most tries at landing an explicit request.
pub const MAX_EXPLICIT_ATTEMPTS: u32 = 5;

/// Whether an explicit request is tried again: it lost the race for its epoch, and tries are left.
pub fn retry_explicit(attempt: u32, lost_race: bool) -> (r: bool)
    ensures
        r == (lost_race && attempt < MAX_EXPLICIT_ATTEMPTS),
{
    lost_race && attempt < MAX_EXPLICIT_ATTEMPTS
}

/// Creates a run for an explicit request. One always lands: a repeated request gets the next epoch.
pub fn create_explicit_task(tasks: &mut Vec<TaskRecord>, task: &NewTask, id: u128, now: i64) -> (r:
    CreatedTask)
    requires
        forall|i: int|
            0 <= i < old(tasks)@.len() && same_request(
                (#[trigger] old(tasks)@[i])@,
                task.repository_id,
                task.target_type@,
                task.target_id,
                task.command_text@,
                opt_view(task.head_sha),
            ) ==> old(tasks)@[i].run_epoch < i32::MAX,
    ensures
        ({
            let before = runs(old(tasks)@);
            &&& runs(final(tasks)@).len() == before.len() + 1
            &&& is_next_epoch(
                before,
                task.repository_id,
                task.target_type@,
                task.target_id,
                task.command_text@,
                opt_view(task.head_sha),
                runs(final(tasks)@).last().run_epoch as int,
            )
            &&& runs(final(tasks)@) == before.push(
                new_run(
                    before,
                    task@,
                    id,
                    runs(final(tasks)@).last().run_epoch,
                    now as i128,
                    now,
                ),
            )
            &&& r == CreatedTask {
                id,
                wake: first_status(before, task.repository_id, task.command_text@)
                    == RunStatus::Queued,
            }
        }),
{
    let ghost before = runs(tasks@);
    let epoch: i32 = next_epoch(
        tasks,
        task.repository_id,
        task.target_type.as_str(),
        task.target_id,
        task.command_text.as_str(),
        &task.head_sha,
    );
    let run: TaskRecord = build_run(tasks, task, id, epoch, now as i128, now);
    let wake: bool = run.status == RunStatus::Queued;
    let ghost run_view = run@;
    tasks.push(run);
    assert(runs(tasks@) =~= before.push(run_view));
    CreatedTask { id, wake }
}

/// A fresh epoch is one that no run of the request has, so that an explicit request never repeats an
/// earlier one and is never dropped for one.
pub proof fn law_next_epoch_is_fresh(table: Seq<TaskView>, new: NewTaskView, e: i32)
    requires
        is_next_epoch(
            table,
            new.repository_id,
            new.target_type,
            new.target_id,
            new.command_text,
            new.head_sha,
            e as int,
        ),
    ensures
        !holds_repeat(table, (NewTaskView { run_epoch: e, ..new })),
{
    let again = NewTaskView { run_epoch: e, ..new };
    assert forall|i: int| 0 <= i < table.len() implies !repeats(#[trigger] table[i], again) by {
        let of_request = |t: TaskView|
            same_request(
                t,
                new.repository_id,
                new.target_type,
                new.target_id,
                new.command_text,
                new.head_sha,
            );
        if of_request(table[i]) {
            assert(table[i].run_epoch < e);
        }
    }
}

/// Creating a run keeps requests apart, and asking for the same run twice leaves one.
pub proof fn law_creation_is_idempotent(
    table: Seq<TaskView>,
    new: NewTaskView,
    id: u128,
    run_after: i128,
    now: i64,
)
    requires
        requests_differ(table),
        !holds_repeat(table, new),
    ensures
        requests_differ(table.push(new_run(table, new, id, new.run_epoch, run_after, now))),
        holds_repeat(table.push(new_run(table, new, id, new.run_epoch, run_after, now)), new),
{
    let run = new_run(table, new, id, new.run_epoch, run_after, now);
    let after = table.push(run);
    assert(repeats(after[table.len() as int], new));
    assert forall|i: int, j: int| 0 <= i < j < after.len() implies !((
    #[trigger] after[i]).run_epoch == (#[trigger] after[j]).run_epoch && same_request(
        after[i],
        after[j].repository_id,
        after[j].target_type,
        after[j].target_id,
        after[j].command_text,
        after[j].head_sha,
    )) by {
        assert(after[i] == table[i]);
        if j == table.len() {
            assert(!repeats(table[i], new));
        } else {
            assert(after[j] == table[j]);
        }
    }
}

/// The index run of a repository, in an epoch.
pub open spec fn index_run(
    id: u128,
    repository_id: i64,
    installation_id: i64,
    epoch: i32,
    now: i64,
) -> TaskView {
    TaskView {
        id,
        repository_id,
        installation_id,
        webhook_delivery_id: None,
        target_type: "repository"@,
        target_id: repository_id,
        command_text: "index"@,
        kind: "review"@,
        base_sha: None,
        head_sha: None,
        run_epoch: epoch,
        preset: "deep"@,
        entry_point: "mention"@,
        trigger_comment_id: None,
        trace_context: None,
        model_override: None,
        check_runs_enabled: false,
        status: RunStatus::Queued,
        priority: DEFAULT_PRIORITY,
        attempts: 0,
        created_at: now,
        run_after: now as i128,
        started_at: None,
        completed_at: None,
        lease_owner: None,
        lease_expires_at: None,
        job_name: None,
        error_detail: None,
        check_run_external_id: None,
    }
}

/// Whether a run is an index run of a repository that is queued or being worked on.
pub open spec fn is_active_index(t: TaskView, repository_id: i64) -> bool {
    t.repository_id == repository_id && t.command_text == "index"@ && is_active(t.status)
}

/// Creates an index run of a repository, unless one is queued or being worked on. A repository can be
/// indexed again and again: each run gets the next epoch.
pub fn create_index_task(
    tasks: &mut Vec<TaskRecord>,
    repository_id: i64,
    installation_id: i64,
    id: u128,
    now: i64,
) -> (r: Option<u128>)
    requires
        forall|i: int|
            0 <= i < old(tasks)@.len() && same_request(
                (#[trigger] old(tasks)@[i])@,
                repository_id,
                "repository"@,
                repository_id,
                "index"@,
                None,
            ) ==> old(tasks)@[i].run_epoch < i32::MAX,
    ensures
        ({
            let before = runs(old(tasks)@);
            let busy = exists|i: int|
                0 <= i < before.len() && is_active_index(#[trigger] before[i], repository_id);
            if busy {
                r is None && runs(final(tasks)@) == before
            } else {
                &&& r == Some(id)
                &&& runs(final(tasks)@).len() == before.len() + 1
                &&& is_next_epoch(
                    before,
                    repository_id,
                    "repository"@,
                    repository_id,
                    "index"@,
                    None,
                    runs(final(tasks)@).last().run_epoch as int,
                )
                &&& runs(final(tasks)@) == before.push(
                    index_run(
                        id,
                        repository_id,
                        installation_id,
                        runs(final(tasks)@).last().run_epoch,
                        now,
                    ),
                )
            }
        }),
{
    let ghost before = runs(tasks@);
    let mut i: usize = 0;
    while i < tasks.len()
        invariant
            i <= tasks@.len(),
            before == runs(tasks@),
            forall|j: int| 0 <= j < i ==> !is_active_index(#[trigger] before[j], repository_id),
        decreases tasks@.len() - i,
    {
        let t = &tasks[i];
        assert(before[i as int] == t@);
        if t.repository_id == repository_id && t.status.active() && text::same(
            t.command_text.as_str(),
            "index",
        ) {
            assert(is_active_index(before[i as int], repository_id));
            return None;
        }
        i = i + 1;
    }
    let no_head: Option<String> = None;
    let epoch: i32 = next_epoch(
        tasks,
        repository_id,
        "repository",
        repository_id,
        "index",
        &no_head,
    );
    let run = TaskRecord {
        id,
        repository_id,
        installation_id,
        webhook_delivery_id: None,
        target_type: "repository".to_owned(),
        target_id: repository_id,
        command_text: "index".to_owned(),
        kind: "review".to_owned(),
        base_sha: None,
        head_sha: None,
        run_epoch: epoch,
        preset: "deep".to_owned(),
        entry_point: "mention".to_owned(),
        trigger_comment_id: None,
        trace_context: None,
        model_override: None,
        check_runs_enabled: false,
        status: RunStatus::Queued,
        priority: DEFAULT_PRIORITY,
        attempts: 0,
        created_at: now,
        run_after: now as i128,
        started_at: None,
        completed_at: None,
        lease_owner: None,
        lease_expires_at: None,
        job_name: None,
        error_detail: None,
        check_run_external_id: None,
    };
    let ghost run_view = run@;
    tasks.push(run);
    assert(runs(tasks@) =~= before.push(run_view));
    Some(id)
}

/// The latest run that a new one would repeat.
pub open spec fn latest_first(table: Seq<TaskView>) -> Seq<Key> {
    Seq::new(
        table.len(),
        |i: int|
            Key {
                major: (-table[i].created_at) as i128,
                minor: 0,
                id: (u128::MAX - table[i].id) as u128,
            },
    )
}

/// Which runs a new one would repeat.
pub open spec fn repeated(table: Seq<TaskView>, new: NewTaskView) -> Seq<bool> {
    Seq::new(table.len(), |i: int| repeats(table[i], new))
}

/// The place of the run that a new one would repeat; of several, the latest.
pub fn find_task_id_by_idempotency(tasks: &Vec<TaskRecord>, task: &NewTask) -> (r: Option<usize>)
    ensures
        match r {
            Some(i) => is_first(
                i as int,
                repeated(runs(tasks@), task@),
                latest_first(runs(tasks@)),
            ),
            None => !holds_repeat(runs(tasks@), task@),
        },
{
    let ghost table = runs(tasks@);
    let mut selected: Vec<bool> = Vec::new();
    let mut keys: Vec<Key> = Vec::new();
    let mut i: usize = 0;
    while i < tasks.len()
        invariant
            i <= tasks@.len(),
            table == runs(tasks@),
            selected@ =~= repeated(table, task@).take(i as int),
            keys@ =~= latest_first(table).take(i as int),
        decreases tasks@.len() - i,
    {
        let t = &tasks[i];
        selected.push(
            t.run_epoch == task.run_epoch && is_same_request(
                t,
                task.repository_id,
                task.target_type.as_str(),
                task.target_id,
                task.command_text.as_str(),
                &task.head_sha,
            ),
        );
        keys.push(
            Key { major: -(t.created_at as i128), minor: 0, id: u128::MAX - t.id },
        );
        i = i + 1;
    }
    assert(selected@ =~= repeated(table, task@));
    assert(keys@ =~= latest_first(table));
    let found: Option<usize> = order::first(&selected, &keys);
    proof {
        if found is None {
            assert forall|j: int| 0 <= j < table.len() implies !repeats(
                #[trigger] table[j],
                task@,
            ) by {
                assert(!selected@[j]);
            }
        }
    }
    found
}

/// A table with the selected runs changed.
pub open spec fn changed(
    table: Seq<TaskView>,
    selected: Seq<bool>,
    change: spec_fn(TaskView) -> TaskView,
) -> Seq<TaskView> {
    Seq::new(
        table.len(),
        |i: int|
            if selected[i] {
                change(table[i])
            } else {
                table[i]
            },
    )
}

/// The ids of the selected runs, in the order of the table.
pub open spec fn selected_ids(table: Seq<TaskView>, selected: Seq<bool>) -> Seq<u128>
    decreases table.len(),
{
    if table.len() == 0 {
        Seq::empty()
    } else {
        let init = selected_ids(table.drop_last(), selected.drop_last());
        if selected.last() {
            init.push(table.last().id)
        } else {
            init
        }
    }
}

/// A cancelled run: over now, with no lease.
pub open spec fn cancelled(t: TaskView, now: i64) -> TaskView {
    TaskView {
        status: RunStatus::Cancelled,
        completed_at: Some(now),
        lease_owner: None,
        lease_expires_at: None,
        ..t
    }
}

/// Whether `after` is a table with the selected runs cancelled, and `ids` are theirs.
pub open spec fn is_cancellation(
    before: Seq<TaskView>,
    selected: Seq<bool>,
    now: i64,
    after: Seq<TaskView>,
    ids: Seq<u128>,
) -> bool {
    after == changed(before, selected, |t: TaskView| cancelled(t, now)) && ids == selected_ids(
        before,
        selected,
    )
}

fn cancel_selected(tasks: &mut Vec<TaskRecord>, selected: &Vec<bool>, now: i64) -> (r: Vec<u128>)
    requires
        selected@.len() == old(tasks)@.len(),
    ensures
        is_cancellation(runs(old(tasks)@), selected@, now, runs(final(tasks)@), r@),
{
    let ghost before = runs(tasks@);
    let ghost change = |t: TaskView| cancelled(t, now);
    let mut ids: Vec<u128> = Vec::new();
    let mut i: usize = 0;
    while i < tasks.len()
        invariant
            i <= tasks@.len(),
            tasks@.len() == before.len(),
            selected@.len() == before.len(),
            change == (|t: TaskView| cancelled(t, now)),
            forall|j: int|
                0 <= j < i ==> #[trigger] runs(tasks@)[j] == changed(before, selected@, change)[j],
            forall|j: int| i <= j < before.len() ==> #[trigger] runs(tasks@)[j] == before[j],
            ids@ == selected_ids(before.take(i as int), selected@.take(i as int)),
        decreases tasks@.len() - i,
    {
        let ghost held = runs(tasks@);
        proof {
            assert(before.take(i + 1).drop_last() =~= before.take(i as int));
            assert(selected@.take(i + 1).drop_last() =~= selected@.take(i as int));
            assert(held[i as int] == before[i as int]);
            assert(tasks@[i as int]@ == before[i as int]);
        }
        if selected[i] {
            ids.push(tasks[i].id);
            tasks[i].status = RunStatus::Cancelled;
            tasks[i].completed_at = Some(now);
            tasks[i].lease_owner = None;
            tasks[i].lease_expires_at = None;
            assert(runs(tasks@) =~= held.update(i as int, cancelled(before[i as int], now)));
        }
        i = i + 1;
    }
    assert(before.take(i as int) =~= before);
    assert(selected@.take(i as int) =~= selected@);
    assert(runs(tasks@) =~= changed(before, selected@, change));
    ids
}

/// The runs of a pull request that are queued or being worked on.
pub open spec fn active_for_pr(table: Seq<TaskView>, repository_id: i64, pr: i64) -> Seq<bool> {
    Seq::new(
        table.len(),
        |i: int|
            table[i].repository_id == repository_id && table[i].target_type == "pull_request"@
                && table[i].target_id == pr && is_active(table[i].status),
    )
}

/// Cancels the runs of a pull request that was closed; their ids are returned.
pub fn cancel_active_tasks_for_pr(
    tasks: &mut Vec<TaskRecord>,
    repository_id: i64,
    pr: i64,
    now: i64,
) -> (r: Vec<u128>)
    ensures
        is_cancellation(
            runs(old(tasks)@),
            active_for_pr(runs(old(tasks)@), repository_id, pr),
            now,
            runs(final(tasks)@),
            r@,
        ),
{
    let ghost table = runs(tasks@);
    let mut selected: Vec<bool> = Vec::new();
    let mut i: usize = 0;
    while i < tasks.len()
        invariant
            i <= tasks@.len(),
            table == runs(tasks@),
            selected@ =~= active_for_pr(table, repository_id, pr).take(i as int),
        decreases tasks@.len() - i,
    {
        let t = &tasks[i];
        selected.push(
            t.repository_id == repository_id && t.target_id == pr && t.status.active()
                && text::same(t.target_type.as_str(), "pull_request"),
        );
        i = i + 1;
    }
    assert(selected@ =~= active_for_pr(table, repository_id, pr));
    cancel_selected(tasks, &selected, now)
}

/// Whether an entry point is one of the automatic ones.
pub open spec fn is_automatic(entry_point: Seq<char>) -> bool {
    entry_point == "pr_open"@ || entry_point == "pr_sync"@
}

/// The automatic runs of a pull request, for another head, that are not over.
pub open spec fn superseded(
    table: Seq<TaskView>,
    repository_id: i64,
    pr: i64,
    keep_head: Seq<char>,
) -> Seq<bool> {
    Seq::new(
        table.len(),
        |i: int|
            {
                let t = table[i];
                &&& t.repository_id == repository_id
                &&& t.target_type == "pull_request"@
                &&& t.target_id == pr
                &&& is_automatic(t.entry_point)
                &&& is_active(t.status) || t.status == RunStatus::WaitingForIndex
                &&& t.head_sha != Some(keep_head)
            },
    )
}

/// Cancels the automatic runs that a push supersedes: those for another head. A run that a person or an
/// agent asked for is never cancelled by a push.
pub fn cancel_superseded_pr_reviews(
    tasks: &mut Vec<TaskRecord>,
    repository_id: i64,
    pr: i64,
    keep_head: &str,
    now: i64,
) -> (r: Vec<u128>)
    ensures
        is_cancellation(
            runs(old(tasks)@),
            superseded(runs(old(tasks)@), repository_id, pr, keep_head@),
            now,
            runs(final(tasks)@),
            r@,
        ),
{
    let ghost table = runs(tasks@);
    let mut selected: Vec<bool> = Vec::new();
    let mut i: usize = 0;
    while i < tasks.len()
        invariant
            i <= tasks@.len(),
            table == runs(tasks@),
            selected@ =~= superseded(table, repository_id, pr, keep_head@).take(i as int),
        decreases tasks@.len() - i,
    {
        let t = &tasks[i];
        let pending: bool = t.status.active() || t.status == RunStatus::WaitingForIndex;
        let automatic: bool = text::same(t.entry_point.as_str(), "pr_open") || text::same(
            t.entry_point.as_str(),
            "pr_sync",
        );
        let other_head: bool = match &t.head_sha {
            Some(head) => !text::same(head.as_str(), keep_head),
            None => true,
        };
        selected.push(
            t.repository_id == repository_id && t.target_id == pr && text::same(
                t.target_type.as_str(),
                "pull_request",
            ) && automatic && pending && other_head,
        );
        i = i + 1;
    }
    assert(selected@ =~= superseded(table, repository_id, pr, keep_head@));
    cancel_selected(tasks, &selected, now)
}

/// A push cancels nothing but automatic runs, and never one for its own head.
pub proof fn law_push_spares_asked_for_runs(
    table: Seq<TaskView>,
    repository_id: i64,
    pr: i64,
    keep_head: Seq<char>,
    i: int,
)
    requires
        0 <= i < table.len(),
        !is_automatic(table[i].entry_point) || table[i].head_sha == Some(keep_head),
    ensures
        !superseded(table, repository_id, pr, keep_head)[i],
{
}

/// The runs of a repository that are queued or being worked on.
pub open spec fn active_for_repo(table: Seq<TaskView>, repository_id: i64) -> Seq<bool> {
    Seq::new(
        table.len(),
        |i: int| table[i].repository_id == repository_id && is_active(table[i].status),
    )
}

/// Cancels the runs of a repository that was taken out; their ids are returned.
pub fn cancel_active_tasks_for_repo(
    tasks: &mut Vec<TaskRecord>,
    repository_id: i64,
    now: i64,
) -> (r: Vec<u128>)
    ensures
        is_cancellation(
            runs(old(tasks)@),
            active_for_repo(runs(old(tasks)@), repository_id),
            now,
            runs(final(tasks)@),
            r@,
        ),
{
    let ghost table = runs(tasks@);
    let mut selected: Vec<bool> = Vec::new();
    let mut i: usize = 0;
    while i < tasks.len()
        invariant
            i <= tasks@.len(),
            table == runs(tasks@),
            selected@ =~= active_for_repo(table, repository_id).take(i as int),
        decreases tasks@.len() - i,
    {
        let t = &tasks[i];
        selected.push(t.repository_id == repository_id && t.status.active());
        i = i + 1;
    }
    assert(selected@ =~= active_for_repo(table, repository_id));
    cancel_selected(tasks, &selected, now)
}

/// The run of an id, where it is not over.
pub open spec fn cancelable(table: Seq<TaskView>, id: u128) -> Seq<bool> {
    Seq::new(table.len(), |i: int| table[i].id == id && !is_over(table[i].status))
}

/// Cancels a run that is not over; `false` where there is none such.
pub fn cancel_task_by_id(tasks: &mut Vec<TaskRecord>, id: u128, now: i64) -> (r: bool)
    ensures
        ({
            let before = runs(old(tasks)@);
            &&& runs(final(tasks)@) == changed(
                before,
                cancelable(before, id),
                |t: TaskView| cancelled(t, now),
            )
            &&& r == exists|i: int|
                0 <= i < before.len() && #[trigger] cancelable(before, id)[i]
        }),
{
    let ghost table = runs(tasks@);
    let mut selected: Vec<bool> = Vec::new();
    let mut found: bool = false;
    let mut i: usize = 0;
    while i < tasks.len()
        invariant
            i <= tasks@.len(),
            table == runs(tasks@),
            selected@ =~= cancelable(table, id).take(i as int),
            found == exists|j: int| 0 <= j < i && #[trigger] cancelable(table, id)[j],
        decreases tasks@.len() - i,
    {
        let t = &tasks[i];
        let hit: bool = t.id == id && !t.status.over();
        assert(hit == cancelable(table, id)[i as int]);
        if hit {
            found = true;
        }
        selected.push(hit);
        i = i + 1;
    }
    assert(selected@ =~= cancelable(table, id));
    cancel_selected(tasks, &selected, now);
    found
}

/// Cancelling twice is cancelling once: nothing of the run is left to cancel.
pub proof fn law_cancelled_run_is_over(t: TaskView, now: i64)
    ensures
        is_over(cancelled(t, now).status),
        cancelled(t, now).lease_expires_at is None,
        cancelled(t, now).lease_owner is None,
{
}

/// A run whose job has to be looked after.
#[derive(Debug)]
pub struct ReapableTask {
    pub id: u128,
    pub job_name: Option<String>,
    pub attempts: i32,
}

/// Whether `r` is a run's job.
pub open spec fn is_reapable_of(r: ReapableTask, t: TaskView) -> bool {
    r.id == t.id && opt_view(r.job_name) == t.job_name && r.attempts == t.attempts
}

fn reapable(t: &TaskRecord) -> (r: ReapableTask)
    ensures
        is_reapable_of(r, t@),
{
    ReapableTask { id: t.id, job_name: text::copy_opt(&t.job_name), attempts: t.attempts }
}

/// The cancelled runs that still have a job.
pub open spec fn with_job(table: Seq<TaskView>) -> Seq<bool> {
    Seq::new(
        table.len(),
        |i: int| table[i].status == RunStatus::Cancelled && table[i].job_name is Some,
    )
}

/// Runs by id.
pub open spec fn by_id(table: Seq<TaskView>) -> Seq<Key> {
    Seq::new(table.len(), |i: int| Key { major: 0, minor: 0, id: table[i].id })
}

/// How much of a list a limit leaves.
pub open spec fn limited(n: nat, limit: u64) -> int {
    if n <= limit {
        n as int
    } else {
        limit as int
    }
}

/// Whether `r` lists the jobs at the first places of an arrangement, up to a limit.
pub open spec fn lists_reapable(
    r: Seq<ReapableTask>,
    table: Seq<TaskView>,
    selected: Seq<bool>,
    keys: Seq<Key>,
    limit: u64,
) -> bool {
    exists|places: Seq<usize>| #[trigger]
        arranges(places, selected, keys) && r.len() == limited(places.len(), limit) && forall|
            a: int,
        |
            0 <= a < r.len() ==> is_reapable_of(#[trigger] r[a], table[places[a] as int])
}

fn reapable_at(tasks: &Vec<TaskRecord>, places: &Vec<usize>, limit: u64) -> (r: Vec<ReapableTask>)
    requires
        forall|a: int| 0 <= a < places@.len() ==> (#[trigger] places@[a]) < tasks@.len(),
    ensures
        r@.len() == limited(places@.len(), limit),
        forall|a: int|
            0 <= a < r@.len() ==> is_reapable_of(
                #[trigger] r@[a],
                runs(tasks@)[places@[a] as int],
            ),
{
    let mut out: Vec<ReapableTask> = Vec::new();
    let mut a: usize = 0;
    while a < places.len() && (a as u64) < limit
        invariant
            a <= places@.len(),
            a <= limit,
            out@.len() == a,
            forall|b: int| 0 <= b < places@.len() ==> (#[trigger] places@[b]) < tasks@.len(),
            forall|b: int|
                0 <= b < a ==> is_reapable_of(
                    #[trigger] out@[b],
                    runs(tasks@)[places@[b] as int],
                ),
        decreases places@.len() - a,
    {
        out.push(reapable(&tasks[places[a]]));
        a = a + 1;
    }
    out
}

/// The cancelled runs whose jobs are to be deleted, up to a limit.
pub fn list_cancelled_with_job(tasks: &Vec<TaskRecord>, limit: u64) -> (r: Vec<ReapableTask>)
    ensures
        lists_reapable(
            r@,
            runs(tasks@),
            with_job(runs(tasks@)),
            by_id(runs(tasks@)),
            limit,
        ),
{
    let ghost table = runs(tasks@);
    let mut selected: Vec<bool> = Vec::new();
    let mut keys: Vec<Key> = Vec::new();
    let mut i: usize = 0;
    while i < tasks.len()
        invariant
            i <= tasks@.len(),
            table == runs(tasks@),
            selected@ =~= with_job(table).take(i as int),
            keys@ =~= by_id(table).take(i as int),
        decreases tasks@.len() - i,
    {
        let t = &tasks[i];
        selected.push(t.status == RunStatus::Cancelled && t.job_name.is_some());
        keys.push(Key { major: 0, minor: 0, id: t.id });
        i = i + 1;
    }
    assert(selected@ =~= with_job(table));
    assert(keys@ =~= by_id(table));
    let places: Vec<usize> = order::arrange(&selected, &keys);
    let r: Vec<ReapableTask> = reapable_at(tasks, &places, limit);
    assert(arranges(places@, selected@, keys@));
    r
}

/// Forgets a job that was deleted.
pub fn clear_job_name(task: &mut TaskRecord)
    ensures
        final(task)@ == (TaskView { job_name: None, ..old(task)@ }),
{
    task.job_name = None;
}

/// Records the job of a run.
pub fn set_task_job(task: &mut TaskRecord, job_name: &str)
    ensures
        final(task)@ == (TaskView { job_name: Some(job_name@), ..old(task)@ }),
{
    task.job_name = Some(job_name.to_owned());
}

/// Records the check of a run.
pub fn set_check_run_external_id(task: &mut TaskRecord, external_id: i64)
    ensures
        final(task)@ == (TaskView { check_run_external_id: Some(external_id), ..old(task)@ }),
{
    task.check_run_external_id = Some(external_id);
}

/// The check of a run, where one was recorded.
pub fn get_check_run_external_id(task: Option<&TaskRecord>) -> (r: Option<i64>)
    ensures
        r == (match task {
            Some(t) => t.check_run_external_id,
            None => None,
        }),
{
    match task {
        Some(t) => t.check_run_external_id,
        None => None,
    }
}

/// The runs that may be claimed.
pub open spec fn claimable(table: Seq<TaskView>, now: i64) -> Seq<bool> {
    Seq::new(
        table.len(),
        |i: int| table[i].status == RunStatus::Queued && table[i].run_after <= now,
    )
}

/// Runs by priority, the highest first, then by age, then by id.
pub open spec fn by_urgency(table: Seq<TaskView>) -> Seq<Key> {
    Seq::new(
        table.len(),
        |i: int|
            Key {
                major: (-table[i].priority) as i128,
                minor: table[i].created_at as i128,
                id: table[i].id,
            },
    )
}

/// A claimed run: running, with one more attempt, under a lease.
pub open spec fn claimed(t: TaskView, owner: Seq<char>, lease: u64, now: i64) -> TaskView {
    TaskView {
        status: RunStatus::Running,
        attempts: (t.attempts + 1) as i32,
        started_at: Some(now),
        lease_owner: Some(owner),
        lease_expires_at: Some((now + lease) as i128),
        ..t
    }
}

/// Claims the most urgent run that is due, under a lease; `None` where none is due.
pub fn claim_next_task(tasks: &mut Vec<TaskRecord>, owner: &str, lease: u64, now: i64) -> (r: Option<
    usize,
>)
    requires
        forall|i: int|
            0 <= i < old(tasks)@.len() && claimable(runs(old(tasks)@), now)[i] ==> (
            #[trigger] old(tasks)@[i]).attempts < i32::MAX,
    ensures
        ({
            let before = runs(old(tasks)@);
            match r {
                Some(i) => {
                    &&& is_first(i as int, claimable(before, now), by_urgency(before))
                    &&& runs(final(tasks)@) == before.update(
                        i as int,
                        claimed(before[i as int], owner@, lease, now),
                    )
                },
                None => {
                    &&& runs(final(tasks)@) == before
                    &&& forall|j: int| 0 <= j < before.len() ==> !#[trigger] claimable(before, now)[j]
                },
            }
        }),
{
    let ghost before = runs(tasks@);
    let mut selected: Vec<bool> = Vec::new();
    let mut keys: Vec<Key> = Vec::new();
    let mut i: usize = 0;
    while i < tasks.len()
        invariant
            i <= tasks@.len(),
            before == runs(tasks@),
            selected@ =~= claimable(before, now).take(i as int),
            keys@ =~= by_urgency(before).take(i as int),
        decreases tasks@.len() - i,
    {
        let t = &tasks[i];
        selected.push(t.status == RunStatus::Queued && t.run_after <= now as i128);
        keys.push(
            Key { major: -(t.priority as i128), minor: t.created_at as i128, id: t.id },
        );
        i = i + 1;
    }
    assert(selected@ =~= claimable(before, now));
    assert(keys@ =~= by_urgency(before));
    match order::first(&selected, &keys) {
        Some(i) => {
            let until: i128 = now as i128 + lease as i128;
            let attempts: i32 = tasks[i].attempts + 1;
            tasks[i].status = RunStatus::Running;
            tasks[i].attempts = attempts;
            tasks[i].started_at = Some(now);
            tasks[i].lease_owner = Some(owner.to_owned());
            tasks[i].lease_expires_at = Some(until);
            assert(runs(tasks@) =~= before.update(
                i as int,
                claimed(before[i as int], owner@, lease, now),
            ));
            Some(i)
        },
        None => None,
    }
}

/// A claimed run is not claimed again: it is running until it is given back.
pub proof fn law_claim_is_exclusive(
    table: Seq<TaskView>,
    i: int,
    owner: Seq<char>,
    lease: u64,
    now: i64,
    later: i64,
)
    requires
        0 <= i < table.len(),
    ensures
        !claimable(table.update(i, claimed(table[i], owner, lease, now)), later)[i],
{
}

/// A run given back to the queue, to be claimed after the backoff.
pub open spec fn requeued(t: TaskView, backoff: u64, now: i64) -> TaskView {
    TaskView {
        status: RunStatus::Queued,
        lease_owner: None,
        lease_expires_at: None,
        started_at: None,
        job_name: None,
        run_after: (now + backoff) as i128,
        ..t
    }
}

/// Gives a run that is being worked on back to the queue; `false`, and nothing changed, for any other.
pub fn release_task(task: &mut TaskRecord, backoff: u64, now: i64) -> (r: bool)
    ensures
        r == is_leased(old(task)@.status),
        final(task)@ == (if r {
            requeued(old(task)@, backoff, now)
        } else {
            old(task)@
        }),
{
    if !task.status.leased() {
        return false;
    }
    task.status = RunStatus::Queued;
    task.lease_owner = None;
    task.lease_expires_at = None;
    task.started_at = None;
    task.job_name = None;
    task.run_after = now as i128 + backoff as i128;
    true
}

/// Of two that give one run back, the second does nothing.
pub proof fn law_release_happens_once(t: TaskView, backoff: u64, now: i64)
    ensures
        !is_leased(requeued(t, backoff, now).status),
{
}

/// A run whose lease runs anew.
pub open spec fn renewed(t: TaskView, lease: u64, now: i64) -> TaskView {
    TaskView { lease_expires_at: Some((now + lease) as i128), ..t }
}

/// Extends the lease of a run that is being worked on; `false`, and nothing changed, for any other.
pub fn renew_lease(task: &mut TaskRecord, lease: u64, now: i64) -> (r: bool)
    ensures
        r == is_leased(old(task)@.status),
        final(task)@ == (if r {
            renewed(old(task)@, lease, now)
        } else {
            old(task)@
        }),
{
    if !task.status.leased() {
        return false;
    }
    task.lease_expires_at = Some(now as i128 + lease as i128);
    true
}

/// The runs that are being worked on and whose lease has run out.
pub open spec fn expired(table: Seq<TaskView>, now: i64) -> Seq<bool> {
    Seq::new(
        table.len(),
        |i: int|
            is_leased(table[i].status) && table[i].lease_expires_at is Some
                && table[i].lease_expires_at->0 < now,
    )
}

/// Runs by when they started, those that did not first, then by id.
pub open spec fn by_start(table: Seq<TaskView>) -> Seq<Key> {
    Seq::new(
        table.len(),
        |i: int|
            match table[i].started_at {
                Some(at) => Key { major: 1, minor: at as i128, id: table[i].id },
                None => Key { major: 0, minor: 0, id: table[i].id },
            },
    )
}

/// The runs whose lease has run out, by when they started, up to a limit.
pub fn list_reapable_tasks(tasks: &Vec<TaskRecord>, limit: u64, now: i64) -> (r: Vec<ReapableTask>)
    ensures
        lists_reapable(
            r@,
            runs(tasks@),
            expired(runs(tasks@), now),
            by_start(runs(tasks@)),
            limit,
        ),
{
    let ghost table = runs(tasks@);
    let mut selected: Vec<bool> = Vec::new();
    let mut keys: Vec<Key> = Vec::new();
    let mut i: usize = 0;
    while i < tasks.len()
        invariant
            i <= tasks@.len(),
            table == runs(tasks@),
            selected@ =~= expired(table, now).take(i as int),
            keys@ =~= by_start(table).take(i as int),
        decreases tasks@.len() - i,
    {
        let t = &tasks[i];
        let lease_over: bool = match t.lease_expires_at {
            Some(at) => at < now as i128,
            None => false,
        };
        selected.push(t.status.leased() && lease_over);
        keys.push(
            match t.started_at {
                Some(at) => Key { major: 1, minor: at as i128, id: t.id },
                None => Key { major: 0, minor: 0, id: t.id },
            },
        );
        i = i + 1;
    }
    assert(selected@ =~= expired(table, now));
    assert(keys@ =~= by_start(table));
    let places: Vec<usize> = order::arrange(&selected, &keys);
    let r: Vec<ReapableTask> = reapable_at(tasks, &places, limit);
    assert(arranges(places@, selected@, keys@));
    r
}

/// What a page of runs is filtered by. A filter that is absent lets everything through.
#[derive(Debug)]
pub struct TasksPageFilter {
    pub status: Option<Vec<RunStatus>>,
    pub repository_id: Option<i64>,
    pub query: Option<String>,
}

/// Whether a run passes a filter by status and repository.
pub open spec fn passes(filter: TasksPageFilter, t: TaskView) -> bool {
    &&& filter.status matches Some(allowed) ==> allowed@.contains(t.status)
    &&& filter.repository_id matches Some(id) ==> t.repository_id == id
}

/// The runs on some page: they pass the filter and are found, the hits being given.
pub open spec fn listed(table: Seq<TaskView>, filter: TasksPageFilter, hits: Seq<bool>) -> Seq<bool> {
    Seq::new(table.len(), |i: int| passes(filter, table[i]) && hits[i])
}

/// A page of runs: the places of its rows, and how many rows there are on all pages.
#[derive(Debug)]
pub struct TasksPage {
    pub rows: Vec<usize>,
    pub total: usize,
}

/// Whether a page is the one at an offset of an arrangement.
pub open spec fn is_page(p: TasksPage, places: Seq<usize>, limit: usize, offset: usize) -> bool {
    let from = if offset <= places.len() {
        offset as int
    } else {
        places.len() as int
    };
    let to = if from + limit <= places.len() {
        from + limit
    } else {
        places.len() as int
    };
    p.total == places.len() && p.rows@ == places.subrange(from, to)
}

fn allows(allowed: &Vec<RunStatus>, status: RunStatus) -> (r: bool)
    ensures
        r == allowed@.contains(status),
{
    let mut i: usize = 0;
    while i < allowed.len()
        invariant
            i <= allowed@.len(),
            forall|j: int| 0 <= j < i ==> allowed@[j] != status,
        decreases allowed@.len() - i,
    {
        if allowed[i] == status {
            assert(allowed@[i as int] == status);
            return true;
        }
        i = i + 1;
    }
    false
}

/// Whether a query finds a run by its command, its head, the number of its target, or its repository's
/// owner or name.
pub open spec fn found_by(t: TaskView, repos: Seq<RepositoryRecord>, query: Seq<char>) -> bool {
    ||| matches_query(query, t.command_text)
    ||| t.head_sha matches Some(head) && matches_query(query, head)
    ||| matches_query(query, decimal(t.target_id as int))
    ||| exists|j: int|
        0 <= j < repos.len() && (#[trigger] repos[j]).id == t.repository_id && (matches_query(
            query,
            repos[j].owner@,
        ) || matches_query(query, repos[j].name@))
}

/// The runs that a query finds; without a query, all.
pub open spec fn task_hits(
    table: Seq<TaskView>,
    repos: Seq<RepositoryRecord>,
    query: Option<Seq<char>>,
) -> Seq<bool> {
    Seq::new(table.len(), |i: int| query matches Some(q) ==> found_by(table[i], repos, q))
}

fn repo_holds(pieces: &Vec<Piece>, repos: &Vec<RepositoryRecord>, repository_id: i64) -> (r: bool)
    ensures
        r == exists|j: int|
            0 <= j < repos@.len() && (#[trigger] repos@[j]).id == repository_id && (fits(
                pieces@,
                lowercase_of(repos@[j].owner@),
            ) || fits(pieces@, lowercase_of(repos@[j].name@))),
{
    let mut j: usize = 0;
    while j < repos.len()
        invariant
            j <= repos@.len(),
            forall|k: int|
                0 <= k < j ==> !((#[trigger] repos@[k]).id == repository_id && (fits(
                    pieces@,
                    lowercase_of(repos@[k].owner@),
                ) || fits(pieces@, lowercase_of(repos@[k].name@)))),
        decreases repos@.len() - j,
    {
        let r = &repos[j];
        if r.id == repository_id && (holds(pieces, r.owner.as_str()) || holds(
            pieces,
            r.name.as_str(),
        )) {
            assert(repos@[j as int].id == repository_id);
            return true;
        }
        j = j + 1;
    }
    false
}

/// Says of every run whether a query finds it.
pub fn search_tasks(tasks: &Vec<TaskRecord>, repos: &Vec<RepositoryRecord>, query: Option<&str>) -> (r:
    Vec<bool>)
    ensures
        r@ == task_hits(runs(tasks@), repos@, opt_str_view(query)),
{
    let ghost table = runs(tasks@);
    let looked_for: Option<Vec<Piece>> = match query {
        Some(q) => Some(read_query(q)),
        None => None,
    };
    let ghost q = opt_str_view(query)->0;
    let mut hits: Vec<bool> = Vec::new();
    let mut i: usize = 0;
    while i < tasks.len()
        invariant
            i <= tasks@.len(),
            table == runs(tasks@),
            looked_for is Some <==> query is Some,
            looked_for is Some ==> opt_str_view(query) == Some(q) && looked_for->0@ == sought(q),
            hits@ =~= task_hits(table, repos@, opt_str_view(query)).take(i as int),
        decreases tasks@.len() - i,
    {
        let t = &tasks[i];
        assert(table[i as int] == t@);
        let hit: bool = match &looked_for {
            Some(pieces) => {
                let in_head: bool = match &t.head_sha {
                    Some(head) => holds(pieces, head.as_str()),
                    None => false,
                };
                let by_repo: bool = repo_holds(pieces, repos, t.repository_id);
                let number: String = text::i64_text(t.target_id);
                let hit: bool = in_head || by_repo || holds(pieces, t.command_text.as_str())
                    || holds(pieces, number.as_str());
                assert(hit == found_by(table[i as int], repos@, q));
                hit
            },
            None => true,
        };
        hits.push(hit);
        i = i + 1;
    }
    assert(hits@ =~= task_hits(table, repos@, opt_str_view(query)));
    hits
}

/// A page of the runs that pass a filter, the latest first.
pub fn list_tasks_page(
    tasks: &Vec<TaskRecord>,
    repos: &Vec<RepositoryRecord>,
    filter: &TasksPageFilter,
    limit: usize,
    offset: usize,
) -> (r: TasksPage)
    ensures
        exists|places: Seq<usize>| #[trigger]
            arranges(
                places,
                listed(
                    runs(tasks@),
                    *filter,
                    task_hits(runs(tasks@), repos@, opt_view(filter.query)),
                ),
                latest_first(runs(tasks@)),
            ) && is_page(r, places, limit, offset),
{
    let query: Option<&str> = match &filter.query {
        Some(q) => Some(q.as_str()),
        None => None,
    };
    let hits: Vec<bool> = search_tasks(tasks, repos, query);
    page_of_hits(tasks, filter, &hits, limit, offset)
}

fn page_of_hits(
    tasks: &Vec<TaskRecord>,
    filter: &TasksPageFilter,
    hits: &Vec<bool>,
    limit: usize,
    offset: usize,
) -> (r: TasksPage)
    requires
        hits@.len() == tasks@.len(),
    ensures
        exists|places: Seq<usize>| #[trigger]
            arranges(
                places,
                listed(runs(tasks@), *filter, hits@),
                latest_first(runs(tasks@)),
            ) && is_page(r, places, limit, offset),
{
    let ghost table = runs(tasks@);
    let mut selected: Vec<bool> = Vec::new();
    let mut keys: Vec<Key> = Vec::new();
    let mut i: usize = 0;
    while i < tasks.len()
        invariant
            i <= tasks@.len(),
            hits@.len() == tasks@.len(),
            table == runs(tasks@),
            selected@ =~= listed(table, *filter, hits@).take(i as int),
            keys@ =~= latest_first(table).take(i as int),
        decreases tasks@.len() - i,
    {
        let t = &tasks[i];
        let by_status: bool = match &filter.status {
            Some(allowed) => allows(allowed, t.status),
            None => true,
        };
        let by_repository: bool = match filter.repository_id {
            Some(id) => t.repository_id == id,
            None => true,
        };
        assert((by_status && by_repository) == passes(*filter, table[i as int]));
        selected.push(by_status && by_repository && hits[i]);
        keys.push(Key { major: -(t.created_at as i128), minor: 0, id: u128::MAX - t.id });
        i = i + 1;
    }
    assert(selected@ =~= listed(table, *filter, hits@));
    assert(keys@ =~= latest_first(table));
    let places: Vec<usize> = order::arrange(&selected, &keys);
    let from: usize = if offset <= places.len() {
        offset
    } else {
        places.len()
    };
    let mut rows: Vec<usize> = Vec::new();
    let mut at: usize = from;
    while at < places.len() && rows.len() < limit
        invariant
            from <= at <= places@.len(),
            rows@.len() == at - from,
            rows@.len() <= limit,
            rows@ =~= places@.subrange(from as int, at as int),
        decreases places@.len() - at,
    {
        rows.push(places[at]);
        at = at + 1;
    }
    let r = TasksPage { rows, total: places.len() };
    assert(arranges(places@, selected@, keys@));
    assert(is_page(r, places@, limit, offset));
    r
}

/// Whether `i` is the place of the run of an id; of several, the first.
pub open spec fn is_task_at(tasks: Seq<TaskRecord>, id: u128, i: int) -> bool {
    &&& 0 <= i < tasks.len()
    &&& tasks[i].id == id
    &&& forall|j: int| 0 <= j < i ==> (#[trigger] tasks[j]).id != id
}

/// The place of a run; of several with one id, the lowest.
pub fn get_task(tasks: &Vec<TaskRecord>, id: u128) -> (r: Option<usize>)
    ensures
        match r {
            Some(i) => i < tasks@.len() && tasks@[i as int].id == id && forall|j: int|
                0 <= j < i ==> (#[trigger] tasks@[j]).id != id,
            None => forall|j: int| 0 <= j < tasks@.len() ==> (#[trigger] tasks@[j]).id != id,
        },
{
    let mut i: usize = 0;
    while i < tasks.len()
        invariant
            i <= tasks@.len(),
            forall|j: int| 0 <= j < i ==> (#[trigger] tasks@[j]).id != id,
        decreases tasks@.len() - i,
    {
        if tasks[i].id == id {
            return Some(i);
        }
        i = i + 1;
    }
    None
}

/// The status of a run, where there is one.
pub fn get_task_status(tasks: &Vec<TaskRecord>, id: u128) -> (r: Option<RunStatus>)
    ensures
        match r {
            Some(s) => exists|i: int|
                0 <= i < tasks@.len() && (#[trigger] tasks@[i]).id == id && tasks@[i].status == s,
            None => forall|j: int| 0 <= j < tasks@.len() ==> (#[trigger] tasks@[j]).id != id,
        },
{
    match get_task(tasks, id) {
        Some(i) => Some(tasks[i].status),
        None => None,
    }
}

/// Whether a run is for the same head of the same target as another, later, and not cancelled.
pub open spec fn outdates(newer: TaskView, t: TaskView) -> bool {
    &&& newer.repository_id == t.repository_id
    &&& newer.target_type == t.target_type
    &&& newer.target_id == t.target_id
    &&& newer.head_sha == t.head_sha
    &&& newer.status != RunStatus::Cancelled
    &&& newer.created_at > t.created_at || (newer.created_at == t.created_at && newer.id > t.id)
}

/// Whether a run is the one to report the check of its head: no later run for that head stands. One that
/// is unknown reports.
pub open spec fn reports_check(table: Seq<TaskView>, id: u128) -> bool {
    forall|i: int, j: int|
        0 <= i < table.len() && 0 <= j < table.len() && (#[trigger] table[j]).id == id ==> !outdates(
            #[trigger] table[i],
            table[j],
        )
}

/// Whether a run is the one to report the check of its head.
pub fn should_report_check_run(tasks: &Vec<TaskRecord>, id: u128) -> (r: bool)
    ensures
        r == reports_check(runs(tasks@), id),
{
    let ghost table = runs(tasks@);
    let mut j: usize = 0;
    while j < tasks.len()
        invariant
            j <= tasks@.len(),
            table == runs(tasks@),
            forall|a: int, b: int|
                0 <= a < table.len() && 0 <= b < j && (#[trigger] table[b]).id == id ==> !outdates(
                    #[trigger] table[a],
                    table[b],
                ),
        decreases tasks@.len() - j,
    {
        assert(table[j as int] == tasks@[j as int]@);
        if tasks[j].id == id {
            let t = &tasks[j];
            let mut i: usize = 0;
            while i < tasks.len()
                invariant
                    i <= tasks@.len(),
                    j < tasks@.len(),
                    *t == tasks@[j as int],
                    t.id == id,
                    table == runs(tasks@),
                    forall|a: int| 0 <= a < i ==> !outdates(#[trigger] table[a], table[j as int]),
                decreases tasks@.len() - i,
            {
                let newer = &tasks[i];
                assert(table[i as int] == newer@ && table[j as int] == t@);
                if newer.repository_id == t.repository_id && newer.target_id == t.target_id
                    && newer.status != RunStatus::Cancelled && (newer.created_at > t.created_at || (
                newer.created_at == t.created_at && newer.id > t.id)) && text::same(
                    newer.target_type.as_str(),
                    t.target_type.as_str(),
                ) && text::same_opt(&newer.head_sha, &t.head_sha) {
                    assert(outdates(table[i as int], table[j as int]));
                    return false;
                }
                i = i + 1;
            }
        }
        j = j + 1;
    }
    true
}

/// Of two runs for one head, of which neither is cancelled, one reports: the later one.
pub proof fn law_one_run_reports_a_head(table: Seq<TaskView>, i: int, j: int)
    requires
        0 <= i < table.len(),
        0 <= j < table.len(),
        outdates(table[i], table[j]),
    ensures
        !reports_check(table, table[j].id),
        !outdates(table[j], table[i]),
{
}

/// A run after a status was reported for it. A run that is over gives its lease back; one that starts
/// keeps when it first started; a reason stays until another replaces it or the run starts anew.
pub open spec fn reported(
    t: TaskView,
    status: RunStatus,
    detail: Option<Seq<char>>,
    now: i64,
) -> TaskView {
    TaskView {
        status,
        started_at: if status == RunStatus::Running && t.started_at is None {
            Some(now)
        } else {
            t.started_at
        },
        completed_at: if is_over(status) {
            Some(now)
        } else {
            t.completed_at
        },
        lease_owner: if is_over(status) {
            None
        } else {
            t.lease_owner
        },
        lease_expires_at: if is_over(status) {
            None
        } else {
            t.lease_expires_at
        },
        error_detail: if status == RunStatus::Running {
            None
        } else if detail is Some {
            detail
        } else {
            t.error_detail
        },
        ..t
    }
}

fn report(task: &mut TaskRecord, status: RunStatus, detail: Option<&str>, now: i64)
    ensures
        final(task)@ == reported(old(task)@, status, opt_str_view(detail), now),
{
    task.status = status;
    if status == RunStatus::Running {
        if task.started_at.is_none() {
            task.started_at = Some(now);
        }
        task.error_detail = None;
    } else if let Some(detail) = detail {
        task.error_detail = Some(detail.to_owned());
    }
    if status.over() {
        task.completed_at = Some(now);
        task.lease_owner = None;
        task.lease_expires_at = None;
    }
}

/// Whether a run of an id is an index run of a repository.
pub open spec fn indexed_by(table: Seq<TaskView>, id: u128, repository_id: i64) -> bool {
    exists|i: int|
        0 <= i < table.len() && (#[trigger] table[i]).id == id && table[i].command_text == "index"@
            && table[i].repository_id == repository_id
}

/// The runs that wait for the index that a run writes.
pub open spec fn waiting_on(table: Seq<TaskView>, id: u128) -> Seq<bool> {
    Seq::new(
        table.len(),
        |i: int|
            table[i].status == RunStatus::WaitingForIndex && indexed_by(
                table,
                id,
                table[i].repository_id,
            ),
    )
}

/// A run that waited, released into the queue. A delay that has still to pass is kept.
pub open spec fn released(t: TaskView, now: i64) -> TaskView {
    TaskView {
        status: RunStatus::Queued,
        run_after: if t.run_after > now {
            t.run_after
        } else {
            now as i128
        },
        ..t
    }
}

/// Releases the runs that wait for the index that a run wrote; their ids are returned. For a run that
/// wrote no index nothing happens.
pub fn release_reviews_waiting_on_index(tasks: &mut Vec<TaskRecord>, index_task_id: u128, now: i64) -> (r:
    Vec<u128>)
    ensures
        ({
            let before = runs(old(tasks)@);
            let selected = waiting_on(before, index_task_id);
            &&& runs(final(tasks)@) == changed(before, selected, |t: TaskView| released(t, now))
            &&& r@ == selected_ids(before, selected)
        }),
{
    let ghost before = runs(tasks@);
    let mut selected: Vec<bool> = Vec::new();
    let mut i: usize = 0;
    while i < tasks.len()
        invariant
            i <= tasks@.len(),
            before == runs(tasks@),
            selected@ =~= waiting_on(before, index_task_id).take(i as int),
        decreases tasks@.len() - i,
    {
        let repository_id: i64 = tasks[i].repository_id;
        let mut by_index: bool = false;
        let mut j: usize = 0;
        while j < tasks.len()
            invariant
                j <= tasks@.len(),
                before == runs(tasks@),
                by_index == exists|k: int|
                    0 <= k < j && (#[trigger] before[k]).id == index_task_id
                        && before[k].command_text == "index"@ && before[k].repository_id
                        == repository_id,
            decreases tasks@.len() - j,
        {
            let t = &tasks[j];
            assert(before[j as int] == t@);
            if t.id == index_task_id && t.repository_id == repository_id && text::same(
                t.command_text.as_str(),
                "index",
            ) {
                by_index = true;
            }
            j = j + 1;
        }
        assert(before[i as int] == tasks@[i as int]@);
        assert(by_index == indexed_by(before, index_task_id, repository_id));
        selected.push(tasks[i].status == RunStatus::WaitingForIndex && by_index);
        i = i + 1;
    }
    assert(selected@ =~= waiting_on(before, index_task_id));
    let ghost change = |t: TaskView| released(t, now);
    let mut ids: Vec<u128> = Vec::new();
    let mut i: usize = 0;
    while i < tasks.len()
        invariant
            i <= tasks@.len(),
            tasks@.len() == before.len(),
            selected@.len() == before.len(),
            change == (|t: TaskView| released(t, now)),
            forall|j: int|
                0 <= j < i ==> #[trigger] runs(tasks@)[j] == changed(before, selected@, change)[j],
            forall|j: int| i <= j < before.len() ==> #[trigger] runs(tasks@)[j] == before[j],
            ids@ == selected_ids(before.take(i as int), selected@.take(i as int)),
        decreases tasks@.len() - i,
    {
        let ghost held = runs(tasks@);
        proof {
            assert(before.take(i + 1).drop_last() =~= before.take(i as int));
            assert(selected@.take(i + 1).drop_last() =~= selected@.take(i as int));
            assert(held[i as int] == before[i as int]);
            assert(tasks@[i as int]@ == before[i as int]);
        }
        if selected[i] {
            ids.push(tasks[i].id);
            let run_after: i128 = if tasks[i].run_after > now as i128 {
                tasks[i].run_after
            } else {
                now as i128
            };
            tasks[i].status = RunStatus::Queued;
            tasks[i].run_after = run_after;
            assert(runs(tasks@) =~= held.update(i as int, released(before[i as int], now)));
        }
        i = i + 1;
    }
    assert(before.take(i as int) =~= before);
    assert(selected@.take(i as int) =~= selected@);
    assert(runs(tasks@) =~= changed(before, selected@, change));
    ids
}

/// The runs of an id.
pub open spec fn of_id(table: Seq<TaskView>, id: u128) -> Seq<bool> {
    Seq::new(table.len(), |i: int| table[i].id == id)
}

/// A table after a status was reported for a run.
pub open spec fn after_report(
    table: Seq<TaskView>,
    id: u128,
    status: RunStatus,
    detail: Option<Seq<char>>,
    now: i64,
) -> Seq<TaskView> {
    changed(table, of_id(table, id), |t: TaskView| reported(t, status, detail, now))
}

/// What a reported status led to.
#[derive(Debug)]
pub struct StatusReport {
    /// Whether there was such a run.
    pub found: bool,
    /// The runs that were released from waiting for its index.
    pub released: Vec<u128>,
}

/// Whether `after` and `r` are what a status reported for a run makes of a table.
pub open spec fn is_report(
    before: Seq<TaskView>,
    after: Seq<TaskView>,
    r: StatusReport,
    id: u128,
    status: RunStatus,
    detail: Option<Seq<char>>,
    now: i64,
) -> bool {
    let mid = after_report(before, id, status, detail, now);
    let waiting = waiting_on(mid, id);
    &&& r.found == exists|i: int| 0 <= i < before.len() && (#[trigger] before[i]).id == id
    &&& if is_over(status) {
        &&& after == changed(mid, waiting, |t: TaskView| released(t, now))
        &&& r.released@ == selected_ids(mid, waiting)
    } else {
        &&& after == mid
        &&& r.released@ == Seq::<u128>::empty()
    }
}

/// Applies a status reported for a run. An index run that is over, however it ended, releases the runs
/// that wait for it.
pub fn set_task_status(
    tasks: &mut Vec<TaskRecord>,
    id: u128,
    status: RunStatus,
    detail: Option<&str>,
    now: i64,
) -> (r: StatusReport)
    ensures
        is_report(
            runs(old(tasks)@),
            runs(final(tasks)@),
            r,
            id,
            status,
            opt_str_view(detail),
            now,
        ),
{
    let ghost before = runs(tasks@);
    let ghost change = |t: TaskView| reported(t, status, opt_str_view(detail), now);
    let mut found: bool = false;
    let mut i: usize = 0;
    while i < tasks.len()
        invariant
            i <= tasks@.len(),
            tasks@.len() == before.len(),
            change == (|t: TaskView| reported(t, status, opt_str_view(detail), now)),
            forall|j: int|
                0 <= j < i ==> #[trigger] runs(tasks@)[j] == changed(
                    before,
                    of_id(before, id),
                    change,
                )[j],
            forall|j: int| i <= j < before.len() ==> #[trigger] runs(tasks@)[j] == before[j],
            found == exists|j: int| 0 <= j < i && (#[trigger] before[j]).id == id,
        decreases tasks@.len() - i,
    {
        let ghost held = runs(tasks@);
        proof {
            assert(held[i as int] == before[i as int]);
            assert(tasks@[i as int]@ == before[i as int]);
        }
        if tasks[i].id == id {
            found = true;
            let ghost at = i as int;
            report(&mut tasks[i], status, detail, now);
            assert(runs(tasks@) =~= held.update(
                at,
                reported(before[at], status, opt_str_view(detail), now),
            ));
        }
        i = i + 1;
    }
    assert(runs(tasks@) =~= changed(before, of_id(before, id), change));
    if status.over() {
        let released: Vec<u128> = release_reviews_waiting_on_index(tasks, id, now);
        StatusReport { found, released }
    } else {
        StatusReport { found, released: Vec::new() }
    }
}

/// A reported status, with what it appends to the logs of the tasks in front of the run.
#[derive(Debug)]
pub struct Transition {
    pub report: StatusReport,
    pub appended: Vec<Appended>,
}

/// Applies a status reported for a run and tells every task in front of it, so that what a poller reads
/// and what a stream sends never differ: a log that has not ended gets an event of the very state that
/// the status shows as, and its artifact before it where a review is completed and persisted.
pub fn report_transition(
    tasks: &mut Vec<TaskRecord>,
    fronts: &Vec<Front>,
    id: u128,
    status: RunStatus,
    detail: Option<&str>,
    review_persisted: bool,
    now: i64,
) -> (r: Transition)
    requires
        forall|i: int|
            0 <= i < fronts@.len() && !(#[trigger] fronts@[i]).has_final ==> fronts@[i].last_seq
                <= i64::MAX - 2,
    ensures
        is_report(
            runs(old(tasks)@),
            runs(final(tasks)@),
            r.report,
            id,
            status,
            opt_str_view(detail),
            now,
        ),
        r.appended@.len() == fronts@.len(),
        forall|i: int|
            0 <= i < fronts@.len() ==> (#[trigger] r.appended@[i]).a2a_task_id
                == fronts@[i].a2a_task_id && r.appended@[i].events@ == transition_events(
                fronts@[i].last_seq,
                fronts@[i].has_final,
                state_of_status(status_name(status)),
                review_persisted,
            ),
        forall|i: int|
            0 <= i < fronts@.len() && !(#[trigger] fronts@[i]).has_final ==> {
                &&& r.appended@[i].events@.len() > 0
                &&& r.appended@[i].events@.last().body == EventBody::Status(
                    state_of_status(status_name(status)),
                )
            },
{
    let report: StatusReport = set_task_status(tasks, id, status, detail, now);
    let appended: Vec<Appended> = append_transition_events(
        fronts,
        status.as_str(),
        review_persisted,
    );
    assert forall|i: int| 0 <= i < fronts@.len() && !(#[trigger] fronts@[i]).has_final implies {
        &&& appended@[i].events@.len() > 0
        &&& appended@[i].events@.last().body == EventBody::Status(
            state_of_status(status_name(status)),
        )
    } by {
        assert(appended@[i].a2a_task_id == fronts@[i].a2a_task_id);
    }
    Transition { report, appended }
}

/// An index that ends, whether it succeeded or not, leaves no run of its repository waiting.
pub proof fn law_ended_index_strands_no_review(
    table: Seq<TaskView>,
    id: u128,
    now: i64,
    i: int,
)
    requires
        0 <= i < table.len(),
        indexed_by(table, id, table[i].repository_id),
    ensures
        changed(table, waiting_on(table, id), |t: TaskView| released(t, now))[i].status
            != RunStatus::WaitingForIndex,
{
}

/// A run that is released is never claimed before its own delay is over.
pub proof fn law_release_keeps_the_delay(t: TaskView, now: i64)
    ensures
        released(t, now).run_after >= t.run_after,
        released(t, now).run_after >= now,
{
}

/// A reason once recorded outlives every later report that has none, up to the next start.
pub proof fn law_reason_is_kept(t: TaskView, status: RunStatus, now: i64)
    requires
        status != RunStatus::Running,
    ensures
        reported(t, status, None, now).error_detail == t.error_detail,
{
}

/// Records what a run turned out to be.
pub fn set_task_kind(task: &mut TaskRecord, kind: &str)
    ensures
        final(task)@ == (TaskView { kind: kind@, ..old(task)@ }),
{
    task.kind = kind.to_owned();
}

/// The epoch of a run, where there is one; the journal of its steps is kept under it.
pub fn durable_step_run_epoch(tasks: &Vec<TaskRecord>, id: u128) -> (r: Option<i32>)
    ensures
        match r {
            Some(e) => exists|i: int|
                0 <= i < tasks@.len() && (#[trigger] tasks@[i]).id == id && tasks@[i].run_epoch
                    == e,
            None => forall|j: int| 0 <= j < tasks@.len() ==> (#[trigger] tasks@[j]).id != id,
        },
{
    match get_task(tasks, id) {
        Some(i) => Some(tasks[i].run_epoch),
        None => None,
    }
}

/// What a claimed run is launched with.
#[derive(Debug)]
pub struct ClaimedTask {
    pub id: u128,
    pub repository_id: i64,
    pub installation_id: i64,
    pub target_type: String,
    pub target_id: i64,
    pub command_text: String,
    pub base_sha: Option<String>,
    pub head_sha: Option<String>,
    pub attempts: i32,
    pub trace_context: Option<String>,
}

/// What a run is launched with.
pub fn claimed_task(t: &TaskRecord) -> (r: ClaimedTask)
    ensures
        r.id == t@.id,
        r.repository_id == t@.repository_id,
        r.installation_id == t@.installation_id,
        r.target_type@ == t@.target_type,
        r.target_id == t@.target_id,
        r.command_text@ == t@.command_text,
        opt_view(r.base_sha) == t@.base_sha,
        opt_view(r.head_sha) == t@.head_sha,
        r.attempts == t@.attempts,
        opt_view(r.trace_context) == t@.trace_context,
{
    ClaimedTask {
        id: t.id,
        repository_id: t.repository_id,
        installation_id: t.installation_id,
        target_type: t.target_type.clone(),
        target_id: t.target_id,
        command_text: t.command_text.clone(),
        base_sha: text::copy_opt(&t.base_sha),
        head_sha: text::copy_opt(&t.head_sha),
        attempts: t.attempts,
        trace_context: text::copy_opt(&t.trace_context),
    }
}

/// A run as it is shown, with the identity of its repository where that is known.
#[derive(Debug)]
pub struct TaskRow {
    pub id: u128,
    pub repository_id: i64,
    pub installation_id: i64,
    pub webhook_delivery_id: Option<String>,
    pub target_type: String,
    pub target_id: i64,
    pub command_text: String,
    pub kind: String,
    pub base_sha: Option<String>,
    pub head_sha: Option<String>,
    pub status: RunStatus,
    pub priority: i32,
    pub created_at: i64,
    pub started_at: Option<i64>,
    pub completed_at: Option<i64>,
    pub repo_owner: Option<String>,
    pub repo_name: Option<String>,
    pub repo_default_branch: Option<String>,
    pub repo_platform: Option<Platform>,
    pub job_name: Option<String>,
    pub error_detail: Option<String>,
}

/// Whether a row shows a run.
pub open spec fn shows_run(row: TaskRow, t: TaskView) -> bool {
    &&& row.id == t.id
    &&& row.repository_id == t.repository_id
    &&& row.installation_id == t.installation_id
    &&& opt_view(row.webhook_delivery_id) == t.webhook_delivery_id
    &&& row.target_type@ == t.target_type
    &&& row.target_id == t.target_id
    &&& row.command_text@ == t.command_text
    &&& row.kind@ == t.kind
    &&& opt_view(row.base_sha) == t.base_sha
    &&& opt_view(row.head_sha) == t.head_sha
    &&& row.status == t.status
    &&& row.priority == t.priority
    &&& row.created_at == t.created_at
    &&& row.started_at == t.started_at
    &&& row.completed_at == t.completed_at
    &&& opt_view(row.job_name) == t.job_name
    &&& opt_view(row.error_detail) == t.error_detail
}

/// Whether a row names a repository, or none.
pub open spec fn names_repository(row: TaskRow, repo: Option<&RepositoryRecord>) -> bool {
    match repo {
        Some(repo) => opt_view(row.repo_owner) == Some(repo.owner@) && opt_view(row.repo_name)
            == Some(repo.name@) && opt_view(row.repo_default_branch) == Some(
            repo.default_branch@,
        ) && row.repo_platform == Some(repo.platform),
        None => row.repo_owner is None && row.repo_name is None && row.repo_default_branch is None
            && row.repo_platform is None,
    }
}

/// A run as it is shown. `repo` is its repository, if that still exists.
pub fn task_row(t: &TaskRecord, repo: Option<&RepositoryRecord>) -> (r: TaskRow)
    ensures
        shows_run(r, t@),
        names_repository(r, repo),
{
    let mut repo_owner: Option<String> = None;
    let mut repo_name: Option<String> = None;
    let mut repo_default_branch: Option<String> = None;
    let mut repo_platform: Option<Platform> = None;
    if let Some(repo) = repo {
        repo_owner = Some(repo.owner.clone());
        repo_name = Some(repo.name.clone());
        repo_default_branch = Some(repo.default_branch.clone());
        repo_platform = Some(repo.platform);
    }
    TaskRow {
        id: t.id,
        repository_id: t.repository_id,
        installation_id: t.installation_id,
        webhook_delivery_id: text::copy_opt(&t.webhook_delivery_id),
        target_type: t.target_type.clone(),
        target_id: t.target_id,
        command_text: t.command_text.clone(),
        kind: t.kind.clone(),
        base_sha: text::copy_opt(&t.base_sha),
        head_sha: text::copy_opt(&t.head_sha),
        status: t.status,
        priority: t.priority,
        created_at: t.created_at,
        started_at: t.started_at,
        completed_at: t.completed_at,
        repo_owner,
        repo_name,
        repo_default_branch,
        repo_platform,
        job_name: text::copy_opt(&t.job_name),
        error_detail: text::copy_opt(&t.error_detail),
    }
}

} // verus!
