//! Stored protocol tasks and their optimistic concurrency.
//!
//! The version of a stored row travels with the task: reading stamps it into the task's metadata, and
//! an update carries it back as the version it expects. An update whose expectation no longer holds is
//! a conflict and writes nothing, so a concurrent writer is never overwritten.

use vstd::prelude::*;

use crate::a2a::mapping::or_default;
use crate::a2a::model::{
    error_view, meta_i64, meta_integer, meta_map, meta_str, meta_text, not_found, set_meta_i64,
    state_wire, strip_meta, wire_name, A2aError, ErrorKind, ErrorView, JsonView, Metadata, Task,
    TaskState,
};
use crate::ids::{text_of_uuid, uuid_of_text};
use crate::json::Json;
use crate::order::{arranges, Key};
use crate::text::opt_str_view;
use crate::{ids, order, text};

verus! {

/// Metadata key of the caller a task belongs to.
pub const LB_CALLER: &'static str = "lb.callerId";

/// Metadata key of the skill.
pub const LB_SKILL: &'static str = "lb.skill";

/// Metadata key of the run a task fronts.
pub const LB_UNDERLYING: &'static str = "lb.underlyingTaskId";

/// Metadata key of the version a task was read at. It is never stored.
pub const LB_VERSION: &'static str = "lb.version";

/// What a caller's request needs to know of a stored task.
#[derive(Debug)]
pub struct Mapping {
    pub context_id: String,
    pub skill: String,
    /// The run the task fronts; a rejected submission has none.
    pub underlying_task_id: Option<u128>,
    /// The wire name of the state last stored.
    pub state: String,
}

/// A stored task with the columns lifted out of it.
#[derive(Debug)]
pub struct MappingRow {
    pub a2a_task_id: u128,
    pub context_id: String,
    pub caller_id: String,
    pub skill: String,
    pub underlying_task_id: Option<u128>,
    pub state: String,
    pub version: i64,
    pub task: Task,
}

/// The mathematical value of a [`MappingRow`].
pub struct RowView {
    pub a2a_task_id: u128,
    pub context_id: Seq<char>,
    pub caller_id: Seq<char>,
    pub skill: Seq<char>,
    pub underlying_task_id: Option<u128>,
    pub state: Seq<char>,
    pub version: i64,
    pub task: Task,
}

impl View for MappingRow {
    type V = RowView;

    open spec fn view(&self) -> RowView {
        RowView {
            a2a_task_id: self.a2a_task_id,
            context_id: self.context_id@,
            caller_id: self.caller_id@,
            skill: self.skill@,
            underlying_task_id: self.underlying_task_id,
            state: self.state@,
            version: self.version,
            task: self.task,
        }
    }
}

/// The view of an optional row.
pub open spec fn row_view(row: Option<MappingRow>) -> Option<RowView> {
    match row {
        Some(row) => Some(row@),
        None => None,
    }
}

/// The run a task's metadata names, if it names one.
pub open spec fn named_run(metadata: Option<Metadata>) -> Option<u128> {
    match meta_text(metadata, LB_UNDERLYING@) {
        Some(s) => uuid_of_text(s),
        None => None,
    }
}

fn underlying_of(metadata: &Option<Metadata>) -> (r: Option<u128>)
    ensures
        r == named_run(*metadata),
{
    match meta_str(metadata, LB_UNDERLYING) {
        Some(s) => ids::parse_uuid(s.as_str()),
        None => None,
    }
}

/// The error of a task whose id is no UUID.
pub open spec fn bad_id() -> ErrorView {
    error_view(ErrorKind::InvalidParams, "a2a taskId must be a uuid"@)
}

/// The row a new task is stored as, or why it cannot be stored.
pub open spec fn created_row(task: Task) -> Result<RowView, ErrorView> {
    match (uuid_of_text(task.id@), meta_text(task.metadata, LB_CALLER@)) {
        (None, _) => Err(bad_id()),
        (_, None) => Err(
            error_view(ErrorKind::Internal, "a2a store: create without lb.callerId metadata"@),
        ),
        (Some(id), Some(caller)) => Ok(
            RowView {
                a2a_task_id: id,
                context_id: task.context_id@,
                caller_id: caller,
                skill: or_default(meta_text(task.metadata, LB_SKILL@), "review"@),
                underlying_task_id: named_run(task.metadata),
                state: wire_name(task.state),
                version: 1,
                task,
            },
        ),
    }
}

/// Prepares a new task for storage at its first version.
pub fn create(task: Task) -> (r: Result<MappingRow, A2aError>)
    ensures
        (match r {
            Ok(row) => Ok(row@),
            Err(e) => Err(e@),
        }) == created_row(task),
{
    let id: u128 = match ids::parse_uuid(task.id.as_str()) {
        Some(id) => id,
        None => return Err(A2aError::new(ErrorKind::InvalidParams, "a2a taskId must be a uuid")),
    };
    let caller_id: String = match meta_str(&task.metadata, LB_CALLER) {
        Some(caller) => caller,
        None => return Err(
            A2aError::new(
                ErrorKind::Internal,
                "a2a store: create without lb.callerId metadata",
            ),
        ),
    };
    let skill: String = match meta_str(&task.metadata, LB_SKILL) {
        Some(skill) => skill,
        None => "review".to_owned(),
    };
    let underlying_task_id: Option<u128> = underlying_of(&task.metadata);
    let state: String = state_wire(task.state).to_owned();
    let context_id: String = task.context_id.clone();
    Ok(
        MappingRow {
            a2a_task_id: id,
            context_id,
            caller_id,
            skill,
            underlying_task_id,
            state,
            version: 1,
            task,
        },
    )
}

/// The version of a task just inserted; one that stood there already is an error.
pub fn created(inserted: bool, task_id: &str) -> (r: Result<i64, A2aError>)
    ensures
        match r {
            Ok(version) => inserted && version == 1,
            Err(e) => !inserted && e@ == error_view(
                ErrorKind::InvalidRequest,
                "a2a task already exists: "@ + task_id@,
            ),
        },
{
    if inserted {
        Ok(1)
    } else {
        let mut message: String = "a2a task already exists: ".to_owned();
        message.append(task_id);
        Err(A2aError { kind: ErrorKind::InvalidRequest, message })
    }
}

/// An update with the version it expects to replace.
#[derive(Debug)]
pub struct CasUpdate {
    pub a2a_task_id: u128,
    pub expected: i64,
    pub underlying_task_id: Option<u128>,
    pub state: String,
    pub task: Task,
}

/// The mathematical value of a [`CasUpdate`].
pub struct UpdateView {
    pub a2a_task_id: u128,
    pub expected: i64,
    pub underlying_task_id: Option<u128>,
    pub state: Seq<char>,
    pub task: Task,
}

impl View for CasUpdate {
    type V = UpdateView;

    open spec fn view(&self) -> UpdateView {
        UpdateView {
            a2a_task_id: self.a2a_task_id,
            expected: self.expected,
            underlying_task_id: self.underlying_task_id,
            state: self.state@,
            task: self.task,
        }
    }
}

/// The error of an update that does not say which version it expects.
pub open spec fn no_expected_version() -> ErrorView {
    error_view(
        ErrorKind::Internal,
        "a2a store: update without an expected version (call get first)"@,
    )
}

/// Prepares an update: the expected version is read off the task, and does not go into storage.
pub fn prepare_update(task: Task) -> (r: Result<CasUpdate, A2aError>)
    ensures
        match (uuid_of_text(task.id@), meta_integer(task.metadata, LB_VERSION@)) {
            (None, _) => r matches Err(e) && e@ == bad_id(),
            (_, None) => r matches Err(e) && e@ == no_expected_version(),
            (Some(id), Some(expected)) => r matches Ok(u) && {
                &&& u.a2a_task_id == id
                &&& u.expected == expected
                &&& u.underlying_task_id == named_run(task.metadata)
                &&& u.state@ == wire_name(task.state)
                &&& u.task.id == task.id
                &&& u.task.context_id == task.context_id
                &&& u.task.state == task.state
                &&& u.task.artifacts == task.artifacts
                &&& meta_map(u.task.metadata) == meta_map(task.metadata).remove(LB_VERSION@)
            },
        },
{
    let id: u128 = match ids::parse_uuid(task.id.as_str()) {
        Some(id) => id,
        None => return Err(A2aError::new(ErrorKind::InvalidParams, "a2a taskId must be a uuid")),
    };
    let expected: i64 = match meta_i64(&task.metadata, LB_VERSION) {
        Some(v) => v,
        None => return Err(
            A2aError::new(
                ErrorKind::Internal,
                "a2a store: update without an expected version (call get first)",
            ),
        ),
    };
    let underlying_task_id: Option<u128> = underlying_of(&task.metadata);
    let state: String = state_wire(task.state).to_owned();
    let stored = Task { metadata: strip_meta(task.metadata, LB_VERSION), ..task };
    Ok(CasUpdate { a2a_task_id: id, expected, underlying_task_id, state, task: stored })
}

/// The error of a lost race.
pub open spec fn conflict() -> ErrorView {
    error_view(
        ErrorKind::InvalidRequest,
        "optimistic-concurrency conflict: the task was modified concurrently; re-read and retry"@,
    )
}

/// A row after an update that found the version it expected.
pub open spec fn advanced(row: RowView, u: UpdateView) -> RowView {
    RowView {
        underlying_task_id: if u.underlying_task_id is Some {
            u.underlying_task_id
        } else {
            row.underlying_task_id
        },
        state: u.state,
        version: (row.version + 1) as i64,
        task: u.task,
        ..row
    }
}

/// What storage holds after an update, and what the update is answered.
pub open spec fn compared_and_set(row: Option<RowView>, u: UpdateView) -> (
    Option<RowView>,
    Result<i64, ErrorView>,
) {
    match row {
        None => (None, Err(not_found(text_of_uuid(u.a2a_task_id)))),
        Some(row) => if row.version == u.expected {
            (Some(advanced(row, u)), Ok((row.version + 1) as i64))
        } else {
            (Some(row), Err(conflict()))
        },
    }
}

/// Applies an update to the row of its id, if there is one: it takes effect where the row still has the
/// expected version, and is a conflict that changes nothing where it has not.
pub fn update(row: &mut Option<MappingRow>, u: CasUpdate) -> (r: Result<i64, A2aError>)
    requires
        row_view(*old(row)) matches Some(found) ==> found.version < i64::MAX,
    ensures
        (
            row_view(*final(row)),
            match r {
                Ok(version) => Ok(version),
                Err(e) => Err(e@),
            },
        ) == compared_and_set(row_view(*old(row)), u@),
{
    match row.take() {
        None => {
            let id: String = ids::uuid_text(u.a2a_task_id);
            Err(A2aError::task_not_found(id.as_str()))
        },
        Some(found) => {
            if found.version == u.expected {
                let version: i64 = found.version + 1;
                let underlying_task_id: Option<u128> = match u.underlying_task_id {
                    Some(id) => Some(id),
                    None => found.underlying_task_id,
                };
                *row = Some(
                    MappingRow {
                        underlying_task_id,
                        state: u.state,
                        version,
                        task: u.task,
                        ..found
                    },
                );
                Ok(version)
            } else {
                *row = Some(found);
                Err(
                    A2aError::new(
                        ErrorKind::InvalidRequest,
                        "optimistic-concurrency conflict: the task was modified concurrently; re-read and retry",
                    ),
                )
            }
        },
    }
}

/// No update is lost: of two updates that expect the same version, in whatever order they arrive, the
/// first takes effect, and the second is a conflict that leaves the first one's row as it is.
pub proof fn law_no_lost_update(row: RowView, first: UpdateView, second: UpdateView)
    requires
        row.version < i64::MAX,
        first.expected == row.version,
        second.expected == row.version,
    ensures
        ({
            let (won, answer) = compared_and_set(Some(row), first);
            &&& answer == Ok::<i64, ErrorView>((row.version + 1) as i64)
            &&& won == Some(advanced(row, first))
            &&& compared_and_set(won, second) == (won, Err::<i64, ErrorView>(conflict()))
        }),
{
}

/// A writer that reads again after losing a race can take effect: its update expects the version that
/// the winner left.
pub proof fn law_retry_after_conflict_succeeds(row: RowView, winner: UpdateView, retry: UpdateView)
    requires
        row.version < i64::MAX - 1,
        winner.expected == row.version,
        retry.expected == advanced(row, winner).version,
    ensures
        compared_and_set(compared_and_set(Some(row), winner).0, retry).1 == Ok::<i64, ErrorView>(
            (row.version + 2) as i64,
        ),
{
}

/// The metadata a stored task is read with: the run comes from the row's column, so that a run deleted
/// meanwhile is not named any more, and the version is the row's.
pub open spec fn stamped_metadata(row: RowView) -> Map<Seq<char>, JsonView> {
    let stored = meta_map(row.task.metadata);
    let named = match row.underlying_task_id {
        Some(id) => stored.insert(LB_UNDERLYING@, JsonView::Str(text_of_uuid(id))),
        None => stored.remove(LB_UNDERLYING@),
    };
    named.insert(LB_VERSION@, JsonView::Int(row.version))
}

/// A task that was stored is read back: the task itself, at the first version, with every entry of its
/// metadata but those that the store stamps, and it belongs to the caller that it named.
pub proof fn law_created_task_reads_back(task: Task, key: Seq<char>)
    requires
        created_row(task) is Ok,
        key != LB_UNDERLYING@,
        key != LB_VERSION@,
    ensures
        ({
            let row = created_row(task)->Ok_0;
            let read = stamped_metadata(row);
            &&& row.task == task
            &&& Some(row.caller_id) == meta_text(task.metadata, LB_CALLER@)
            &&& read.dom().contains(key) == meta_map(task.metadata).dom().contains(key)
            &&& read[key] == meta_map(task.metadata)[key]
            &&& read[LB_VERSION@] == JsonView::Int(1)
        }),
{
}

/// Reads a stored task, stamped so that an update of it expects this row's version and names this
/// row's run.
pub fn get(row: MappingRow) -> (r: Task)
    ensures
        r.id == row.task.id,
        r.context_id == row.task.context_id,
        r.state == row.task.state,
        r.artifacts == row.task.artifacts,
        meta_map(r.metadata) == stamped_metadata(row@),
        meta_integer(r.metadata, LB_VERSION@) == Some(row.version),
        named_run(r.metadata) == row.underlying_task_id,
{
    let task: Task = row.task;
    let named: Option<Metadata> = match row.underlying_task_id {
        Some(id) => {
            let base = match task.metadata {
                Some(m) => m,
                None => Metadata::new(),
            };
            Some(base.insert(LB_UNDERLYING, Json::Str(ids::uuid_text(id))))
        },
        None => strip_meta(task.metadata, LB_UNDERLYING),
    };
    let metadata = set_meta_i64(named, LB_VERSION, row.version);
    proof {
        reveal_strlit("lb.underlyingTaskId");
        reveal_strlit("lb.version");
        assert(LB_UNDERLYING@.len() != LB_VERSION@.len());
    }
    Task { metadata, ..task }
}

/// The mapping of a task for the caller that owns it; anyone else sees nothing, as if it were not
/// there.
pub fn load_owned(row: Option<MappingRow>, caller_id: &str) -> (r: Option<Mapping>)
    ensures
        r is Some <==> row is Some && row->0.caller_id@ == caller_id@,
        r matches Some(m) ==> {
            &&& m.context_id@ == row->0.context_id@
            &&& m.skill@ == row->0.skill@
            &&& m.underlying_task_id == row->0.underlying_task_id
            &&& m.state@ == row->0.state@
        },
{
    match row {
        Some(row) => {
            if text::same(row.caller_id.as_str(), caller_id) {
                Some(
                    Mapping {
                        context_id: row.context_id,
                        skill: row.skill,
                        underlying_task_id: row.underlying_task_id,
                        state: row.state,
                    },
                )
            } else {
                None
            }
        },
        None => None,
    }
}

/// Whether a stored task belongs in a listing for a context and a state, where given.
pub fn list_matches(row: &MappingRow, context_id: Option<&str>, status: Option<TaskState>) -> (r:
    bool)
    ensures
        r == ((context_id is Some ==> row.context_id@ == opt_str_view(context_id)->0) && (
        status matches Some(s) ==> row.state@ == wire_name(s))),
{
    let context_ok: bool = match context_id {
        Some(c) => text::same(row.context_id.as_str(), c),
        None => true,
    };
    let status_ok: bool = match status {
        Some(s) => text::same(row.state.as_str(), state_wire(s)),
        None => true,
    };
    context_ok && status_ok
}

/// A stored task with the time at which it was stored.
#[derive(Debug)]
pub struct StoredTask {
    pub row: MappingRow,
    pub created_at: i64,
}

/// The stored tasks that belong in a listing.
pub open spec fn listed(
    tasks: Seq<StoredTask>,
    context_id: Option<Seq<char>>,
    status: Option<TaskState>,
) -> Seq<bool> {
    Seq::new(
        tasks.len(),
        |i: int|
            (context_id matches Some(c) ==> tasks[i].row.context_id@ == c) && (
            status matches Some(s) ==> tasks[i].row.state@ == wire_name(s)),
    )
}

/// Stored tasks by age, the newest first; of several that are as old, the greatest id comes first.
pub open spec fn newest_first(tasks: Seq<StoredTask>) -> Seq<Key> {
    Seq::new(
        tasks.len(),
        |i: int|
            Key {
                major: (-tasks[i].created_at) as i128,
                minor: 0,
                id: (u128::MAX - tasks[i].row.a2a_task_id) as u128,
            },
    )
}

/// A listing: the places of the tasks in it, and how many they are.
#[derive(Debug)]
pub struct Listing {
    pub rows: Vec<usize>,
    pub total: usize,
}

/// Lists the stored tasks of a context and in a state, where given, the newest first.
pub fn list(tasks: &Vec<StoredTask>, context_id: Option<&str>, status: Option<TaskState>) -> (r: Listing)
    ensures
        arranges(r.rows@, listed(tasks@, opt_str_view(context_id), status), newest_first(tasks@)),
        r.total == r.rows@.len(),
{
    let mut selected: Vec<bool> = Vec::new();
    let mut keys: Vec<Key> = Vec::new();
    let mut i: usize = 0;
    while i < tasks.len()
        invariant
            i <= tasks@.len(),
            selected@ =~= listed(tasks@, opt_str_view(context_id), status).take(i as int),
            keys@ =~= newest_first(tasks@).take(i as int),
        decreases tasks@.len() - i,
    {
        let t = &tasks[i];
        selected.push(list_matches(&t.row, context_id, status));
        keys.push(
            Key {
                major: -(t.created_at as i128),
                minor: 0,
                id: u128::MAX - t.row.a2a_task_id,
            },
        );
        i = i + 1;
    }
    assert(selected@ =~= listed(tasks@, opt_str_view(context_id), status));
    assert(keys@ =~= newest_first(tasks@));
    let rows: Vec<usize> = order::arrange(&selected, &keys);
    let total: usize = rows.len();
    Listing { rows, total }
}

/// An earlier submission, as the quota sees it. Times are microseconds.
#[derive(Debug)]
pub struct Submission {
    pub caller_id: String,
    pub skill: String,
    pub state: String,
    pub created_at: i64,
}

/// Whether a submission counts toward a caller's quota: it is theirs, for the skill, within the
/// window, and was not rejected, since a rejection launches no run.
pub open spec fn counts(
    s: Submission,
    caller_id: Seq<char>,
    skill: Seq<char>,
    window_secs: i64,
    now: i64,
) -> bool {
    &&& s.caller_id@ == caller_id
    &&& s.skill@ == skill
    &&& s.created_at > now - window_secs * 1_000_000
    &&& s.state@ != wire_name(TaskState::Rejected)
}

/// How many submissions count toward a caller's quota.
pub fn count_recent(
    submissions: &Vec<Submission>,
    caller_id: &str,
    skill: &str,
    window_secs: i64,
    now: i64,
) -> (r: usize)
    ensures
        r == submissions@.filter(
            |s: Submission| counts(s, caller_id@, skill@, window_secs, now),
        ).len(),
{
    let ghost p = |s: Submission| counts(s, caller_id@, skill@, window_secs, now);
    let since: i128 = now as i128 - window_secs as i128 * 1_000_000;
    let mut n: usize = 0;
    let mut i: usize = 0;
    proof {
        reveal(Seq::filter);
        assert(submissions@.take(0) =~= Seq::empty());
    }
    while i < submissions.len()
        invariant
            i <= submissions@.len(),
            n <= i,
            since == now - window_secs * 1_000_000,
            p == (|s: Submission| counts(s, caller_id@, skill@, window_secs, now)),
            n == submissions@.take(i as int).filter(p).len(),
        decreases submissions@.len() - i,
    {
        let s = &submissions[i];
        proof {
            reveal(Seq::filter);
            assert(submissions@.take(i + 1).drop_last() =~= submissions@.take(i as int));
            assert(submissions@.take(i + 1).last() == submissions@[i as int]);
        }
        if text::same(s.caller_id.as_str(), caller_id) && text::same(s.skill.as_str(), skill) && (
        s.created_at as i128) > since && !text::same(
            s.state.as_str(),
            state_wire(TaskState::Rejected),
        ) {
            n = n + 1;
        }
        i = i + 1;
    }
    assert(submissions@.take(i as int) =~= submissions@);
    n
}

} // verus!
