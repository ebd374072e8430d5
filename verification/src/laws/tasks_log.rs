//! The stored tasks of callers and their logs.

use vstd::prelude::*;

use crate::a2a::auth::{caller, carries, setting_or, token_of, Claims, IdentityHeaders};
use crate::a2a::events::{
    append_terminal_status, is_update_of, terminal_events, transition_events, Event, EventBody,
    Front, StreamBody, StreamUpdate,
};
use crate::a2a::handler::{cancel_task, get_task, over_cap, scope_refusal, Cancellation};
use crate::a2a::lifecycle::{CallerCtx, ReviewRecord, RunRow};
use crate::a2a::model::{meta_text, A2aError, Artifact, ErrorKind, JsonView, Task, TaskState};
use crate::a2a::store::{
    compared_and_set, counts, created_row, list, load_owned, stamped_metadata, Listing, Mapping,
    MappingRow, RowView, StoredTask, Submission, UpdateView,
};
use crate::ids::{text_of_uuid, uuid_of_text};
use crate::text::{opt_str_view, trimmed, views};

verus! {

/// A change of a run's state appends to an open log one event of that state, numbered on from its end,
/// which is final exactly where the state is one of the four ends; a completed review that is persisted
/// appends its artifact right before it. A log that has its final event gets nothing.
pub proof fn law_transition_is_logged_once(
    last_seq: i64,
    has_final: bool,
    state: TaskState,
    review_persisted: bool,
)
    requires
        last_seq <= i64::MAX - 2,
    ensures
        ({
            let events = transition_events(last_seq, has_final, state, review_persisted);
            let with_artifact = state == TaskState::Completed && review_persisted;
            &&& has_final ==> events.len() == 0
            &&& !has_final ==> events.len() == (if with_artifact {
                2int
            } else {
                1int
            })
            &&& forall|i: int|
                0 <= i < events.len() ==> (#[trigger] events[i]).seq == last_seq + 1 + i
            &&& !has_final ==> events.last().body == EventBody::Status(state)
            &&& !has_final ==> (events.last().is_final <==> state == TaskState::Completed || state
                == TaskState::Failed || state == TaskState::Canceled || state
                == TaskState::Rejected)
            &&& !has_final && with_artifact ==> events[0].body == EventBody::Artifact
                && !events[0].is_final
        }),
{
}

/// An outcome that no run reports ends an open log with one final event of that state, numbered on from
/// its end; a log that has ended gets nothing.
pub proof fn law_outcome_ends_the_log(last_seq: i64, has_final: bool, state: TaskState, r: Vec<Event>)
    requires
        last_seq < i64::MAX,
        call_ensures(append_terminal_status, (last_seq, has_final, state), r),
    ensures
        has_final ==> r@.len() == 0,
        !has_final ==> r@.len() == 1 && r@[0].seq == last_seq + 1 && r@[0].is_final && r@[0].body
            == EventBody::Status(state),
        r@ == terminal_events(last_seq, has_final, state),
{
}

/// What an event sends names its task and carries the state or the artifact of that event.
pub proof fn law_update_carries_its_event(
    update: StreamUpdate,
    front: Front,
    event: Event,
    artifact: Option<Artifact>,
)
    requires
        is_update_of(update, front, event, artifact),
    ensures
        update.task_id@ == text_of_uuid(front.a2a_task_id),
        update.context_id@ == front.context_id@,
        event.body matches EventBody::Status(s) ==> update.body == StreamBody::Status(s)
            && update.last_chunk is None,
        event.body is Artifact ==> artifact is Some && update.body == StreamBody::Artifact(
            artifact->0,
        ) && update.last_chunk == Some(true),
{
}

/// An update takes effect exactly where the row still has the version it expects: the version goes up by
/// one, state and task are the new ones, a run that it names replaces the row's and one that it does not
/// name is kept, and whose task it is stays. Anything else changes nothing and is told so.
pub proof fn law_update_takes_effect_by_version(row: RowView, u: UpdateView)
    requires
        row.version < i64::MAX,
    ensures
        ({
            let (after, answer) = compared_and_set(Some(row), u);
            &&& row.version == u.expected ==> {
                &&& answer is Ok && answer->Ok_0 == row.version + 1
                &&& after is Some
                &&& after->0.version == row.version + 1
                &&& after->0.state == u.state
                &&& after->0.task == u.task
                &&& u.underlying_task_id is Some ==> after->0.underlying_task_id
                    == u.underlying_task_id
                &&& u.underlying_task_id is None ==> after->0.underlying_task_id
                    == row.underlying_task_id
                &&& after->0.caller_id == row.caller_id && after->0.a2a_task_id == row.a2a_task_id
                &&& after->0.context_id == row.context_id && after->0.skill == row.skill
            }
            &&& row.version != u.expected ==> after == Some(row) && answer is Err
                && answer->Err_0.kind == ErrorKind::InvalidRequest
        }),
        compared_and_set(None, u).0 is None,
        compared_and_set(None, u).1 is Err,
        compared_and_set(None, u).1->Err_0.kind == ErrorKind::TaskNotFound,
{
}

/// A new task is stored at the first version, under the caller and the run that its metadata names.
pub proof fn law_new_task_is_stored_as_it_is(task: Task)
    ensures
        created_row(task) is Ok <==> uuid_of_text(task.id@) is Some && meta_text(
            task.metadata,
            "lb.callerId"@,
        ) is Some,
        created_row(task) matches Ok(row) ==> {
            &&& Some(row.a2a_task_id) == uuid_of_text(task.id@)
            &&& Some(row.caller_id) == meta_text(task.metadata, "lb.callerId"@)
            &&& row.context_id == task.context_id@
            &&& row.version == 1
            &&& row.task == task
            &&& meta_text(task.metadata, "lb.skill"@) is Some ==> Some(row.skill) == meta_text(
                task.metadata,
                "lb.skill"@,
            )
            &&& meta_text(task.metadata, "lb.skill"@) is None ==> row.skill == "review"@
            &&& meta_text(task.metadata, "lb.underlyingTaskId"@) is Some ==> row.underlying_task_id
                == uuid_of_text(meta_text(task.metadata, "lb.underlyingTaskId"@)->0)
            &&& meta_text(task.metadata, "lb.underlyingTaskId"@) is None ==> row.underlying_task_id
                is None
        },
{
}

/// A task is read with the version of its row and with the run of its row, or none.
pub proof fn law_read_task_carries_its_version(row: RowView)
    ensures
        ({
            let m = stamped_metadata(row);
            &&& m.dom().contains("lb.version"@) && m["lb.version"@] == JsonView::Int(row.version)
            &&& row.underlying_task_id is Some ==> m.dom().contains("lb.underlyingTaskId"@)
                && m["lb.underlyingTaskId"@] == JsonView::Str(
                text_of_uuid(row.underlying_task_id->0),
            )
            &&& row.underlying_task_id is None ==> !m.dom().contains("lb.underlyingTaskId"@)
        }),
{
    reveal_strlit("lb.version");
    reveal_strlit("lb.underlyingTaskId");
    assert("lb.version"@[3] == 'v');
    assert("lb.underlyingTaskId"@[3] == 'u');
}

/// A task is there for its owner alone.
pub proof fn law_task_is_there_for_its_owner(
    row: Option<MappingRow>,
    caller_id: &str,
    r: Option<Mapping>,
)
    requires
        call_ensures(load_owned, (row, caller_id), r),
    ensures
        row is None ==> r is None,
        row is Some && row->0.caller_id@ != caller_id@ ==> r is None,
        row is Some && row->0.caller_id@ == caller_id@ ==> r is Some && r->0.context_id@
            == row->0.context_id@ && r->0.underlying_task_id == row->0.underlying_task_id
            && r->0.state@ == row->0.state@ && r->0.skill@ == row->0.skill@,
{
}

/// A submission counts toward the quota exactly where it is the caller's, for that skill, not rejected,
/// and younger than the window.
pub proof fn law_submission_counts_within_the_window(
    s: Submission,
    caller_id: Seq<char>,
    skill: Seq<char>,
    window_secs: i64,
    now: i64,
)
    ensures
        counts(s, caller_id, skill, window_secs, now) <==> s.caller_id@ == caller_id && s.skill@
            == skill && now - s.created_at < window_secs * 1_000_000 && s.state@
            != "TASK_STATE_REJECTED"@,
{
}

/// A listing holds the stored tasks of the context and the state that were asked for, the newest first,
/// and their number.
pub proof fn law_listing_is_newest_first(
    tasks: &Vec<StoredTask>,
    context_id: Option<&str>,
    status: Option<TaskState>,
    r: Listing,
    i: int,
)
    requires
        call_ensures(list, (tasks, context_id, status), r),
        0 <= i < tasks@.len(),
    ensures
        r.total == r.rows@.len(),
        forall|a: int, b: int|
            0 <= a < b < r.rows@.len() ==> r.rows@[a] != r.rows@[b] && tasks@[(
            #[trigger] r.rows@[a]) as int].created_at >= tasks@[(
            #[trigger] r.rows@[b]) as int].created_at,
        (exists|a: int| 0 <= a < r.rows@.len() && #[trigger] r.rows@[a] == i) <==> (context_id
            is None || tasks@[i].row.context_id@ == context_id->0@) && (status is None
            || tasks@[i].row.state@ == crate::a2a::model::wire_name(status->0)),
{
    let selected = crate::a2a::store::listed(tasks@, opt_str_view(context_id), status);
    if exists|a: int| 0 <= a < r.rows@.len() && #[trigger] r.rows@[a] == i {
        let a = choose|a: int| 0 <= a < r.rows@.len() && #[trigger] r.rows@[a] == i;
        assert(selected[r.rows@[a] as int]);
    }
    if (context_id is None || tasks@[i].row.context_id@ == context_id->0@) && (status is None
        || tasks@[i].row.state@ == crate::a2a::model::wire_name(status->0)) {
        assert(selected[i]);
    }
    assert forall|a: int, b: int| 0 <= a < b < r.rows@.len() implies r.rows@[a] != r.rows@[b]
        && tasks@[(#[trigger] r.rows@[a]) as int].created_at >= tasks@[(
    #[trigger] r.rows@[b]) as int].created_at by {
        assert(r.rows@[a] < selected.len() && r.rows@[b] < selected.len());
    }
}

/// Reading a task answers its owner with the state it has now, and everybody else that it is not there; a
/// review is shown exactly once it is completed and persisted.
pub proof fn law_read_answers_the_owner(
    id: &str,
    owned: Option<Mapping>,
    run: &Option<RunRow>,
    review: Option<ReviewRecord>,
    r: Result<Task, A2aError>,
)
    requires
        call_ensures(get_task, (id, owned, run, review), r),
        uuid_of_text(id@) is Some,
    ensures
        r is Ok <==> owned is Some,
        r is Err ==> r->Err_0@.kind == ErrorKind::TaskNotFound,
        r matches Ok(task) ==> task.id@ == id@ && task.context_id@ == owned->0.context_id@,
        r matches Ok(task) ==> owned->0.underlying_task_id is Some && *run is Some
            && run->0.status@ == "succeeded"@ ==> task.state == TaskState::Completed && (
        task.artifacts is Some <==> review is Some),
        r matches Ok(task) ==> owned->0.underlying_task_id is Some && *run is Some
            && run->0.status@ != "succeeded"@ ==> task.artifacts is None,
{
    crate::laws::submissions::law_status_shows_as_its_state("succeeded"@);
    if *run is Some {
        crate::laws::submissions::law_status_shows_as_its_state(run->0.status@);
    }
}

/// A task is cancelled for its owner unless it is over, and its run with it; what is over, and what is
/// someone else's, is refused.
pub proof fn law_cancellation_spares_what_is_over(
    id: &str,
    owned: Option<Mapping>,
    run: &Option<RunRow>,
    r: Result<Cancellation, A2aError>,
)
    requires
        call_ensures(cancel_task, (id, owned, run), r),
        uuid_of_text(id@) is Some,
    ensures
        owned is None ==> r is Err && r->Err_0@.kind == ErrorKind::TaskNotFound,
        owned is Some && owned->0.underlying_task_id is Some && *run is Some && (run->0.status@
            == "succeeded"@ || run->0.status@ == "failed"@ || run->0.status@ == "timed_out"@
            || run->0.status@ == "cancelled"@) ==> r is Err && r->Err_0@.kind
            == ErrorKind::TaskNotCancelable,
        owned is Some && owned->0.underlying_task_id is Some && *run is Some && run->0.status@
            != "succeeded"@ && run->0.status@ != "failed"@ && run->0.status@ != "timed_out"@
            && run->0.status@ != "cancelled"@ ==> r is Ok,
        r matches Ok(c) ==> Some(c.a2a_task_id) == uuid_of_text(id@) && c.underlying_task_id
            == owned->0.underlying_task_id && c.task.state == TaskState::Canceled
            && c.context_id@ == owned->0.context_id@,
{
    if *run is Some {
        crate::a2a::mapping::law_only_finished_statuses_are_terminal(run->0.status@);
    }
}

/// A request about webhooks is for a task of the caller's own and no tenant; a caller below the cap may
/// register one more.
pub proof fn law_webhooks_are_for_ones_own_task(
    tenant: bool,
    task_id: Seq<char>,
    owned: bool,
    active: i64,
    cap: i64,
)
    ensures
        scope_refusal(tenant, task_id, owned) is None <==> !tenant && owned && uuid_of_text(task_id)
            is Some,
        tenant ==> scope_refusal(tenant, task_id, owned)->0.kind
            == ErrorKind::UnsupportedOperation,
        !tenant && scope_refusal(tenant, task_id, owned) is Some ==> scope_refusal(
            tenant,
            task_id,
            owned,
        )->0.kind == ErrorKind::TaskNotFound,
        over_cap(active, cap).kind == ErrorKind::InvalidParams,
{
}

/// The token of a request is what stands behind `Bearer` and a space, and nothing else is one.
pub proof fn law_token_follows_bearer(token: Seq<char>, header: Seq<char>)
    ensures
        token_of(Some("Bearer "@ + token)) == Some(token),
        token_of(Some(header)) matches Some(t) ==> header == "Bearer "@ + t,
        token_of(None) is None,
{
    let whole = "Bearer "@ + token;
    assert(whole.subrange(0, "Bearer "@.len() as int) =~= "Bearer "@);
    assert(whole.skip("Bearer "@.len() as int) =~= token);
    if token_of(Some(header)) is Some {
        let t = header.skip("Bearer "@.len() as int);
        assert(header =~= header.subrange(0, "Bearer "@.len() as int) + t);
    }
}

/// A request is let in under the subject of its token and no other name.
pub proof fn law_request_is_let_in_under_its_subject(h: IdentityHeaders, claims: Claims)
    requires
        carries(h, claims),
    ensures
        h.caller@ == claims.sub@,
{
}

/// The caller is who the header says, and there is none without a name.
pub proof fn law_caller_is_named_by_the_header(
    id: Option<&str>,
    perms: Option<&str>,
    r: Result<CallerCtx, A2aError>,
)
    requires
        call_ensures(caller, (id, perms), r),
    ensures
        r is Ok <==> id is Some && id->0@.len() > 0,
        r matches Ok(c) ==> c.id@ == id->0@,
        perms is None ==> (r matches Ok(c) ==> c.perms@.len() == 0),
        r matches Err(e) ==> e@.kind == ErrorKind::Internal,
{
    if perms is None && r is Ok {
        assert(views(r->Ok_0.perms@).len() == 0);
    }
}

/// A setting stands unless it is blank.
pub proof fn law_blank_setting_is_none(value: Seq<char>, default: Seq<char>)
    ensures
        trimmed(value).len() > 0 ==> setting_or(Some(value), default) == value,
        trimmed(value).len() == 0 ==> setting_or(Some(value), default) == default,
        setting_or(None, default) == default,
{
}

} // verus!
