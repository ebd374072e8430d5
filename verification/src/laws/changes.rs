//! What each operation that changes something does to it, field by field, and what it leaves.

use vstd::prelude::*;

use crate::a2a::handler::admit_stream;
use crate::a2a::limits::{streams_of, HandlerLimits, StreamCounters};
use crate::a2a::model::A2aError;
use crate::db::code_chunks::delete_repo_index_rows;
use crate::db::durable_step::{
    blob_at, put_pr_open_blob, recalled, steps, upsert_durable_step, DurableStep, InvalidResult,
    PrOpenBlob,
};
use crate::db::outbox::{
    enqueue_outbox_post, mark_outbox_dead_letter, mark_outbox_failed, mark_outbox_posted, NewPost,
    OutboxRow, OutboxStatus,
};
use crate::db::pending_actions::{ActionKind, PendingBuffer, PendingInline};
use crate::db::push_notifications::{
    advance_push_delivered, bump_push_attempts, release_push_config, schedule_push_retry,
    PushConfigRow, PushState,
};
use crate::db::repositories::{
    set_repository_status_by_id, update_repository_default_branch, RepoStatus, RepositoryRecord,
};
use crate::db::reviews::{record_review_run_telemetry, RunTelemetry};
use crate::db::tasks::{
    create_task, renew_lease, runs, set_task_kind, CreatedTask, NewTask, RunStatus, TaskRecord,
};
use crate::db::webhook_deliveries::{record_delivery, Delivery};
use crate::json::Json;
use crate::laws::kept::lemma_kept;
use crate::text::opt_view;

verus! {

/// A lease is renewed exactly where the run is being worked on: it then runs from now as long as asked
/// for, and nothing else changes.
pub proof fn law_lease_is_renewed_while_work_goes_on(
    task: &mut TaskRecord,
    lease: u64,
    now: i64,
    r: bool,
)
    requires
        call_ensures(renew_lease, (task, lease, now), r),
    ensures
        r <==> old(task)@.status == RunStatus::Running || old(task)@.status
            == RunStatus::PostingResult,
        r ==> final(task)@.lease_expires_at == Some((now + lease) as i128),
        r ==> final(task)@.status == old(task)@.status && final(task)@.lease_owner
            == old(task)@.lease_owner && final(task)@.id == old(task)@.id && final(task)@.attempts
            == old(task)@.attempts,
        !r ==> final(task)@ == old(task)@,
{
}

/// The kind of a run is set, and nothing else of it.
pub proof fn law_kind_alone_is_set(task: &mut TaskRecord, kind: &str)
    requires
        call_ensures(set_task_kind, (task, kind), ()),
    ensures
        final(task)@.kind == kind@,
        final(task)@.id == old(task)@.id,
        final(task)@.status == old(task)@.status,
        final(task)@.command_text == old(task)@.command_text,
        final(task)@.priority == old(task)@.priority,
{
}

/// A request creates one run behind the others, unless one like it is there; then nothing changes.
pub proof fn law_request_creates_one_run(
    tasks: &mut Vec<TaskRecord>,
    task: &NewTask,
    id: u128,
    now: i64,
    r: Option<CreatedTask>,
)
    requires
        call_ensures(create_task, (tasks, task, id, now), r),
        task.run_after_secs is None,
    ensures
        r is None ==> runs(final(tasks)@) == runs(old(tasks)@),
        r is None ==> exists|i: int|
            0 <= i < old(tasks)@.len() && (#[trigger] runs(old(tasks)@)[i]).repository_id
                == task.repository_id && runs(old(tasks)@)[i].run_epoch == task.run_epoch,
        r matches Some(made) ==> {
            let after = runs(final(tasks)@);
            &&& made.id == id
            &&& after.len() == old(tasks)@.len() + 1
            &&& after.take(old(tasks)@.len() as int) == runs(old(tasks)@)
            &&& after.last().id == id
            &&& after.last().run_after == now
            &&& after.last().created_at == now
            &&& after.last().repository_id == task.repository_id
            &&& made.wake <==> after.last().status == RunStatus::Queued
        },
{
    let before = runs(old(tasks)@);
    if r is Some {
        assert(runs(final(tasks)@).take(before.len() as int) =~= before);
    }
}

/// A post is stored unless one of its key is there, and the table is left as it is where one is.
pub proof fn law_post_is_enqueued_once(
    rows: &mut Vec<OutboxRow>,
    post: NewPost,
    id: i64,
    now: i64,
    r: bool,
)
    requires
        call_ensures(enqueue_outbox_post, (rows, post, id, now), r),
    ensures
        r <==> forall|i: int|
            0 <= i < old(rows)@.len() ==> (#[trigger] old(rows)@[i])@.dedup_key != post.dedup_key@,
        !r ==> final(rows)@.len() == old(rows)@.len(),
        r ==> final(rows)@.len() == old(rows)@.len() + 1 && final(rows)@.last()@.id == id
            && final(rows)@.last()@.dedup_key == post.dedup_key@ && final(rows)@.last()@.status
            == OutboxStatus::Pending && final(rows)@.last()@.next_attempt_at == now,
{
    let before = crate::db::outbox::posts(old(rows)@);
    let after = crate::db::outbox::posts(final(rows)@);
    assert(after.len() == final(rows)@.len() && before.len() == old(rows)@.len());
    if r {
        assert(after[before.len() as int] == final(rows)@[before.len() as int]@);
        assert forall|i: int| 0 <= i < old(rows)@.len() implies (
        #[trigger] old(rows)@[i])@.dedup_key != post.dedup_key@ by {
            assert(before[i] == old(rows)@[i]@);
        }
    } else {
        let i = choose|i: int|
            0 <= i < before.len() && (#[trigger] before[i]).dedup_key == post.dedup_key@;
        assert(old(rows)@[i]@.dedup_key == post.dedup_key@);
    }
}

/// A post is settled or tried again as its delivery went.
pub proof fn law_post_goes_as_its_delivery_went(
    done: &mut OutboxRow,
    again: &mut OutboxRow,
    dead: &mut OutboxRow,
    ref_id: Option<i64>,
    error: &str,
    now: i64,
)
    requires
        call_ensures(mark_outbox_posted, (done, ref_id, now), ()),
        call_ensures(mark_outbox_failed, (again, error, now), ()),
        call_ensures(mark_outbox_dead_letter, (dead, error), ()),
        old(again)@.attempts == 1,
        old(dead)@.status == OutboxStatus::Pending,
    ensures
        final(done)@.status == OutboxStatus::Posted,
        final(done)@.posted_at == Some(now),
        final(done)@.platform_ref_id == ref_id,
        final(again)@.status == OutboxStatus::Pending,
        final(again)@.attempts == 2,
        final(again)@.next_attempt_at == now + 240_000_000,
        final(again)@.last_error == Some(error@),
        final(dead)@.status == OutboxStatus::Failed,
        final(dead)@.last_error == Some(error@),
{
    let tries = old(again)@.attempts + 1;
    assert(tries * tries == 4) by (nonlinear_arith)
        requires
            tries == 2,
    ;
}

/// A delivered event moves the cursor of a registration on to its number, never back, and clears its
/// failures; a release ends the lease alone; a failure counts one more; a retry waits out its backoff, or ends it.
pub proof fn law_registration_follows_its_deliveries(
    ahead: &mut PushConfigRow,
    freed: &mut PushConfigRow,
    counted: &mut PushConfigRow,
    later: &mut PushConfigRow,
    seq: i64,
    lease: u64,
    backoff: u64,
    disable: bool,
    now: i64,
    n: i32,
)
    requires
        call_ensures(advance_push_delivered, (ahead, seq, lease, now), ()),
        call_ensures(release_push_config, (freed,), ()),
        call_ensures(bump_push_attempts, (counted,), n),
        call_ensures(schedule_push_retry, (later, backoff, disable, now), ()),
    ensures
        old(ahead)@.delivered_seq < seq ==> final(ahead)@.delivered_seq == seq
            && final(ahead)@.attempts == 0 && final(ahead)@.next_attempt_at == now
            && final(ahead)@.lease_expires_at == Some((now + lease) as i128),
        old(ahead)@.delivered_seq >= seq ==> final(ahead)@ == old(ahead)@,
        final(freed)@.lease_owner is None,
        final(freed)@.lease_expires_at is None,
        final(freed)@.delivered_seq == old(freed)@.delivered_seq,
        final(freed)@.state == old(freed)@.state,
        n == old(counted)@.attempts + 1,
        final(counted)@.attempts == n,
        final(counted)@.state == old(counted)@.state,
        final(counted)@.delivered_seq == old(counted)@.delivered_seq,
        final(later)@.next_attempt_at == now + backoff,
        final(later)@.lease_owner is None,
        final(later)@.lease_expires_at is None,
        disable ==> final(later)@.state == PushState::Disabled,
        !disable ==> final(later)@.state == old(later)@.state,
{
}

/// A repository's branch and its status are set, each alone.
pub proof fn law_repository_is_changed_where_asked(
    moved: &mut RepositoryRecord,
    decided: &mut RepositoryRecord,
    branch: &str,
    by: Option<&str>,
    now: i64,
)
    requires
        call_ensures(update_repository_default_branch, (moved, branch), ()),
        call_ensures(
            set_repository_status_by_id,
            (decided, RepoStatus::Approved, by, now),
            (),
        ),
    ensures
        final(moved)@.default_branch == branch@,
        final(moved)@.status == old(moved)@.status,
        final(moved)@.owner == old(moved)@.owner,
        final(moved)@.name == old(moved)@.name,
        final(decided)@.status == RepoStatus::Approved,
        final(decided)@.approved_at == Some(now),
        by is None ==> final(decided)@.approved_by is None,
        by matches Some(name) ==> final(decided)@.approved_by == Some(name@),
        final(decided)@.default_branch == old(decided)@.default_branch,
{
}

/// A delivery is recorded unless one of its id is there, and nothing changes where one is.
pub proof fn law_delivery_is_recorded_once(table: &mut Vec<Delivery>, delivery: Delivery, r: bool)
    requires
        call_ensures(record_delivery, (table, delivery), r),
    ensures
        r <==> forall|i: int|
            0 <= i < old(table)@.len() ==> (#[trigger] old(table)@[i]).delivery_id@
                != delivery.delivery_id@,
        r ==> final(table)@ == old(table)@.push(delivery),
        !r ==> final(table)@ == old(table)@,
{
}

/// A patch is kept under its hash unless one is there, and nothing changes where one is.
pub proof fn law_patch_is_kept_once(blobs: &mut Vec<PrOpenBlob>, blob: PrOpenBlob)
    requires
        call_ensures(put_pr_open_blob, (blobs, blob), ()),
    ensures
        blob_at(old(blobs)@, blob.content_hash@) is Some ==> final(blobs)@ == old(blobs)@,
        blob_at(old(blobs)@, blob.content_hash@) is None ==> final(blobs)@ == old(blobs)@.push(blob)
            && blob_at(final(blobs)@, blob.content_hash@) == Some(blob.patch@),
{
    assert(old(blobs)@.push(blob).drop_last() =~= old(blobs)@);
}

/// A step is journaled with the value that the database read off its result; a result that is no value
/// is refused and nothing changes.
pub proof fn law_step_is_journaled_with_its_value(
    rows: &mut Vec<DurableStep>,
    task_id: u128,
    run_epoch: i32,
    step_name: &str,
    cast: Option<&str>,
    hash: &str,
    now: i64,
    r: Result<(), InvalidResult>,
)
    requires
        call_ensures(
            upsert_durable_step,
            (rows, task_id, run_epoch, step_name, cast, hash, now),
            r,
        ),
    ensures
        r is Ok <==> cast is Some,
        cast is None ==> final(rows)@ == old(rows)@,
        cast matches Some(value) ==> recalled(
            steps(final(rows)@),
            task_id,
            run_epoch,
            step_name@,
        ) == Some((Some(value@), hash@)),
{
    if cast is Some {
        crate::db::durable_step::law_journal_recalls_the_last_result(
            steps(old(rows)@),
            task_id,
            run_epoch,
            step_name@,
            cast->0@,
            hash@,
            now,
            task_id,
            run_epoch,
            step_name@,
        );
    }
}

/// Forgetting that a repository is indexed forgets its entries alone.
pub proof fn law_index_entries_of_one_repository_go(
    indexed: &mut Vec<i64>,
    repository_id: i64,
    r: usize,
    id: i64,
)
    requires
        call_ensures(delete_repo_index_rows, (indexed, repository_id), r),
    ensures
        final(indexed)@.contains(id) <==> old(indexed)@.contains(id) && id != repository_id,
        r == old(indexed)@.len() - final(indexed)@.len(),
{
    lemma_kept(old(indexed)@, |id: i64| id != repository_id, id);
}

/// How a run was set up is recorded in place of what was there, where there is such a run.
pub proof fn law_setup_is_recorded(
    run: &mut Option<RunTelemetry>,
    tools: Json,
    config: &str,
    r: bool,
)
    requires
        call_ensures(record_review_run_telemetry, (run, tools, config), r),
    ensures
        r <==> *old(run) is Some,
        *final(run) is Some <==> *old(run) is Some,
        *final(run) matches Some(t) ==> t.run_tools == Some(tools) && opt_view(t.run_config_b64)
            == Some(config@),
{
}

/// A class of what is buffered is forgotten alone, everything is forgotten together, and the verdict is
/// replaced alone.
pub proof fn law_buffer_forgets_what_is_asked(
    findings: &mut PendingBuffer,
    comments: &mut PendingBuffer,
    verdict: &mut PendingBuffer,
    all: &mut PendingBuffer,
    summed: &mut PendingBuffer,
    body: &str,
)
    requires
        call_ensures(PendingBuffer::clear_pending_action, (findings, ActionKind::Inline), ()),
        call_ensures(PendingBuffer::clear_pending_action, (comments, ActionKind::Comment), ()),
        call_ensures(PendingBuffer::clear_pending_action, (verdict, ActionKind::Summary), ()),
        call_ensures(PendingBuffer::clear_pending_review, (all,), ()),
        call_ensures(PendingBuffer::upsert_pending_summary, (summed, body), ()),
    ensures
        final(findings)@.inline.len() == 0,
        final(findings)@.comments == old(findings)@.comments,
        final(findings)@.summary == old(findings)@.summary,
        final(comments)@.comments.len() == 0,
        final(comments)@.inline == old(comments)@.inline,
        final(comments)@.summary == old(comments)@.summary,
        final(verdict)@.summary is None,
        final(verdict)@.inline == old(verdict)@.inline,
        final(verdict)@.comments == old(verdict)@.comments,
        final(all)@.inline.len() == 0 && final(all)@.comments.len() == 0 && final(all)@.summary
            is None,
        final(summed)@.summary == Some(body@),
        final(summed)@.inline == old(summed)@.inline,
        final(summed)@.comments == old(summed)@.comments,
{
}

/// A finding is buffered on its line: behind the others where the line was free, in the place of the one
/// that stood there else; no finding on another line changes.
pub proof fn law_finding_is_buffered_on_its_line(
    buffer: &mut PendingBuffer,
    finding: PendingInline,
    i: int,
)
    requires
        call_ensures(PendingBuffer::upsert_pending_inline, (buffer, finding), ()),
        0 <= i < old(buffer)@.inline.len(),
    ensures
        final(buffer)@.inline.contains(finding@),
        old(buffer)@.inline[i].file != finding@.file || old(buffer)@.inline[i].line != finding@.line
            ==> final(buffer)@.inline[i] == old(buffer)@.inline[i],
        old(buffer)@.inline[i].file == finding@.file && old(buffer)@.inline[i].line == finding@.line
            ==> final(buffer)@.inline.len() == old(buffer)@.inline.len(),
        final(buffer)@.comments == old(buffer)@.comments,
        final(buffer)@.summary == old(buffer)@.summary,
{
    let before = old(buffer)@.inline;
    let after = final(buffer)@.inline;
    if crate::db::pending_actions::line_is_free(before, finding.file@, finding.line) {
        assert(after[before.len() as int] == finding@);
    } else {
        let k = choose|k: int| #[trigger]
            crate::db::pending_actions::is_line_at(before, finding.file@, finding.line, k) && after
                == before.update(k, finding@);
        assert(after[k] == finding@);
    }
}

/// A stream is admitted exactly where its caller holds fewer than it may, and then counts for it; a
/// refused one counts for nobody.
pub proof fn law_stream_is_admitted_below_the_limit(
    counters: &mut StreamCounters,
    caller: &str,
    limits: &HandlerLimits,
    r: Result<(), A2aError>,
)
    requires
        call_ensures(admit_stream, (counters, caller, limits), r),
    ensures
        r is Ok <==> streams_of(old(counters)@, caller@) < limits.max_streams_per_caller,
        r is Ok ==> streams_of(final(counters)@, caller@) == streams_of(old(counters)@, caller@) + 1,
        r is Err ==> final(counters)@ == old(counters)@,
{
}

} // verus!
