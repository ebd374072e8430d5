//! How runs are created, held back, claimed, given back, cancelled, reported and found.

use vstd::prelude::*;

use crate::db::repositories::RepositoryRecord;
use crate::db::search::law_plain_query_is_found_anywhere;
use crate::db::tasks::{
    active_for_pr, active_for_repo, by_id, by_start, by_urgency, cancelable, cancelled, changed,
    claimable, claimed, delay_of, expired, first_status, holds_repeat, index_run, is_active_index,
    is_cancellation, is_leased, is_next_epoch, is_page, is_report, latest_first, listed,
    lists_reapable, new_run, released, repeated, repeats, reported, reportable, reports_check,
    requeued, selected_ids, status_name, status_of, superseded, task_hits, waiting_on, wakes,
    with_job, NewTaskView, ReapableTask, RunStatus, StatusReport, TaskView, TasksPage,
    TasksPageFilter,
};
use crate::order::{arranges, is_first};
use crate::text::{decimal, lowercase_of, opt_view};

verus! {

/// While an index run of its repository is queued, running, posting or itself waiting, a new run of any
/// other command is held back, and else it is queued; an index run is always queued.
pub proof fn law_new_run_waits_for_a_pending_index(
    table: Seq<TaskView>,
    new: NewTaskView,
    id: u128,
    epoch: i32,
    run_after: i128,
    now: i64,
)
    ensures
        ({
            let run = new_run(table, new, id, epoch, run_after, now);
            let pending = exists|i: int|
                0 <= i < table.len() && (#[trigger] table[i]).repository_id == new.repository_id
                    && table[i].command_text == "index"@ && (table[i].status == RunStatus::Queued
                    || table[i].status == RunStatus::Running || table[i].status
                    == RunStatus::PostingResult || table[i].status == RunStatus::WaitingForIndex);
            &&& new.command_text != "index"@ && pending ==> run.status == RunStatus::WaitingForIndex
            &&& new.command_text != "index"@ && !pending ==> run.status == RunStatus::Queued
            &&& new.command_text == "index"@ ==> run.status == RunStatus::Queued
            &&& first_status(table, new.repository_id, new.command_text) == run.status
        }),
{
}

/// A new run is what was asked for: every field of the request, as a review of the common priority that
/// nobody has tried, started, leased or finished.
pub proof fn law_new_run_is_what_was_asked_for(
    table: Seq<TaskView>,
    new: NewTaskView,
    id: u128,
    epoch: i32,
    run_after: i128,
    now: i64,
)
    ensures
        ({
            let run = new_run(table, new, id, epoch, run_after, now);
            &&& run.id == id
            &&& run.run_epoch == epoch
            &&& run.run_after == run_after
            &&& run.created_at == now
            &&& run.repository_id == new.repository_id
            &&& run.installation_id == new.installation_id
            &&& run.webhook_delivery_id == Some(new.webhook_delivery_id)
            &&& run.target_type == new.target_type
            &&& run.target_id == new.target_id
            &&& run.command_text == new.command_text
            &&& run.base_sha == new.base_sha
            &&& run.head_sha == new.head_sha
            &&& run.preset == new.preset
            &&& run.entry_point == new.entry_point
            &&& run.trigger_comment_id == new.trigger_comment_id
            &&& run.trace_context == new.trace_context
            &&& run.model_override == new.model_override
            &&& run.check_runs_enabled == new.check_runs_enabled
            &&& run.kind == "review"@
            &&& run.priority == 100
            &&& run.attempts == 0
            &&& run.started_at is None && run.completed_at is None
            &&& run.lease_owner is None && run.lease_expires_at is None
            &&& run.job_name is None && run.error_detail is None
            &&& run.check_run_external_id is None
        }),
{
}

/// A dispatcher is woken for a new run exactly where one could claim it at once; a delay in seconds is
/// kept to the microsecond.
pub proof fn law_dispatcher_is_woken_for_what_it_can_claim(
    status: RunStatus,
    new: NewTaskView,
    now: i64,
)
    requires
        new.run_after_secs matches Some(secs) ==> secs <= i64::MAX,
    ensures
        ({
            let secs = if new.run_after_secs is Some {
                new.run_after_secs->0 as int
            } else {
                0int
            };
            let run_after = now + delay_of(new) * 1_000_000;
            &&& run_after == now + secs * 1_000_000
            &&& wakes(status, new.run_after_secs is Some && new.run_after_secs->0 > 0) <==> status
                == RunStatus::Queued && run_after <= now
        }),
{
}

/// A request is taken for a repeat exactly where a run has its repository, target type, target, command,
/// head and epoch, all six.
pub proof fn law_request_is_a_repeat_by_all_of_its_key(table: Seq<TaskView>, new: NewTaskView)
    ensures
        holds_repeat(table, new) <==> exists|i: int|
            0 <= i < table.len() && (#[trigger] table[i]).repository_id == new.repository_id
                && table[i].target_type == new.target_type && table[i].target_id == new.target_id
                && table[i].command_text == new.command_text && table[i].head_sha == new.head_sha
                && table[i].run_epoch == new.run_epoch,
{
    if holds_repeat(table, new) {
        let i = choose|i: int| 0 <= i < table.len() && repeats(#[trigger] table[i], new);
        assert(table[i].run_epoch == new.run_epoch);
    }
    if exists|i: int|
        0 <= i < table.len() && (#[trigger] table[i]).repository_id == new.repository_id
            && table[i].target_type == new.target_type && table[i].target_id == new.target_id
            && table[i].command_text == new.command_text && table[i].head_sha == new.head_sha
            && table[i].run_epoch == new.run_epoch {
        let i = choose|i: int|
            0 <= i < table.len() && (#[trigger] table[i]).repository_id == new.repository_id
                && table[i].target_type == new.target_type && table[i].target_id == new.target_id
                && table[i].command_text == new.command_text && table[i].head_sha == new.head_sha
                && table[i].run_epoch == new.run_epoch;
        assert(repeats(table[i], new));
    }
}

/// The epoch of a request that is made again is one more than the greatest of its runs, and zero for the
/// first.
pub proof fn law_next_epoch_follows_the_last(table: Seq<TaskView>, new: NewTaskView, e: int, i: int)
    requires
        is_next_epoch(
            table,
            new.repository_id,
            new.target_type,
            new.target_id,
            new.command_text,
            new.head_sha,
            e,
        ),
        0 <= i < table.len(),
        table[i].repository_id == new.repository_id,
        table[i].target_type == new.target_type,
        table[i].target_id == new.target_id,
        table[i].command_text == new.command_text,
        table[i].head_sha == new.head_sha,
    ensures
        table[i].run_epoch < e,
        (forall|j: int|
            0 <= j < table.len() && (#[trigger] table[j]).repository_id == new.repository_id
                && table[j].target_type == new.target_type && table[j].target_id == new.target_id
                && table[j].command_text == new.command_text && table[j].head_sha == new.head_sha
                ==> table[j].run_epoch <= table[i].run_epoch) ==> e == table[i].run_epoch + 1,
{
    let of_request = |t: TaskView|
        crate::db::tasks::same_request(
            t,
            new.repository_id,
            new.target_type,
            new.target_id,
            new.command_text,
            new.head_sha,
        );
    assert(of_request(table[i]));
    let k = choose|k: int|
        0 <= k < table.len() && of_request(#[trigger] table[k]) && table[k].run_epoch == e - 1;
    assert(of_request(table[k]) && table[k].run_epoch == e - 1);
}

/// A repository is indexed anew unless an index run of it is queued, running or posting; the run is an
/// index of the repository itself, ready at once.
pub proof fn law_index_is_not_doubled(
    t: TaskView,
    repository_id: i64,
    id: u128,
    installation_id: i64,
    epoch: i32,
    now: i64,
)
    ensures
        is_active_index(t, repository_id) <==> t.repository_id == repository_id && t.command_text
            == "index"@ && (t.status == RunStatus::Queued || t.status == RunStatus::Running
            || t.status == RunStatus::PostingResult),
        is_active_index(
            index_run(id, repository_id, installation_id, epoch, now),
            repository_id,
        ),
        ({
            let run = index_run(id, repository_id, installation_id, epoch, now);
            &&& run.id == id && run.repository_id == repository_id
            &&& run.installation_id == installation_id && run.run_epoch == epoch
            &&& run.target_type == "repository"@ && run.target_id == repository_id
            &&& run.command_text == "index"@ && run.status == RunStatus::Queued
            &&& run.head_sha is None && run.base_sha is None
            &&& run.webhook_delivery_id is None
            &&& run.preset == "deep"@ && run.entry_point == "mention"@ && run.kind == "review"@
            &&& run.created_at == now && run.run_after == now
            &&& run.priority == 100 && run.attempts == 0
            &&& run.started_at is None && run.completed_at is None
            &&& run.lease_owner is None && run.lease_expires_at is None
            &&& !run.check_runs_enabled
        }),
{
}

/// The run found for a request is one of its repeats, and none of them is newer.
pub proof fn law_repeat_found_is_the_newest(table: Seq<TaskView>, new: NewTaskView, i: int)
    requires
        is_first(i, repeated(table, new), latest_first(table)),
    ensures
        0 <= i < table.len(),
        table[i].repository_id == new.repository_id,
        table[i].target_type == new.target_type,
        table[i].target_id == new.target_id,
        table[i].command_text == new.command_text,
        table[i].head_sha == new.head_sha,
        table[i].run_epoch == new.run_epoch,
        forall|j: int|
            0 <= j < table.len() && (#[trigger] table[j]).repository_id == new.repository_id
                && table[j].target_type == new.target_type && table[j].target_id == new.target_id
                && table[j].command_text == new.command_text && table[j].head_sha == new.head_sha
                && table[j].run_epoch == new.run_epoch ==> table[j].created_at
                <= table[i].created_at,
{
    assert(repeated(table, new)[i]);
    assert forall|j: int|
        0 <= j < table.len() && (#[trigger] table[j]).repository_id == new.repository_id
            && table[j].target_type == new.target_type && table[j].target_id == new.target_id
            && table[j].command_text == new.command_text && table[j].head_sha == new.head_sha
            && table[j].run_epoch == new.run_epoch implies table[j].created_at
        <= table[i].created_at by {
        assert(repeated(table, new)[j]);
    }
}

/// The run that is claimed is queued and due, and no run that is queued and due is more urgent: each has a
/// lower priority, or the same one and is no older, or is as old and has no lower id.
pub proof fn law_most_urgent_run_is_claimed(table: Seq<TaskView>, now: i64, i: int)
    requires
        is_first(i, claimable(table, now), by_urgency(table)),
    ensures
        0 <= i < table.len(),
        table[i].status == RunStatus::Queued,
        table[i].run_after <= now,
        forall|j: int|
            0 <= j < table.len() && (#[trigger] table[j]).status == RunStatus::Queued
                && table[j].run_after <= now ==> {
                ||| table[j].priority < table[i].priority
                ||| table[j].priority == table[i].priority && table[j].created_at
                    > table[i].created_at
                ||| table[j].priority == table[i].priority && table[j].created_at
                    == table[i].created_at && table[j].id >= table[i].id
            },
{
    assert(claimable(table, now)[i]);
    assert forall|j: int|
        0 <= j < table.len() && (#[trigger] table[j]).status == RunStatus::Queued
            && table[j].run_after <= now implies {
        ||| table[j].priority < table[i].priority
        ||| table[j].priority == table[i].priority && table[j].created_at > table[i].created_at
        ||| table[j].priority == table[i].priority && table[j].created_at == table[i].created_at
            && table[j].id >= table[i].id
    } by {
        assert(claimable(table, now)[j]);
    }
}

/// A run is claimable exactly where it is queued and its time has come.
pub proof fn law_only_due_runs_are_claimed(table: Seq<TaskView>, now: i64, i: int)
    requires
        0 <= i < table.len(),
    ensures
        claimable(table, now)[i] <==> table[i].status == RunStatus::Queued && table[i].run_after
            <= now,
{
}

/// A claim makes a run its owner's for the length of the lease and counts one try more; the rest of the
/// run stays as it was.
pub proof fn law_claim_leases_the_run(t: TaskView, owner: Seq<char>, lease: u64, now: i64)
    requires
        t.attempts < i32::MAX,
    ensures
        ({
            let c = claimed(t, owner, lease, now);
            &&& c.status == RunStatus::Running
            &&& c.attempts == t.attempts + 1
            &&& c.started_at == Some(now)
            &&& c.lease_owner == Some(owner)
            &&& c.lease_expires_at is Some && c.lease_expires_at->0 == now + lease
            &&& TaskView {
                status: t.status,
                attempts: t.attempts,
                started_at: t.started_at,
                lease_owner: t.lease_owner,
                lease_expires_at: t.lease_expires_at,
                ..c
            } == t
        }),
{
}

/// A run is given back, and its lease extended, exactly while it is running or posting. Given back it is
/// queued behind the backoff, without a lease, a start or a job; its tries and its place are kept.
pub proof fn law_release_gives_the_run_back(t: TaskView, backoff: u64, now: i64)
    ensures
        is_leased(t.status) <==> t.status == RunStatus::Running || t.status
            == RunStatus::PostingResult,
        ({
            let q = requeued(t, backoff, now);
            &&& q.status == RunStatus::Queued
            &&& q.run_after == now + backoff
            &&& q.lease_owner is None && q.lease_expires_at is None
            &&& q.started_at is None && q.job_name is None
            &&& q.attempts == t.attempts && q.priority == t.priority && q.created_at
                == t.created_at
            &&& TaskView {
                status: t.status,
                run_after: t.run_after,
                lease_owner: t.lease_owner,
                lease_expires_at: t.lease_expires_at,
                started_at: t.started_at,
                job_name: t.job_name,
                ..q
            } == t
            &&& forall|later: i64|
                #![trigger claimable(seq![q], later)]
                claimable(seq![q], later)[0] <==> later >= now + backoff
        }),
{
    assert forall|later: i64|
        #![trigger claimable(seq![requeued(t, backoff, now)], later)]
        claimable(seq![requeued(t, backoff, now)], later)[0] <==> later >= now + backoff by {
        assert(seq![requeued(t, backoff, now)][0] == requeued(t, backoff, now));
    }
}

/// A run is taken from its worker exactly where it is running or posting and its lease ended before now.
pub proof fn law_only_lapsed_leases_are_reaped(table: Seq<TaskView>, now: i64, i: int)
    requires
        0 <= i < table.len(),
    ensures
        expired(table, now)[i] <==> (table[i].status == RunStatus::Running || table[i].status
            == RunStatus::PostingResult) && table[i].lease_expires_at is Some
            && table[i].lease_expires_at->0 < now,
        with_job(table)[i] <==> table[i].status == RunStatus::Cancelled && table[i].job_name
            is Some,
{
}

/// What is listed for reaping are the jobs of runs whose lease lapsed, the earliest started first and
/// those that never started before them; all of them where the limit leaves room, and else so many.
pub proof fn law_reapable_runs_are_listed_by_start(
    r: Seq<ReapableTask>,
    table: Seq<TaskView>,
    now: i64,
    limit: u64,
    i: int,
)
    requires
        lists_reapable(r, table, expired(table, now), by_start(table), limit),
        0 <= i < table.len(),
        table[i].status == RunStatus::Running || table[i].status == RunStatus::PostingResult,
        table[i].lease_expires_at is Some,
        table[i].lease_expires_at->0 < now,
    ensures
        r.len() <= limit,
        exists|places: Seq<usize>|
            {
                &&& #[trigger] places.len() >= r.len()
                &&& forall|a: int|
                    0 <= a < r.len() ==> places[a] < table.len() && (#[trigger] r[a]).id
                        == table[places[a] as int].id && opt_view(r[a].job_name)
                        == table[places[a] as int].job_name && r[a].attempts
                        == table[places[a] as int].attempts
                &&& forall|a: int|
                    0 <= a < r.len() ==> (table[(#[trigger] places[a]) as int].status
                        == RunStatus::Running || table[places[a] as int].status
                        == RunStatus::PostingResult) && table[places[a] as int].lease_expires_at
                        is Some && table[places[a] as int].lease_expires_at->0 < now
                &&& forall|a: int, b: int|
                    0 <= a < b < r.len() ==> started_no_later(
                        table[(#[trigger] places[a]) as int],
                        table[(#[trigger] places[b]) as int],
                    )
                &&& (exists|a: int| 0 <= a < r.len() && #[trigger] places[a] == i) || (r.len()
                    == limit && forall|a: int|
                    0 <= a < r.len() ==> started_no_later(
                        table[(#[trigger] places[a]) as int],
                        table[i],
                    ))
            },
{
    let places = choose|places: Seq<usize>|
        #[trigger] arranges(places, expired(table, now), by_start(table)) && r.len()
            == crate::db::tasks::limited(places.len(), limit) && forall|a: int|
            0 <= a < r.len() ==> crate::db::tasks::is_reapable_of(
                #[trigger] r[a],
                table[places[a] as int],
            );
    assert(expired(table, now)[i]);
    let at = choose|a: int| 0 <= a < places.len() && #[trigger] places[a] == i;
    assert forall|a: int| 0 <= a < r.len() implies (table[(#[trigger] places[a]) as int].status
        == RunStatus::Running || table[places[a] as int].status == RunStatus::PostingResult)
        && table[places[a] as int].lease_expires_at is Some
        && table[places[a] as int].lease_expires_at->0 < now by {
        assert(expired(table, now)[places[a] as int]);
    }
    assert(places[at] == i);
    assert(places.len() >= r.len());
}

/// Whether a run started no later than another; one that did not start comes before any that did.
pub open spec fn started_no_later(a: TaskView, b: TaskView) -> bool {
    match (a.started_at, b.started_at) {
        (None, None) => a.id <= b.id,
        (None, Some(_)) => true,
        (Some(_), None) => false,
        (Some(x), Some(y)) => x < y || (x == y && a.id <= b.id),
    }
}

/// The jobs of cancelled runs are listed until they are forgotten; a job that is forgotten is not listed
/// again.
pub proof fn law_cancelled_jobs_are_listed(
    r: Seq<ReapableTask>,
    table: Seq<TaskView>,
    limit: u64,
    i: int,
)
    requires
        lists_reapable(r, table, with_job(table), by_id(table), limit),
        0 <= i < table.len(),
        table[i].status == RunStatus::Cancelled,
        table[i].job_name is Some,
    ensures
        r.len() <= limit,
        (exists|a: int|
            0 <= a < r.len() && (#[trigger] r[a]).id == table[i].id && opt_view(r[a].job_name)
                == table[i].job_name && r[a].attempts == table[i].attempts) || r.len() == limit,
        forall|a: int|
            0 <= a < r.len() ==> exists|k: int|
                0 <= k < table.len() && (#[trigger] table[k]).status == RunStatus::Cancelled
                    && table[k].job_name is Some && (#[trigger] r[a]).id == table[k].id
                    && opt_view(r[a].job_name) == table[k].job_name,
{
    let places = choose|places: Seq<usize>|
        #[trigger] arranges(places, with_job(table), by_id(table)) && r.len()
            == crate::db::tasks::limited(places.len(), limit) && forall|a: int|
            0 <= a < r.len() ==> crate::db::tasks::is_reapable_of(
                #[trigger] r[a],
                table[places[a] as int],
            );
    assert(with_job(table)[i]);
    let at = choose|a: int| 0 <= a < places.len() && #[trigger] places[a] == i;
    assert(places[at] == i);
    if at < r.len() {
        assert(r[at].id == table[i].id);
    }
    assert forall|a: int| 0 <= a < r.len() implies exists|k: int|
        0 <= k < table.len() && (#[trigger] table[k]).status == RunStatus::Cancelled
            && table[k].job_name is Some && (#[trigger] r[a]).id == table[k].id && opt_view(
            r[a].job_name,
        ) == table[k].job_name by {
        assert(with_job(table)[places[a] as int]);
        assert(table[places[a] as int].status == RunStatus::Cancelled);
    }
}

proof fn lemma_selected_ids(table: Seq<TaskView>, selected: Seq<bool>)
    requires
        selected.len() == table.len(),
    ensures
        forall|i: int|
            0 <= i < table.len() && #[trigger] selected[i] ==> selected_ids(
                table,
                selected,
            ).contains(table[i].id),
        forall|x: u128| #[trigger]
            selected_ids(table, selected).contains(x) ==> exists|i: int|
                0 <= i < table.len() && #[trigger] selected[i] && table[i].id == x,
    decreases table.len(),
{
    if table.len() > 0 {
        let t = table.drop_last();
        let s = selected.drop_last();
        lemma_selected_ids(t, s);
        let init = selected_ids(t, s);
        let all = selected_ids(table, selected);
        assert forall|i: int| 0 <= i < table.len() && #[trigger] selected[i] implies all.contains(
            table[i].id,
        ) by {
            if i < t.len() {
                assert(s[i]);
                let k = choose|k: int| 0 <= k < init.len() && init[k] == t[i].id;
                assert(all[k] == t[i].id);
            } else {
                assert(all[all.len() - 1] == table[i].id);
            }
        }
        assert forall|x: u128| #[trigger] all.contains(x) implies exists|i: int|
            0 <= i < table.len() && #[trigger] selected[i] && table[i].id == x by {
            let k = choose|k: int| 0 <= k < all.len() && all[k] == x;
            if k < init.len() {
                assert(init[k] == x);
                assert(init.contains(x));
                let i = choose|i: int| 0 <= i < t.len() && #[trigger] s[i] && t[i].id == x;
                assert(selected[i]);
            } else {
                assert(selected[table.len() - 1]);
            }
        }
    }
}

/// Whether a run became a cancelled one: over now, without a lease, the rest as it was.
pub open spec fn was_cancelled(before: TaskView, after: TaskView, now: i64) -> bool {
    &&& after.status == RunStatus::Cancelled
    &&& after.completed_at == Some(now)
    &&& after.lease_owner is None
    &&& after.lease_expires_at is None
    &&& TaskView {
        status: before.status,
        completed_at: before.completed_at,
        lease_owner: before.lease_owner,
        lease_expires_at: before.lease_expires_at,
        ..after
    } == before
}

/// A push cancels the automatic runs of its pull request for every other head, whether opening the pull
/// request or an earlier push created them, that are queued, waiting for the index, running or posting,
/// and names them. It leaves every other run as it was.
pub proof fn law_push_cancels_what_it_supersedes(
    before: Seq<TaskView>,
    repository_id: i64,
    pr: i64,
    keep_head: Seq<char>,
    now: i64,
    after: Seq<TaskView>,
    ids: Seq<u128>,
    i: int,
)
    requires
        is_cancellation(
            before,
            superseded(before, repository_id, pr, keep_head),
            now,
            after,
            ids,
        ),
        0 <= i < before.len(),
    ensures
        after.len() == before.len(),
        ({
            let t = before[i];
            let hit = t.repository_id == repository_id && t.target_type == "pull_request"@
                && t.target_id == pr && (t.entry_point == "pr_open"@ || t.entry_point
                == "pr_sync"@) && t.head_sha != Some(keep_head) && (t.status == RunStatus::Queued
                || t.status == RunStatus::WaitingForIndex || t.status == RunStatus::Running
                || t.status == RunStatus::PostingResult);
            &&& hit ==> was_cancelled(t, after[i], now) && ids.contains(t.id)
            &&& !hit ==> after[i] == t
        }),
        forall|x: u128| #[trigger]
            ids.contains(x) ==> exists|k: int|
                0 <= k < before.len() && (#[trigger] before[k]).id == x && was_cancelled(
                    before[k],
                    after[k],
                    now,
                ),
{
    let selected = superseded(before, repository_id, pr, keep_head);
    lemma_selected_ids(before, selected);
    assert(selected[i] || !selected[i]);
    assert forall|x: u128| #[trigger] ids.contains(x) implies exists|k: int|
        0 <= k < before.len() && (#[trigger] before[k]).id == x && was_cancelled(
            before[k],
            after[k],
            now,
        ) by {
        let k = choose|k: int| 0 <= k < before.len() && #[trigger] selected[k] && before[k].id == x;
        assert(was_cancelled(before[k], after[k], now));
    }
}

/// Closing a pull request cancels its runs that are queued, running or posting, whoever asked for them,
/// and names them. It leaves every other run as it was.
pub proof fn law_closing_cancels_the_runs_of_a_pr(
    before: Seq<TaskView>,
    repository_id: i64,
    pr: i64,
    now: i64,
    after: Seq<TaskView>,
    ids: Seq<u128>,
    i: int,
)
    requires
        is_cancellation(before, active_for_pr(before, repository_id, pr), now, after, ids),
        0 <= i < before.len(),
    ensures
        after.len() == before.len(),
        ({
            let t = before[i];
            let hit = t.repository_id == repository_id && t.target_type == "pull_request"@
                && t.target_id == pr && (t.status == RunStatus::Queued || t.status
                == RunStatus::Running || t.status == RunStatus::PostingResult);
            &&& hit ==> was_cancelled(t, after[i], now) && ids.contains(t.id)
            &&& !hit ==> after[i] == t
        }),
        forall|x: u128| #[trigger]
            ids.contains(x) ==> exists|k: int|
                0 <= k < before.len() && (#[trigger] before[k]).id == x && was_cancelled(
                    before[k],
                    after[k],
                    now,
                ),
{
    let selected = active_for_pr(before, repository_id, pr);
    lemma_selected_ids(before, selected);
    assert(selected[i] || !selected[i]);
    assert forall|x: u128| #[trigger] ids.contains(x) implies exists|k: int|
        0 <= k < before.len() && (#[trigger] before[k]).id == x && was_cancelled(
            before[k],
            after[k],
            now,
        ) by {
        let k = choose|k: int| 0 <= k < before.len() && #[trigger] selected[k] && before[k].id == x;
        assert(was_cancelled(before[k], after[k], now));
    }
}

/// Taking a repository out cancels its runs that are queued, running or posting, whatever they are for,
/// and names them. It leaves every other run as it was.
pub proof fn law_removal_cancels_the_runs_of_a_repository(
    before: Seq<TaskView>,
    repository_id: i64,
    now: i64,
    after: Seq<TaskView>,
    ids: Seq<u128>,
    i: int,
)
    requires
        is_cancellation(before, active_for_repo(before, repository_id), now, after, ids),
        0 <= i < before.len(),
    ensures
        after.len() == before.len(),
        ({
            let t = before[i];
            let hit = t.repository_id == repository_id && (t.status == RunStatus::Queued || t.status
                == RunStatus::Running || t.status == RunStatus::PostingResult);
            &&& hit ==> was_cancelled(t, after[i], now) && ids.contains(t.id)
            &&& !hit ==> after[i] == t
        }),
        forall|x: u128| #[trigger]
            ids.contains(x) ==> exists|k: int|
                0 <= k < before.len() && (#[trigger] before[k]).id == x && was_cancelled(
                    before[k],
                    after[k],
                    now,
                ),
{
    let selected = active_for_repo(before, repository_id);
    lemma_selected_ids(before, selected);
    assert(selected[i] || !selected[i]);
    assert forall|x: u128| #[trigger] ids.contains(x) implies exists|k: int|
        0 <= k < before.len() && (#[trigger] before[k]).id == x && was_cancelled(
            before[k],
            after[k],
            now,
        ) by {
        let k = choose|k: int| 0 <= k < before.len() && #[trigger] selected[k] && before[k].id == x;
        assert(was_cancelled(before[k], after[k], now));
    }
}

/// Cancelling by id cancels the run of that id unless it has succeeded, failed, timed out or been
/// cancelled, and no other.
pub proof fn law_cancelling_by_id_spares_the_finished(
    before: Seq<TaskView>,
    id: u128,
    now: i64,
    i: int,
)
    requires
        0 <= i < before.len(),
    ensures
        ({
            let after = changed(before, cancelable(before, id), |t: TaskView| cancelled(t, now));
            let t = before[i];
            let hit = t.id == id && t.status != RunStatus::Succeeded && t.status
                != RunStatus::Failed && t.status != RunStatus::TimedOut && t.status
                != RunStatus::Cancelled;
            &&& cancelable(before, id)[i] <==> hit
            &&& hit ==> was_cancelled(t, after[i], now)
            &&& !hit ==> after[i] == t
        }),
{
}

/// The runs on a page are those that pass the filter and are found, the newest first, and of those that
/// are as old the greatest id first; a page holds those from its offset on, up to its limit, and the
/// total counts them all.
pub proof fn law_page_of_runs_is_newest_first(
    p: TasksPage,
    places: Seq<usize>,
    table: Seq<TaskView>,
    filter: TasksPageFilter,
    hits: Seq<bool>,
    limit: usize,
    offset: usize,
    i: int,
)
    requires
        hits.len() == table.len(),
        arranges(places, listed(table, filter, hits), latest_first(table)),
        is_page(p, places, limit, offset),
        0 <= i < table.len(),
    ensures
        p.total == places.len(),
        p.rows@.len() == (if offset >= places.len() {
            0
        } else if places.len() - offset <= limit {
            places.len() - offset
        } else {
            limit as int
        }),
        forall|a: int|
            0 <= a < p.rows@.len() ==> #[trigger] p.rows@[a] == places[offset + a] && p.rows@[a]
                < table.len(),
        forall|a: int, b: int|
            0 <= a < b < places.len() ==> {
                let x = table[(#[trigger] places[a]) as int];
                let y = table[(#[trigger] places[b]) as int];
                places[a] != places[b] && (x.created_at > y.created_at || (x.created_at
                    == y.created_at && x.id >= y.id))
            },
        (exists|a: int| 0 <= a < places.len() && #[trigger] places[a] == i) <==> hits[i] && (
        filter.status is Some ==> exists|k: int|
            0 <= k < filter.status->0@.len() && #[trigger] filter.status->0@[k] == table[i].status)
            && (filter.repository_id is Some ==> filter.repository_id == Some(
            table[i].repository_id,
        )),
{
    assert forall|a: int| 0 <= a < places.len() implies (#[trigger] places[a]) < table.len()
        && listed(table, filter, hits)[places[a] as int] by {}
    if exists|a: int| 0 <= a < places.len() && #[trigger] places[a] == i {
        let a = choose|a: int| 0 <= a < places.len() && #[trigger] places[a] == i;
        assert(listed(table, filter, hits)[i]);
    }
    if hits[i] && (filter.status is Some ==> exists|k: int|
        0 <= k < filter.status->0@.len() && #[trigger] filter.status->0@[k] == table[i].status) && (
    filter.repository_id is Some ==> filter.repository_id == Some(table[i].repository_id)) {
        assert(listed(table, filter, hits)[i]);
    }
}

/// Whether a text holds another somewhere, upper and lower case alike.
pub open spec fn holds_anywhere(s: Seq<char>, query: Seq<char>) -> bool {
    exists|k: int|
        0 <= k <= lowercase_of(s).len() - lowercase_of(query).len()
            && #[trigger] lowercase_of(s).subrange(k, k + lowercase_of(query).len())
            == lowercase_of(query)
}

/// Whether a query is of characters that stand for themselves.
pub open spec fn is_plain_query(query: Seq<char>) -> bool {
    forall|i: int|
        0 <= i < lowercase_of(query).len() ==> (#[trigger] lowercase_of(query)[i]) != '%'
            && lowercase_of(query)[i] != '_' && lowercase_of(query)[i] != '\\'
}

/// A run is found by its command.
pub proof fn law_run_is_found_by_its_command(
    table: Seq<TaskView>,
    repos: Seq<RepositoryRecord>,
    query: Seq<char>,
    i: int,
)
    requires
        is_plain_query(query),
        0 <= i < table.len(),
        holds_anywhere(table[i].command_text, query),
    ensures
        task_hits(table, repos, Some(query))[i],
{
    law_plain_query_is_found_anywhere(query, table[i].command_text);
}

/// A run is found by the head it is for.
pub proof fn law_run_is_found_by_its_head(
    table: Seq<TaskView>,
    repos: Seq<RepositoryRecord>,
    query: Seq<char>,
    i: int,
)
    requires
        is_plain_query(query),
        0 <= i < table.len(),
        table[i].head_sha is Some,
        holds_anywhere(table[i].head_sha->0, query),
    ensures
        task_hits(table, repos, Some(query))[i],
{
    law_plain_query_is_found_anywhere(query, table[i].head_sha->0);
}

/// A run is found by the number of its target.
pub proof fn law_run_is_found_by_its_target(
    table: Seq<TaskView>,
    repos: Seq<RepositoryRecord>,
    query: Seq<char>,
    i: int,
)
    requires
        is_plain_query(query),
        0 <= i < table.len(),
        holds_anywhere(decimal(table[i].target_id as int), query),
    ensures
        task_hits(table, repos, Some(query))[i],
{
    law_plain_query_is_found_anywhere(query, decimal(table[i].target_id as int));
}

/// A run is found by the owner of its repository, and by its name.
pub proof fn law_run_is_found_by_its_repository(
    table: Seq<TaskView>,
    repos: Seq<RepositoryRecord>,
    query: Seq<char>,
    i: int,
    j: int,
)
    requires
        is_plain_query(query),
        0 <= i < table.len(),
        0 <= j < repos.len(),
        repos[j].id == table[i].repository_id,
        holds_anywhere(repos[j].owner@, query) || holds_anywhere(repos[j].name@, query),
    ensures
        task_hits(table, repos, Some(query))[i],
{
    law_plain_query_is_found_anywhere(query, repos[j].owner@);
    law_plain_query_is_found_anywhere(query, repos[j].name@);
}

/// A run is found by nothing else, and without a query every run is.
pub proof fn law_run_is_found_by_nothing_else(
    table: Seq<TaskView>,
    repos: Seq<RepositoryRecord>,
    query: Seq<char>,
    i: int,
)
    requires
        is_plain_query(query),
        0 <= i < table.len(),
    ensures
        task_hits(table, repos, None)[i],
        task_hits(table, repos, Some(query))[i] ==> {
            ||| holds_anywhere(table[i].command_text, query)
            ||| table[i].head_sha is Some && holds_anywhere(table[i].head_sha->0, query)
            ||| holds_anywhere(decimal(table[i].target_id as int), query)
            ||| exists|j: int|
                0 <= j < repos.len() && (#[trigger] repos[j]).id == table[i].repository_id && (
                holds_anywhere(repos[j].owner@, query) || holds_anywhere(repos[j].name@, query))
        },
{
    law_plain_query_is_found_anywhere(query, table[i].command_text);
    if table[i].head_sha is Some {
        law_plain_query_is_found_anywhere(query, table[i].head_sha->0);
    }
    law_plain_query_is_found_anywhere(query, decimal(table[i].target_id as int));
    assert forall|j: int| 0 <= j < repos.len() && (#[trigger] repos[j]).id == table[i].repository_id
        && (crate::db::search::matches_query(query, repos[j].owner@)
        || crate::db::search::matches_query(query, repos[j].name@)) implies holds_anywhere(
        repos[j].owner@,
        query,
    ) || holds_anywhere(repos[j].name@, query) by {
        law_plain_query_is_found_anywhere(query, repos[j].owner@);
        law_plain_query_is_found_anywhere(query, repos[j].name@);
    }
}

/// A run reports the check of its head unless a run of the same repository, target and head, that was not
/// cancelled, was created after it, or with it and has the greater id.
pub proof fn law_latest_standing_run_reports(table: Seq<TaskView>, id: u128)
    ensures
        reports_check(table, id) <==> forall|i: int, j: int|
            0 <= i < table.len() && 0 <= j < table.len() && (#[trigger] table[j]).id == id && (
            #[trigger] table[i]).repository_id == table[j].repository_id && table[i].target_type
                == table[j].target_type && table[i].target_id == table[j].target_id
                && table[i].head_sha == table[j].head_sha && table[i].status
                != RunStatus::Cancelled ==> table[i].created_at < table[j].created_at || (
            table[i].created_at == table[j].created_at && table[i].id <= table[j].id),
{
    if reports_check(table, id) {
        assert forall|i: int, j: int|
            0 <= i < table.len() && 0 <= j < table.len() && (#[trigger] table[j]).id == id && (
            #[trigger] table[i]).repository_id == table[j].repository_id && table[i].target_type
                == table[j].target_type && table[i].target_id == table[j].target_id
                && table[i].head_sha == table[j].head_sha && table[i].status
                != RunStatus::Cancelled implies table[i].created_at < table[j].created_at || (
        table[i].created_at == table[j].created_at && table[i].id <= table[j].id) by {
            assert(!crate::db::tasks::outdates(table[i], table[j]));
        }
    }
}

/// A report sets the status. One of a run that is over sets when it ended and gives the lease back; any
/// other keeps both. A start is stamped once, by the first report of running, which also clears the
/// reason; any other report keeps the reason or replaces it. Nothing else of the run changes.
pub proof fn law_report_is_written_down(
    t: TaskView,
    status: RunStatus,
    detail: Option<Seq<char>>,
    now: i64,
)
    ensures
        ({
            let r = reported(t, status, detail, now);
            let over = status == RunStatus::Succeeded || status == RunStatus::Failed || status
                == RunStatus::TimedOut || status == RunStatus::Cancelled;
            &&& r.status == status
            &&& over ==> r.completed_at == Some(now) && r.lease_owner is None
                && r.lease_expires_at is None
            &&& !over ==> r.completed_at == t.completed_at && r.lease_owner == t.lease_owner
                && r.lease_expires_at == t.lease_expires_at
            &&& status == RunStatus::Running ==> r.error_detail is None && r.started_at is Some
            &&& status == RunStatus::Running && t.started_at is None ==> r.started_at == Some(now)
            &&& t.started_at is Some ==> r.started_at == t.started_at
            &&& status != RunStatus::Running ==> r.started_at == t.started_at
            &&& status != RunStatus::Running && detail is Some ==> r.error_detail == detail
            &&& status != RunStatus::Running && detail is None ==> r.error_detail
                == t.error_detail
            &&& TaskView {
                status: t.status,
                completed_at: t.completed_at,
                lease_owner: t.lease_owner,
                lease_expires_at: t.lease_expires_at,
                started_at: t.started_at,
                error_detail: t.error_detail,
                ..r
            } == t
        }),
{
}

/// A reported status reaches the runs of its id and no others, except that the end of an index run,
/// however it ended, releases the runs of its repository that wait for it: they are queued, no earlier
/// than now or their own delay, and named.
pub proof fn law_end_of_index_releases_what_waits(
    before: Seq<TaskView>,
    after: Seq<TaskView>,
    r: StatusReport,
    id: u128,
    status: RunStatus,
    detail: Option<Seq<char>>,
    now: i64,
    i: int,
)
    requires
        is_report(before, after, r, id, status, detail, now),
        0 <= i < before.len(),
        before[i].id != id,
    ensures
        after.len() == before.len(),
        r.found <==> exists|k: int| 0 <= k < before.len() && (#[trigger] before[k]).id == id,
        ({
            let t = before[i];
            let over = status == RunStatus::Succeeded || status == RunStatus::Failed || status
                == RunStatus::TimedOut || status == RunStatus::Cancelled;
            let freed = over && t.status == RunStatus::WaitingForIndex && exists|k: int|
                0 <= k < before.len() && (#[trigger] before[k]).id == id && before[k].command_text
                    == "index"@ && before[k].repository_id == t.repository_id;
            &&& freed ==> {
                &&& after[i].status == RunStatus::Queued
                &&& after[i].run_after >= now && after[i].run_after >= t.run_after
                &&& after[i].run_after == now || after[i].run_after == t.run_after
                &&& (TaskView { status: t.status, run_after: t.run_after, ..after[i] }) == t
                &&& r.released@.contains(t.id)
            }
            &&& !freed ==> after[i] == t
        }),
{
    let mid = crate::db::tasks::after_report(before, id, status, detail, now);
    let waiting = waiting_on(mid, id);
    lemma_selected_ids(mid, waiting);
    assert forall|k: int| 0 <= k < before.len() implies (#[trigger] mid[k]).id == before[k].id
        && mid[k].command_text == before[k].command_text && mid[k].repository_id
        == before[k].repository_id by {}
    assert(mid[i] == before[i]);
    let t = before[i];
    if exists|k: int|
        0 <= k < before.len() && (#[trigger] before[k]).id == id && before[k].command_text
            == "index"@ && before[k].repository_id == t.repository_id {
        let k = choose|k: int|
            0 <= k < before.len() && (#[trigger] before[k]).id == id && before[k].command_text
                == "index"@ && before[k].repository_id == t.repository_id;
        assert(mid[k].id == id);
    }
    if crate::db::tasks::indexed_by(mid, id, t.repository_id) {
        let k = choose|k: int|
            0 <= k < mid.len() && (#[trigger] mid[k]).id == id && mid[k].command_text == "index"@
                && mid[k].repository_id == t.repository_id;
        assert(before[k].id == id);
    }
    assert(waiting[i] || !waiting[i]);
}

/// A run that is released waits no longer and keeps a delay that has still to pass.
pub proof fn law_released_run_is_queued(t: TaskView, now: i64)
    ensures
        released(t, now).status == RunStatus::Queued,
        t.run_after > now ==> released(t, now).run_after == t.run_after,
        t.run_after <= now ==> released(t, now).run_after == now,
        (TaskView { status: t.status, run_after: t.run_after, ..released(t, now) }) == t,
{
}

/// The names of the statuses, and those that a runner may report: everything from its start to its end.
pub proof fn law_statuses_go_by_their_names(s: RunStatus)
    ensures
        status_name(RunStatus::Received) == "received"@,
        status_name(RunStatus::WaitingForIndex) == "waiting_for_index"@,
        status_name(RunStatus::Queued) == "queued"@,
        status_name(RunStatus::Running) == "running"@,
        status_name(RunStatus::PostingResult) == "posting_result"@,
        status_name(RunStatus::Succeeded) == "succeeded"@,
        status_name(RunStatus::Failed) == "failed"@,
        status_name(RunStatus::TimedOut) == "timed_out"@,
        status_name(RunStatus::Cancelled) == "cancelled"@,
        status_of(status_name(s)) == Some(s),
        reportable(status_name(s)) <==> s != RunStatus::Received && s
            != RunStatus::WaitingForIndex && s != RunStatus::Queued,
{
    crate::db::tasks::law_status_survives_its_name(s);
    crate::db::tasks::law_status_survives_its_name(RunStatus::Running);
    crate::db::tasks::law_status_survives_its_name(RunStatus::PostingResult);
    crate::db::tasks::law_status_survives_its_name(RunStatus::Succeeded);
    crate::db::tasks::law_status_survives_its_name(RunStatus::Failed);
    crate::db::tasks::law_status_survives_its_name(RunStatus::TimedOut);
    crate::db::tasks::law_status_survives_its_name(RunStatus::Cancelled);
}

} // verus!
