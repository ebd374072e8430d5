//! The code index and the journal of a run: what is kept, what is let go, what is given back.

use vstd::prelude::*;

use crate::db::code_chunks::{
    has_active_index_task, has_stale, in_use, in_use_commits, is_stored, latest_first, needs_purge,
    of_repo, prunable, purge_list, reconcile_embedding_dimension, same_lines, vector_literal,
    ChunkRow, CodeChunk, DimensionChange,
};
use crate::db::durable_step::{
    blob_at, found, has_durable_steps, journaled, new_step, of_run, recalled, stale, steps,
    DurableStep, PrOpenBlob, StepView,
};
use crate::db::repositories::{RepoStatus, RepositoryRecord};
use crate::db::rows::left;
use crate::db::tasks::{RunStatus, TaskRecord};
use crate::order::is_first;
use crate::text::{decimal, joined, opt_view, views};

verus! {

/// What is left of a table are the rows that are not gone, in their order.
pub proof fn lemma_left_is_the_rest<R>(table: Seq<R>, gone: Seq<bool>, row: R)
    requires
        gone.len() == table.len(),
    ensures
        left(table, gone).contains(row) <==> exists|i: int|
            0 <= i < table.len() && #[trigger] table[i] == row && !gone[i],
        left(table, gone).len() <= table.len(),
    decreases table.len(),
{
    if table.len() > 0 {
        let init = table.drop_last();
        let rest = gone.drop_last();
        lemma_left_is_the_rest(init, rest, row);
        let before = left(init, rest);
        let after = left(table, gone);
        if before.contains(row) {
            let k = choose|k: int| 0 <= k < before.len() && before[k] == row;
            assert(after[k] == row);
            let i = choose|i: int| 0 <= i < init.len() && #[trigger] init[i] == row && !rest[i];
            assert(table[i] == row && !gone[i]);
        }
        if after.contains(row) {
            let k = choose|k: int| 0 <= k < after.len() && after[k] == row;
            if k < before.len() {
                assert(before[k] == row);
            } else {
                assert(table[table.len() - 1] == row && !gone[table.len() - 1]);
            }
        }
        if exists|i: int| 0 <= i < table.len() && #[trigger] table[i] == row && !gone[i] {
            let i = choose|i: int| 0 <= i < table.len() && #[trigger] table[i] == row && !gone[i];
            if i < init.len() {
                assert(init[i] == row && !rest[i]);
            } else {
                assert(after[after.len() - 1] == row);
            }
        }
    }
}

/// The commit that is read is that of the chunk that was stored last, of one moment of the highest id,
/// among the chunks of the repository.
pub proof fn law_latest_commit_is_read<C>(table: Seq<ChunkRow<C>>, repository_id: i64, i: int, j: int)
    requires
        is_first(i, of_repo(table, repository_id), latest_first(table)),
        0 <= j < table.len(),
        table[j].repository_id == repository_id,
    ensures
        0 <= i < table.len(),
        table[i].repository_id == repository_id,
        table[i].created_at >= table[j].created_at,
        table[i].created_at == table[j].created_at ==> table[i].id >= table[j].id,
{
    assert(of_repo(table, repository_id)[i]);
    assert(of_repo(table, repository_id)[j]);
}

/// Deleting the index of a repository deletes its chunks and no other.
pub proof fn law_deleting_an_index_takes_one_repository<C>(
    table: Seq<ChunkRow<C>>,
    repository_id: i64,
    row: ChunkRow<C>,
)
    ensures
        left(table, of_repo(table, repository_id)).contains(row) <==> table.contains(row)
            && row.repository_id != repository_id,
{
    let gone = of_repo(table, repository_id);
    lemma_left_is_the_rest(table, gone, row);
    if table.contains(row) && row.repository_id != repository_id {
        let i = choose|i: int| 0 <= i < table.len() && table[i] == row;
        assert(table[i] == row && !gone[i]);
    }
}

/// A repository has an old snapshot exactly where two of its chunks are of different commits.
pub proof fn law_old_snapshot_is_a_second_commit<C>(
    table: Seq<ChunkRow<C>>,
    repository_id: i64,
    i: int,
    j: int,
)
    requires
        0 <= i < table.len(),
        0 <= j < table.len(),
        table[i].repository_id == repository_id,
        table[j].repository_id == repository_id,
    ensures
        table[i].commit_sha@ != table[j].commit_sha@ ==> has_stale(table, repository_id),
        !has_stale(table, repository_id) ==> table[i].commit_sha@ == table[j].commit_sha@,
{
}

/// Where all chunks of a repository are of one commit it has no old snapshot, whatever others have.
pub proof fn law_one_commit_is_no_old_snapshot<C>(
    table: Seq<ChunkRow<C>>,
    repository_id: i64,
    commit: Seq<char>,
)
    requires
        forall|i: int|
            0 <= i < table.len() && (#[trigger] table[i]).repository_id == repository_id
                ==> table[i].commit_sha@ == commit,
    ensures
        !has_stale(table, repository_id),
{
}

/// A chunk is let go exactly where it is of the repository, of a commit that is not kept, and was stored
/// more than ten minutes ago; and none is where nothing is kept.
pub proof fn law_old_chunks_are_let_go<C>(
    table: Seq<ChunkRow<C>>,
    repository_id: i64,
    keep: Seq<Seq<char>>,
    now: i64,
    row: ChunkRow<C>,
)
    ensures
        left(table, prunable(table, repository_id, keep, now)).contains(row) <==> table.contains(row)
            && (keep.len() == 0 || row.repository_id != repository_id || keep.contains(
            row.commit_sha@,
        ) || row.created_at >= now - 600_000_000),
{
    let gone = prunable(table, repository_id, keep, now);
    lemma_left_is_the_rest(table, gone, row);
    if table.contains(row) && (keep.len() == 0 || row.repository_id != repository_id
        || keep.contains(row.commit_sha@) || row.created_at >= now - 600_000_000) {
        let i = choose|i: int| 0 <= i < table.len() && table[i] == row;
        assert(table[i] == row && !gone[i]);
    }
}

/// Whether a run is still to end: received, queued, waiting for an index, running or posting.
pub open spec fn is_still_going(status: RunStatus) -> bool {
    ||| status == RunStatus::Received
    ||| status == RunStatus::Queued
    ||| status == RunStatus::WaitingForIndex
    ||| status == RunStatus::Running
    ||| status == RunStatus::PostingResult
}

/// A commit is in use exactly while a run of the repository for that head is still to end.
pub proof fn law_commit_is_in_use_while_a_run_needs_it(
    tasks: Seq<TaskRecord>,
    repository_id: i64,
    commit: Seq<char>,
)
    ensures
        in_use(tasks, repository_id, commit) <==> exists|i: int|
            0 <= i < tasks.len() && (#[trigger] tasks[i]).repository_id == repository_id && opt_view(
                tasks[i].head_sha,
            ) == Some(commit) && is_still_going(tasks[i].status),
{
    if in_use(tasks, repository_id, commit) {
        let i = choose|i: int|
            0 <= i < tasks.len() && crate::db::code_chunks::uses(
                #[trigger] tasks[i],
                repository_id,
                commit,
            );
        assert(tasks[i].repository_id == repository_id && is_still_going(tasks[i].status));
    }
    if exists|i: int|
        0 <= i < tasks.len() && (#[trigger] tasks[i]).repository_id == repository_id && opt_view(
            tasks[i].head_sha,
        ) == Some(commit) && is_still_going(tasks[i].status) {
        let i = choose|i: int|
            0 <= i < tasks.len() && (#[trigger] tasks[i]).repository_id == repository_id
                && opt_view(tasks[i].head_sha) == Some(commit) && is_still_going(tasks[i].status);
        assert(crate::db::code_chunks::uses(tasks[i], repository_id, commit));
    }
}

/// The commits in use are told each once, and all of them.
pub proof fn law_commits_in_use_are_told_once(
    tasks: &Vec<TaskRecord>,
    repository_id: i64,
    r: Vec<String>,
    commit: Seq<char>,
)
    requires
        call_ensures(in_use_commits, (tasks, repository_id), r),
    ensures
        views(r@).no_duplicates(),
        views(r@).contains(commit) <==> in_use(tasks@, repository_id, commit),
{
}

/// An index is being written exactly while an `index` run of the repository is still to end.
pub proof fn law_index_is_written_while_its_run_goes_on(
    tasks: &Vec<TaskRecord>,
    repository_id: i64,
    r: bool,
    i: int,
)
    requires
        call_ensures(has_active_index_task, (tasks, repository_id), r),
        0 <= i < tasks@.len(),
    ensures
        r ==> exists|k: int|
            0 <= k < tasks@.len() && (#[trigger] tasks@[k]).repository_id == repository_id
                && tasks@[k].command_text@ == "index"@ && is_still_going(tasks@[k].status),
        tasks@[i].repository_id == repository_id && tasks@[i].command_text@ == "index"@
            && is_still_going(tasks@[i].status) ==> r,
{
    if r {
        let k = choose|k: int|
            0 <= k < tasks@.len() && crate::db::code_chunks::is_indexing(
                #[trigger] tasks@[k],
                repository_id,
            );
        assert(tasks@[k].repository_id == repository_id);
    }
    if tasks@[i].repository_id == repository_id && tasks@[i].command_text@ == "index"@
        && is_still_going(tasks@[i].status) {
        assert(crate::db::code_chunks::is_indexing(tasks@[i], repository_id));
    }
}

/// A repository is purged exactly where it is disabled and still has a chunk or an index entry.
pub proof fn law_disabled_repositories_are_purged<C>(
    repos: Seq<RepositoryRecord>,
    table: Seq<ChunkRow<C>>,
    indexed: Seq<i64>,
    id: i64,
)
    ensures
        purge_list(repos, table, indexed).contains(id) <==> exists|i: int|
            0 <= i < repos.len() && (#[trigger] repos[i]).id == id && repos[i].status
                == RepoStatus::Disabled && (indexed.contains(id) || exists|k: int|
                0 <= k < table.len() && (#[trigger] table[k]).repository_id == id),
    decreases repos.len(),
{
    if repos.len() > 0 {
        let init = repos.drop_last();
        law_disabled_repositories_are_purged(init, table, indexed, id);
        let before = purge_list(init, table, indexed);
        let after = purge_list(repos, table, indexed);
        if before.contains(id) {
            let k = choose|k: int| 0 <= k < before.len() && before[k] == id;
            assert(after[k] == id);
            let i = choose|i: int|
                0 <= i < init.len() && (#[trigger] init[i]).id == id && init[i].status
                    == RepoStatus::Disabled && (indexed.contains(id) || exists|k: int|
                    0 <= k < table.len() && (#[trigger] table[k]).repository_id == id);
            assert(repos[i] == init[i]);
        }
        if after.contains(id) && !before.contains(id) {
            let k = choose|k: int| 0 <= k < after.len() && after[k] == id;
            if k < before.len() {
                assert(before[k] == id);
            }
            assert(repos[repos.len() - 1].id == id);
        }
        if exists|i: int|
            0 <= i < repos.len() && (#[trigger] repos[i]).id == id && repos[i].status
                == RepoStatus::Disabled && (indexed.contains(id) || exists|k: int|
                0 <= k < table.len() && (#[trigger] table[k]).repository_id == id) {
            let i = choose|i: int|
                0 <= i < repos.len() && (#[trigger] repos[i]).id == id && repos[i].status
                    == RepoStatus::Disabled && (indexed.contains(id) || exists|k: int|
                    0 <= k < table.len() && (#[trigger] table[k]).repository_id == id);
            if i < init.len() {
                assert(init[i] == repos[i]);
            } else {
                assert(needs_purge(repos.last(), table, indexed));
                assert(after[after.len() - 1] == id);
            }
        }
    }
}

/// A stored chunk is found again: of its repository, commit, file and lines there is one with the new
/// content, and no chunk of other lines changes. Lines that were indexed keep their id and their age.
pub proof fn law_stored_chunk_replaces_its_own_lines<C>(
    before: Seq<ChunkRow<C>>,
    after: Seq<ChunkRow<C>>,
    repository_id: i64,
    commit: Seq<char>,
    c: CodeChunk<C>,
    now: i64,
    i: int,
)
    requires
        is_stored(before, after, repository_id, commit, c, now),
        0 <= i < before.len(),
    ensures
        exists|k: int|
            0 <= k < after.len() && (#[trigger] after[k]).repository_id == repository_id
                && after[k].commit_sha@ == commit && after[k].file_path@ == c.file_path@
                && after[k].start_line == c.start_line && after[k].end_line == c.end_line
                && after[k].content == c.content,
        before.len() <= after.len() <= before.len() + 1,
        after[i].id == before[i].id,
        after[i].created_at == before[i].created_at,
        after[i].repository_id == before[i].repository_id,
        after[i].commit_sha == before[i].commit_sha,
        after[i].file_path == before[i].file_path,
        after[i].start_line == before[i].start_line,
        after[i].end_line == before[i].end_line,
        !(before[i].repository_id == repository_id && before[i].commit_sha@ == commit
            && before[i].file_path@ == c.file_path@ && before[i].start_line == c.start_line
            && before[i].end_line == c.end_line) ==> after[i] == before[i],
        before[i].repository_id == repository_id && before[i].commit_sha@ == commit
            && before[i].file_path@ == c.file_path@ && before[i].start_line == c.start_line
            && before[i].end_line == c.end_line ==> after.len() == before.len(),
        after.len() > before.len() ==> after.last().id == c.fresh_id && after.last().created_at
            == now,
{
    if exists|k: int|
        {
            &&& 0 <= k < before.len()
            &&& same_lines(#[trigger] before[k], repository_id, commit, c)
            &&& after == before.update(k, ChunkRow { content: c.content, ..before[k] })
        } {
        let k = choose|k: int|
            {
                &&& 0 <= k < before.len()
                &&& same_lines(#[trigger] before[k], repository_id, commit, c)
                &&& after == before.update(k, ChunkRow { content: c.content, ..before[k] })
            };
        assert(after[k].content == c.content && after[k].repository_id == repository_id);
    } else {
        assert(after.take(before.len() as int)[i] == after[i]);
        assert(!same_lines(before[i], repository_id, commit, c));
        assert(after[after.len() - 1].repository_id == repository_id);
    }
}

/// A vector is written as its numbers in brackets, with commas between.
pub proof fn law_vector_is_written_in_brackets(numbers: &Vec<String>, r: String)
    requires
        call_ensures(vector_literal, (numbers,), r),
    ensures
        r@ == "["@ + joined(views(numbers@), ","@) + "]"@,
{
}

/// The index is emptied only where its vectors have another width, and that is allowed; where it is not,
/// the change is refused. A store without a fixed width, or with the right one, is left.
pub proof fn law_index_is_emptied_only_where_allowed(
    current: Option<i32>,
    dimension: i64,
    allowed: bool,
    r: Result<DimensionChange, String>,
)
    requires
        call_ensures(reconcile_embedding_dimension, (current, dimension, allowed), r),
    ensures
        current is None ==> r == Ok::<DimensionChange, String>(DimensionChange::Keep),
        current matches Some(d) ==> (d <= 0 || d == dimension) ==> r == Ok::<
            DimensionChange,
            String,
        >(DimensionChange::Keep),
        current matches Some(d) ==> d > 0 && d != dimension && allowed ==> r == Ok::<
            DimensionChange,
            String,
        >(DimensionChange::Rebuild(dimension)),
        current matches Some(d) ==> d > 0 && d != dimension && !allowed ==> r is Err
            && r->Err_0@ == "embedding dimension changed ("@ + decimal(d as int) + " → "@ + decimal(
            dimension as int,
        )
            + ") but embeddings.allow_reindex_on_dim_change is false; refusing to wipe code_chunks. Set the flag to reindex from scratch, or revert the dimension."@,
{
}

/// A step is recalled by its run, its epoch and its name, all three: one that is recalled was journaled
/// under them, and one that was journaled is recalled.
pub proof fn law_step_is_known_by_run_epoch_and_name(
    table: Seq<StepView>,
    task_id: u128,
    run_epoch: i32,
    step_name: Seq<char>,
)
    ensures
        recalled(table, task_id, run_epoch, step_name) is None <==> forall|i: int|
            0 <= i < table.len() ==> !((#[trigger] table[i]).task_id == task_id && table[i].run_epoch
                == run_epoch && table[i].step_name == step_name),
        found(table, task_id, run_epoch, step_name) matches Some(i) ==> 0 <= i < table.len()
            && table[i].task_id == task_id && table[i].run_epoch == run_epoch && table[i].step_name
            == step_name && recalled(table, task_id, run_epoch, step_name) == Some(
            (table[i].result, table[i].content_hash),
        ),
    decreases table.len(),
{
    if table.len() > 0 {
        let init = table.drop_last();
        law_step_is_known_by_run_epoch_and_name(init, task_id, run_epoch, step_name);
        if found(init, task_id, run_epoch, step_name) is None {
            assert forall|i: int|
                0 <= i < table.len() && !(table.last().task_id == task_id && table.last().run_epoch
                    == run_epoch && table.last().step_name == step_name) implies !((
            #[trigger] table[i]).task_id == task_id && table[i].run_epoch == run_epoch
                && table[i].step_name == step_name) by {
                if i < init.len() {
                    assert(init[i] == table[i]);
                }
            }
            if table.last().task_id == task_id && table.last().run_epoch == run_epoch
                && table.last().step_name == step_name {
                assert(table[table.len() - 1] == table.last());
            }
        } else {
            let i = found(init, task_id, run_epoch, step_name)->0;
            assert(table[i] == init[i]);
        }
    }
}

/// A journaled step keeps when it was first done; a new one says all that was given.
pub proof fn law_step_is_journaled_as_given(
    table: Seq<StepView>,
    task_id: u128,
    run_epoch: i32,
    step_name: Seq<char>,
    result: Seq<char>,
    hash: Seq<char>,
    now: i64,
)
    ensures
        ({
            let s = new_step(task_id, run_epoch, step_name, result, hash, now);
            &&& s.task_id == task_id
            &&& s.run_epoch == run_epoch
            &&& s.step_name == step_name
            &&& s.result == Some(result)
            &&& s.content_hash == hash
            &&& s.created_at == now
        }),
        ({
            let after = journaled(table, task_id, run_epoch, step_name, result, hash, now);
            match found(table, task_id, run_epoch, step_name) {
                Some(i) => after.len() == table.len() && after[i].created_at == table[i].created_at
                    && after[i].result == Some(result) && after[i].content_hash == hash,
                None => after.len() == table.len() + 1 && after.last().created_at == now,
            }
        }),
{
    law_step_is_known_by_run_epoch_and_name(table, task_id, run_epoch, step_name);
}

/// A run has journaled something exactly where a step of its id and epoch is there.
pub proof fn law_run_has_a_journal_of_its_own(
    rows: &Vec<DurableStep>,
    task_id: u128,
    run_epoch: i32,
    r: bool,
    i: int,
)
    requires
        call_ensures(has_durable_steps, (rows, task_id, run_epoch), r),
        0 <= i < rows@.len(),
    ensures
        r ==> exists|k: int|
            0 <= k < rows@.len() && (#[trigger] rows@[k])@.task_id == task_id && rows@[k]@.run_epoch
                == run_epoch,
        rows@[i]@.task_id == task_id && rows@[i]@.run_epoch == run_epoch ==> r,
{
    let table = steps(rows@);
    if r {
        let k = choose|k: int|
            0 <= k < rows@.len() && crate::db::durable_step::is_of_run(
                #[trigger] steps(rows@)[k],
                task_id,
                run_epoch,
            );
        assert(rows@[k]@ == table[k]);
    }
    if rows@[i]@.task_id == task_id && rows@[i]@.run_epoch == run_epoch {
        assert(crate::db::durable_step::is_of_run(steps(rows@)[i], task_id, run_epoch));
    }
}

/// Forgetting the journal of a run forgets the steps of that run and epoch and no other.
pub proof fn law_forgetting_takes_one_run(
    table: Seq<StepView>,
    task_id: u128,
    run_epoch: i32,
    s: StepView,
)
    ensures
        left(table, of_run(table, task_id, run_epoch)).contains(s) <==> table.contains(s) && !(
        s.task_id == task_id && s.run_epoch == run_epoch),
{
    let gone = of_run(table, task_id, run_epoch);
    lemma_left_is_the_rest(table, gone, s);
    if table.contains(s) && !(s.task_id == task_id && s.run_epoch == run_epoch) {
        let i = choose|i: int| 0 <= i < table.len() && table[i] == s;
        assert(table[i] == s && !gone[i]);
    }
}

/// A sweep forgets the steps that are older than the retention and no other; without one, none.
pub proof fn law_sweep_takes_old_steps(
    table: Seq<StepView>,
    retention: i64,
    now: i64,
    s: StepView,
)
    ensures
        left(table, stale(table, retention, now)).contains(s) <==> table.contains(s) && (retention
            <= 0 || s.created_at >= now - retention),
{
    let gone = stale(table, retention, now);
    lemma_left_is_the_rest(table, gone, s);
    if table.contains(s) && (retention <= 0 || s.created_at >= now - retention) {
        let i = choose|i: int| 0 <= i < table.len() && table[i] == s;
        assert(table[i] == s && !gone[i]);
    }
}

/// A patch is known by its hash alone: what is kept first under a hash is what is given back, and a
/// patch under another hash changes nothing.
pub proof fn law_patch_is_known_by_its_hash(blobs: Seq<PrOpenBlob>, blob: PrOpenBlob, hash: Seq<char>)
    ensures
        blob_at(blobs.push(blob), hash) == (if blob_at(blobs, hash) is Some {
            blob_at(blobs, hash)
        } else if blob.content_hash@ == hash {
            Some(blob.patch@)
        } else {
            None
        }),
        blob_at(Seq::empty(), hash) is None,
{
    assert(blobs.push(blob).drop_last() =~= blobs);
}

} // verus!
