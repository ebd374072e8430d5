//! The code index: its snapshots, which of them are in use, and which may be let go.
//!
//! A snapshot is the chunks of one commit. Reviews read the latest snapshot of their repository.

use vstd::prelude::*;

use crate::db::clock::MINUTE;
use crate::db::repositories::{RepoStatus, RepositoryRecord};
use crate::db::rows::{holds_id, holds_text, left, lemma_left_spares, let_go};
use crate::db::tasks::{is_over, TaskRecord};
use crate::order;
use crate::order::{is_first, Key};
use crate::text;
use crate::text::{joined, opt_view, views};

verus! {

/// A chunk of code as it is stored, with what is indexed of it.
#[derive(Debug)]
pub struct ChunkRow<C> {
    pub id: i64,
    pub repository_id: i64,
    pub commit_sha: String,
    pub file_path: String,
    pub start_line: i32,
    pub end_line: i32,
    pub content: C,
    pub created_at: i64,
}

/// A chunk of code to be stored, under `fresh_id` where it is new.
#[derive(Debug)]
pub struct CodeChunk<C> {
    pub fresh_id: i64,
    pub file_path: String,
    pub start_line: i32,
    pub end_line: i32,
    pub content: C,
}

/// The chunks of a repository.
pub open spec fn of_repo<C>(table: Seq<ChunkRow<C>>, repository_id: i64) -> Seq<bool> {
    Seq::new(table.len(), |i: int| table[i].repository_id == repository_id)
}

/// Chunks by age, the latest first, then by id, the highest first.
pub open spec fn latest_first<C>(table: Seq<ChunkRow<C>>) -> Seq<Key> {
    Seq::new(
        table.len(),
        |i: int|
            Key {
                major: (-table[i].created_at) as i128,
                minor: (-table[i].id) as i128,
                id: 0,
            },
    )
}

/// The commit of the latest snapshot of a repository, where it has one.
pub fn latest_indexed_commit<'a, C>(table: &'a Vec<ChunkRow<C>>, repository_id: i64) -> (r: Option<
    &'a str,
>)
    ensures
        match r {
            Some(commit) => exists|i: int| #[trigger]
                is_first(i, of_repo(table@, repository_id), latest_first(table@)) && commit@
                    == table@[i].commit_sha@,
            None => forall|j: int|
                0 <= j < table@.len() ==> (#[trigger] table@[j]).repository_id != repository_id,
        },
{
    let mut selected: Vec<bool> = Vec::new();
    let mut keys: Vec<Key> = Vec::new();
    let mut i: usize = 0;
    while i < table.len()
        invariant
            i <= table@.len(),
            selected@ =~= of_repo(table@, repository_id).take(i as int),
            keys@ =~= latest_first(table@).take(i as int),
        decreases table@.len() - i,
    {
        selected.push(table[i].repository_id == repository_id);
        keys.push(
            Key { major: -(table[i].created_at as i128), minor: -(table[i].id as i128), id: 0 },
        );
        i = i + 1;
    }
    assert(selected@ =~= of_repo(table@, repository_id));
    assert(keys@ =~= latest_first(table@));
    match order::first(&selected, &keys) {
        Some(i) => {
            assert(is_first(i as int, of_repo(table@, repository_id), latest_first(table@)));
            Some(table[i].commit_sha.as_str())
        },
        None => {
            assert forall|j: int| 0 <= j < table@.len() implies (
            #[trigger] table@[j]).repository_id != repository_id by {
                assert(!selected@[j]);
            }
            None
        },
    }
}

/// Deletes the index of a repository; how many chunks it had.
pub fn delete_code_chunks_for_repo<C>(table: &mut Vec<ChunkRow<C>>, repository_id: i64) -> (r: usize)
    ensures
        final(table)@ == left(old(table)@, of_repo(old(table)@, repository_id)),
        r == old(table)@.len() - final(table)@.len(),
{
    let ghost before = table@;
    let mut gone: Vec<bool> = Vec::new();
    let mut i: usize = 0;
    while i < table.len()
        invariant
            i <= table@.len(),
            table@ == before,
            gone@ =~= of_repo(before, repository_id).take(i as int),
        decreases table@.len() - i,
    {
        gone.push(table[i].repository_id == repository_id);
        i = i + 1;
    }
    assert(gone@ =~= of_repo(before, repository_id));
    let_go(table, &gone)
}

/// Forgets that a repository is indexed; how many entries there were. `indexed` holds the repository of
/// each entry.
pub fn delete_repo_index_rows(indexed: &mut Vec<i64>, repository_id: i64) -> (r: usize)
    ensures
        final(indexed)@ == old(indexed)@.filter(|id: i64| id != repository_id),
        r == old(indexed)@.len() - final(indexed)@.len(),
{
    let ghost all = indexed@;
    let ghost other = |id: i64| id != repository_id;
    let rows: usize = indexed.len();
    let mut kept: Vec<i64> = Vec::new();
    let mut i: usize = 0;
    proof {
        reveal(Seq::filter);
        assert(all.take(0) =~= Seq::empty());
    }
    while i < rows
        invariant
            i <= rows == all.len(),
            indexed@ == all,
            other == (|id: i64| id != repository_id),
            kept@ == all.take(i as int).filter(other),
            kept@.len() <= i,
        decreases rows - i,
    {
        let id: i64 = indexed[i];
        proof {
            reveal(Seq::filter);
            assert(all.take(i + 1).drop_last() =~= all.take(i as int));
        }
        if id != repository_id {
            kept.push(id);
        }
        i = i + 1;
    }
    assert(all.take(i as int) =~= all);
    let gone: usize = rows - kept.len();
    std::mem::swap(&mut kept, indexed);
    gone
}

/// Whether a repository has chunks of more than one commit.
pub open spec fn has_stale<C>(table: Seq<ChunkRow<C>>, repository_id: i64) -> bool {
    exists|i: int, j: int|
        0 <= i < table.len() && 0 <= j < table.len() && (#[trigger] table[i]).repository_id
            == repository_id && (#[trigger] table[j]).repository_id == repository_id
            && table[i].commit_sha@ != table[j].commit_sha@
}

/// The repositories with more than one snapshot, each once.
pub fn repos_with_stale_snapshots<C>(table: &Vec<ChunkRow<C>>) -> (r: Vec<i64>)
    ensures
        r@.no_duplicates(),
        forall|id: i64| #[trigger] r@.contains(id) <==> has_stale(table@, id),
{
    let mut out: Vec<i64> = Vec::new();
    let mut i: usize = 0;
    while i < table.len()
        invariant
            i <= table@.len(),
            out@.no_duplicates(),
            forall|id: i64| #[trigger] out@.contains(id) ==> has_stale(table@, id),
            forall|a: int|
                0 <= a < i && has_stale(table@, (#[trigger] table@[a]).repository_id)
                    ==> out@.contains(table@[a].repository_id),
        decreases table@.len() - i,
    {
        let id: i64 = table[i].repository_id;
        let mut other: bool = false;
        let mut j: usize = 0;
        while j < table.len()
            invariant
                j <= table@.len(),
                i < table@.len(),
                id == table@[i as int].repository_id,
                other == exists|b: int|
                    0 <= b < j && (#[trigger] table@[b]).repository_id == id
                        && table@[b].commit_sha@ != table@[i as int].commit_sha@,
            decreases table@.len() - j,
        {
            if table[j].repository_id == id && !text::same(
                table[j].commit_sha.as_str(),
                table[i].commit_sha.as_str(),
            ) {
                other = true;
            }
            j = j + 1;
        }
        proof {
            if has_stale(table@, id) && !other {
                let (a, b) = choose|a: int, b: int|
                    0 <= a < table@.len() && 0 <= b < table@.len() && (
                    #[trigger] table@[a]).repository_id == id && (
                    #[trigger] table@[b]).repository_id == id && table@[a].commit_sha@
                        != table@[b].commit_sha@;
                assert(table@[a].commit_sha@ == table@[i as int].commit_sha@);
                assert(table@[b].commit_sha@ == table@[i as int].commit_sha@);
            }
            if other {
                let b = choose|b: int|
                    0 <= b < table@.len() && (#[trigger] table@[b]).repository_id == id
                        && table@[b].commit_sha@ != table@[i as int].commit_sha@;
                assert(table@[i as int].repository_id == id);
            }
        }
        assert(other == has_stale(table@, id));
        let ghost before = out@;
        if other && !holds_id(&out, id) {
            out.push(id);
            proof {
                assert forall|x: i64| #[trigger] out@.contains(x) implies has_stale(
                    table@,
                    x,
                ) by {
                    if x != id {
                        let k = choose|k: int| 0 <= k < out@.len() && out@[k] == x;
                        assert(before[k] == x);
                        assert(before.contains(x));
                    }
                }
                assert forall|a: int| 0 <= a < i + 1 && has_stale(
                    table@,
                    (#[trigger] table@[a]).repository_id,
                ) implies out@.contains(table@[a].repository_id) by {
                    if table@[a].repository_id == id {
                        assert(out@[before.len() as int] == id);
                    } else {
                        let k = choose|k: int|
                            0 <= k < before.len() && before[k] == table@[a].repository_id;
                        assert(before.contains(table@[a].repository_id));
                        assert(out@[k] == table@[a].repository_id);
                    }
                }
            }
        }
        i = i + 1;
    }
    assert forall|id: i64| has_stale(table@, id) implies #[trigger] out@.contains(id) by {
        let (a, b) = choose|a: int, b: int|
            0 <= a < table@.len() && 0 <= b < table@.len() && (#[trigger] table@[a]).repository_id
                == id && (#[trigger] table@[b]).repository_id == id && table@[a].commit_sha@
                != table@[b].commit_sha@;
        assert(table@[a].repository_id == id);
    }
    out
}

/// Whether a run that is not over is for a head of a repository.
pub open spec fn uses(t: TaskRecord, repository_id: i64, commit: Seq<char>) -> bool {
    t.repository_id == repository_id && opt_view(t.head_sha) == Some(commit) && !is_over(t.status)
}

/// Whether a commit of a repository is in use.
pub open spec fn in_use(tasks: Seq<TaskRecord>, repository_id: i64, commit: Seq<char>) -> bool {
    exists|i: int| 0 <= i < tasks.len() && uses(#[trigger] tasks[i], repository_id, commit)
}

/// The commits of a repository that runs still use, each once.
pub fn in_use_commits(tasks: &Vec<TaskRecord>, repository_id: i64) -> (r: Vec<String>)
    ensures
        views(r@).no_duplicates(),
        forall|commit: Seq<char>| #[trigger]
            views(r@).contains(commit) <==> in_use(tasks@, repository_id, commit),
{
    let mut out: Vec<String> = Vec::new();
    let mut i: usize = 0;
    assert(views(out@) =~= Seq::empty());
    while i < tasks.len()
        invariant
            i <= tasks@.len(),
            views(out@).no_duplicates(),
            forall|commit: Seq<char>| #[trigger]
                views(out@).contains(commit) ==> in_use(tasks@, repository_id, commit),
            forall|a: int, commit: Seq<char>|
                0 <= a < i && #[trigger] uses(tasks@[a], repository_id, commit) ==> views(
                    out@,
                ).contains(commit),
        decreases tasks@.len() - i,
    {
        let t = &tasks[i];
        if t.repository_id == repository_id && !t.status.over() {
            if let Some(head) = &t.head_sha {
                let ghost before = views(out@);
                let known: bool = holds_text(&out, head.as_str());
                assert(uses(tasks@[i as int], repository_id, head@));
                if !known {
                    out.push(head.clone());
                    proof {
                        assert(views(out@) =~= before.push(head@));
                        assert forall|commit: Seq<char>| #[trigger] views(out@).contains(
                            commit,
                        ) implies in_use(tasks@, repository_id, commit) by {
                            if commit != head@ {
                                let k = choose|k: int|
                                    0 <= k < views(out@).len() && views(out@)[k] == commit;
                                assert(before[k] == commit);
                                assert(before.contains(commit));
                            }
                        }
                        assert forall|a: int, commit: Seq<char>|
                            0 <= a < i + 1 && #[trigger] uses(
                                tasks@[a],
                                repository_id,
                                commit,
                            ) implies views(out@).contains(commit) by {
                            if commit == head@ {
                                assert(views(out@)[before.len() as int] == commit);
                            } else {
                                assert(before.contains(commit));
                                let k = choose|k: int|
                                    0 <= k < before.len() && before[k] == commit;
                                assert(views(out@)[k] == commit);
                            }
                        }
                    }
                }
            }
        }
        i = i + 1;
    }
    assert forall|commit: Seq<char>| in_use(tasks@, repository_id, commit) implies #[trigger] views(
        out@,
    ).contains(commit) by {
        let a = choose|a: int|
            0 <= a < tasks@.len() && uses(#[trigger] tasks@[a], repository_id, commit);
        assert(uses(tasks@[a], repository_id, commit));
    }
    out
}

/// Whether a run is an index run of a repository that is not over.
pub open spec fn is_indexing(t: TaskRecord, repository_id: i64) -> bool {
    t.repository_id == repository_id && t.command_text@ == "index"@ && !is_over(t.status)
}

/// Whether some run writes an index of a repository.
pub open spec fn is_being_indexed(tasks: Seq<TaskRecord>, repository_id: i64) -> bool {
    exists|i: int| 0 <= i < tasks.len() && is_indexing(#[trigger] tasks[i], repository_id)
}

/// Whether an index of a repository is being written.
pub fn has_active_index_task(tasks: &Vec<TaskRecord>, repository_id: i64) -> (r: bool)
    ensures
        r == is_being_indexed(tasks@, repository_id),
{
    let mut i: usize = 0;
    while i < tasks.len()
        invariant
            i <= tasks@.len(),
            forall|j: int| 0 <= j < i ==> !is_indexing(#[trigger] tasks@[j], repository_id),
        decreases tasks@.len() - i,
    {
        let t = &tasks[i];
        if t.repository_id == repository_id && !t.status.over() && text::same(
            t.command_text.as_str(),
            "index",
        ) {
            assert(is_indexing(tasks@[i as int], repository_id));
            return true;
        }
        i = i + 1;
    }
    false
}

/// The chunks that may be let go: of a repository, of a commit that is not kept, and older than ten
/// minutes. Where nothing is kept, none may.
pub open spec fn prunable<C>(
    table: Seq<ChunkRow<C>>,
    repository_id: i64,
    keep: Seq<Seq<char>>,
    now: i64,
) -> Seq<bool> {
    Seq::new(
        table.len(),
        |i: int|
            keep.len() > 0 && table[i].repository_id == repository_id && !keep.contains(
                table[i].commit_sha@,
            ) && table[i].created_at < now - 10 * MINUTE,
    )
}

/// Lets the snapshots go that are not kept; how many chunks they had.
pub fn prune_code_chunks<C>(
    table: &mut Vec<ChunkRow<C>>,
    repository_id: i64,
    keep: &Vec<String>,
    now: i64,
) -> (r: usize)
    ensures
        final(table)@ == left(
            old(table)@,
            prunable(old(table)@, repository_id, views(keep@), now),
        ),
        r == old(table)@.len() - final(table)@.len(),
{
    let ghost before = table@;
    let cutoff: i128 = now as i128 - 10 * MINUTE;
    let any: bool = keep.len() > 0;
    let mut gone: Vec<bool> = Vec::new();
    let mut i: usize = 0;
    while i < table.len()
        invariant
            i <= table@.len(),
            table@ == before,
            any == (keep@.len() > 0),
            cutoff == now - 10 * MINUTE,
            gone@ =~= prunable(before, repository_id, views(keep@), now).take(i as int),
        decreases table@.len() - i,
    {
        let c = &table[i];
        gone.push(
            any && c.repository_id == repository_id && (c.created_at as i128) < cutoff
                && !holds_text(keep, c.commit_sha.as_str()),
        );
        i = i + 1;
    }
    assert(gone@ =~= prunable(before, repository_id, views(keep@), now));
    let_go(table, &gone)
}

/// Letting snapshots go spares every commit that is kept, every other repository, and everything where
/// nothing is kept.
pub proof fn law_prune_spares_what_is_kept<C>(
    table: Seq<ChunkRow<C>>,
    repository_id: i64,
    keep: Seq<Seq<char>>,
    now: i64,
    i: int,
)
    requires
        0 <= i < table.len(),
        keep.contains(table[i].commit_sha@) || table[i].repository_id != repository_id || keep.len()
            == 0,
    ensures
        left(table, prunable(table, repository_id, keep, now)).contains(table[i]),
{
    lemma_left_spares(table, prunable(table, repository_id, keep, now), i);
}

/// Whether a repository is disabled and still has something indexed.
pub open spec fn needs_purge<C>(
    repo: RepositoryRecord,
    table: Seq<ChunkRow<C>>,
    indexed: Seq<i64>,
) -> bool {
    &&& repo.status == RepoStatus::Disabled
    &&& indexed.contains(repo.id) || exists|i: int|
        0 <= i < table.len() && (#[trigger] table[i]).repository_id == repo.id
}

/// The ids of the repositories that need a purge, in the order of the table.
pub open spec fn purge_list<C>(
    repos: Seq<RepositoryRecord>,
    table: Seq<ChunkRow<C>>,
    indexed: Seq<i64>,
) -> Seq<i64>
    decreases repos.len(),
{
    if repos.len() == 0 {
        Seq::empty()
    } else {
        let init = purge_list(repos.drop_last(), table, indexed);
        if needs_purge(repos.last(), table, indexed) {
            init.push(repos.last().id)
        } else {
            init
        }
    }
}

/// The disabled repositories that still have something indexed, up to a limit. `indexed` are the
/// repositories with indexing state.
pub fn list_disabled_repos_needing_purge<C>(
    repos: &Vec<RepositoryRecord>,
    table: &Vec<ChunkRow<C>>,
    indexed: &Vec<i64>,
    limit: usize,
) -> (r: Vec<i64>)
    ensures
        ({
            let all = purge_list(repos@, table@, indexed@);
            r@ == all.take(
                if all.len() <= limit {
                    all.len() as int
                } else {
                    limit as int
                },
            )
        }),
{
    let mut out: Vec<i64> = Vec::new();
    let mut i: usize = 0;
    assert(repos@.take(0) =~= Seq::empty());
    while i < repos.len()
        invariant
            i <= repos@.len(),
            out@ == purge_list(repos@.take(i as int), table@, indexed@),
        decreases repos@.len() - i,
    {
        assert(repos@.take(i + 1).drop_last() =~= repos@.take(i as int));
        let repo = &repos[i];
        let mut chunked: bool = false;
        let mut j: usize = 0;
        while j < table.len()
            invariant
                j <= table@.len(),
                chunked == exists|k: int|
                    0 <= k < j && (#[trigger] table@[k]).repository_id == repo.id,
            decreases table@.len() - j,
        {
            if table[j].repository_id == repo.id {
                chunked = true;
            }
            j = j + 1;
        }
        if repo.status == RepoStatus::Disabled && (chunked || holds_id(indexed, repo.id)) {
            out.push(repo.id);
        }
        i = i + 1;
    }
    assert(repos@.take(i as int) =~= repos@);
    let ghost all = out@;
    if limit < out.len() {
        out.truncate(limit);
    }
    assert(out@ =~= all.take(
        if all.len() <= limit {
            all.len() as int
        } else {
            limit as int
        },
    ));
    out
}

/// Whether a stored chunk is of the same lines of a commit.
pub open spec fn same_lines<C>(
    row: ChunkRow<C>,
    repository_id: i64,
    commit_sha: Seq<char>,
    c: CodeChunk<C>,
) -> bool {
    &&& row.repository_id == repository_id
    &&& row.commit_sha@ == commit_sha
    &&& row.file_path@ == c.file_path@
    &&& row.start_line == c.start_line
    &&& row.end_line == c.end_line
}

/// Whether `after` is an index with a chunk stored: in the place of the one of the same lines, else at
/// the end.
pub open spec fn is_stored<C>(
    before: Seq<ChunkRow<C>>,
    after: Seq<ChunkRow<C>>,
    repository_id: i64,
    commit_sha: Seq<char>,
    c: CodeChunk<C>,
    now: i64,
) -> bool {
    ||| exists|i: int|
        {
            &&& 0 <= i < before.len()
            &&& same_lines(#[trigger] before[i], repository_id, commit_sha, c)
            &&& after == before.update(i, ChunkRow { content: c.content, ..before[i] })
        }
    ||| {
        &&& forall|i: int|
            0 <= i < before.len() ==> !same_lines(
                #[trigger] before[i],
                repository_id,
                commit_sha,
                c,
            )
        &&& after.len() == before.len() + 1
        &&& after.take(before.len() as int) == before
        &&& same_lines(after.last(), repository_id, commit_sha, c)
        &&& after.last().id == c.fresh_id
        &&& after.last().content == c.content
        &&& after.last().created_at == now
    }
}

fn store_chunk<C>(
    table: &mut Vec<ChunkRow<C>>,
    repository_id: i64,
    commit_sha: &str,
    c: CodeChunk<C>,
    now: i64,
)
    ensures
        is_stored(old(table)@, final(table)@, repository_id, commit_sha@, c, now),
{
    let ghost before = table@;
    let mut i: usize = 0;
    while i < table.len()
        invariant
            i <= table@.len(),
            table@ == before,
            before == old(table)@,
            forall|j: int|
                0 <= j < i ==> !same_lines(#[trigger] before[j], repository_id, commit_sha@, c),
        decreases table@.len() - i,
    {
        let row = &table[i];
        if row.repository_id == repository_id && row.start_line == c.start_line && row.end_line
            == c.end_line && text::same(row.commit_sha.as_str(), commit_sha) && text::same(
            row.file_path.as_str(),
            c.file_path.as_str(),
        ) {
            assert(same_lines(before[i as int], repository_id, commit_sha@, c));
            table[i].content = c.content;
            assert(table@ =~= before.update(
                i as int,
                ChunkRow { content: c.content, ..before[i as int] },
            ));
            return ;
        }
        i = i + 1;
    }
    table.push(
        ChunkRow {
            id: c.fresh_id,
            repository_id,
            commit_sha: commit_sha.to_owned(),
            file_path: c.file_path,
            start_line: c.start_line,
            end_line: c.end_line,
            content: c.content,
            created_at: now,
        },
    );
    assert(table@.take(before.len() as int) =~= before);
}

/// Whether `trace` leads from one index to another by storing chunks one after the other.
pub open spec fn is_trace<C>(
    trace: Seq<Seq<ChunkRow<C>>>,
    repository_id: i64,
    commit_sha: Seq<char>,
    chunks: Seq<CodeChunk<C>>,
    now: i64,
) -> bool {
    &&& trace.len() == chunks.len() + 1
    &&& forall|k: int|
        0 <= k < chunks.len() ==> is_stored(
            #[trigger] trace[k],
            trace[k + 1],
            repository_id,
            commit_sha,
            chunks[k],
            now,
        )
}

/// Stores the chunks of a commit; how many. A chunk of lines that are indexed already replaces what was
/// indexed of them.
pub fn upsert_code_chunks<C>(
    table: &mut Vec<ChunkRow<C>>,
    repository_id: i64,
    commit_sha: &str,
    chunks: Vec<CodeChunk<C>>,
    now: i64,
) -> (r: usize)
    ensures
        r == chunks@.len(),
        exists|trace: Seq<Seq<ChunkRow<C>>>| #[trigger]
            is_trace(trace, repository_id, commit_sha@, chunks@, now) && trace[0] == old(table)@
                && trace.last() == final(table)@,
{
    let ghost given = chunks@;
    let count: usize = chunks.len();
    let mut rest: Vec<CodeChunk<C>> = chunks;
    let ghost mut trace: Seq<Seq<ChunkRow<C>>> = seq![table@];
    let ghost mut done: int = 0;
    assert(rest@ =~= given.skip(0));
    while rest.len() > 0
        invariant
            0 <= done <= given.len(),
            rest@ == given.skip(done),
            trace.len() == done + 1,
            trace[0] == old(table)@,
            trace.last() == table@,
            forall|k: int|
                0 <= k < done ==> is_stored(
                    #[trigger] trace[k],
                    trace[k + 1],
                    repository_id,
                    commit_sha@,
                    given[k],
                    now,
                ),
        decreases rest@.len(),
    {
        let c: CodeChunk<C> = rest.remove(0);
        let ghost chunk = c;
        assert(rest@ =~= given.skip(done + 1));
        store_chunk(table, repository_id, commit_sha, c, now);
        proof {
            let longer = trace.push(table@);
            assert forall|k: int| 0 <= k < done + 1 implies is_stored(
                #[trigger] longer[k],
                longer[k + 1],
                repository_id,
                commit_sha@,
                given[k],
                now,
            ) by {
                if k < done {
                    assert(longer[k] == trace[k] && longer[k + 1] == trace[k + 1]);
                }
            }
            trace = longer;
            done = done + 1;
        }
    }
    assert(is_trace(trace, repository_id, commit_sha@, given, now));
    count
}

/// The text of a vector, from the texts of its numbers.
pub fn vector_literal(numbers: &Vec<String>) -> (r: String)
    ensures
        r@ == "["@ + joined(views(numbers@), ","@) + "]"@,
{
    let mut r: String = "[".to_owned();
    r.append(text::join(numbers, ",").as_str());
    r.append("]");
    r
}

/// What to do about the width of the stored vectors.
#[derive(Clone, Copy, Debug, PartialEq, Eq, Structural)]
pub enum DimensionChange {
    Keep,
    /// Empty the index and store vectors of this width.
    Rebuild(i64),
}

/// The refusal to empty the index for a width that was not meant to change.
pub open spec fn dimension_refusal(current: i64, dimension: i64) -> Seq<char> {
    "embedding dimension changed ("@ + text::decimal(current as int) + " → "@ + text::decimal(
        dimension as int,
    )
        + ") but embeddings.allow_reindex_on_dim_change is false; refusing to wipe code_chunks. Set the flag to reindex from scratch, or revert the dimension."@
}

/// Decides what to do about the width of the stored vectors: `current` is what the store has, where it
/// has a fixed one. The index is emptied only where that is allowed.
pub fn reconcile_embedding_dimension(current: Option<i32>, dimension: i64, allow_clear: bool) -> (r:
    Result<DimensionChange, String>)
    ensures
        match r {
            Ok(DimensionChange::Keep) => current is None || current->0 <= 0 || current->0
                == dimension,
            Ok(DimensionChange::Rebuild(d)) => current is Some && current->0 > 0 && current->0
                != dimension && allow_clear && d == dimension,
            Err(message) => current is Some && current->0 > 0 && current->0 != dimension
                && !allow_clear && message@ == dimension_refusal(current->0 as i64, dimension),
        },
{
    let width: i64 = match current {
        Some(width) if width > 0 => width as i64,
        _ => return Ok(DimensionChange::Keep),
    };
    if width == dimension {
        return Ok(DimensionChange::Keep);
    }
    if allow_clear {
        return Ok(DimensionChange::Rebuild(dimension));
    }
    let mut message: String = "embedding dimension changed (".to_owned();
    message.append(text::i64_text(width).as_str());
    message.append(" → ");
    message.append(text::i64_text(dimension).as_str());
    message.append(
        ") but embeddings.allow_reindex_on_dim_change is false; refusing to wipe code_chunks. Set the flag to reindex from scratch, or revert the dimension.",
    );
    Err(message)
}

} // verus!
