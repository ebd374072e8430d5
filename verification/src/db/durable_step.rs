//! The journal of a run's steps, so that a run that is taken up again does not repeat them.

use vstd::prelude::*;

use crate::db::rows::{left, lemma_left_map, lemma_left_spares, let_go};
use crate::text;
use crate::text::opt_view;

verus! {

/// A journaled step.
#[derive(Debug)]
pub struct DurableStep {
    pub task_id: u128,
    pub run_epoch: i32,
    pub step_name: String,
    /// The result in the database's own writing of it.
    pub result: Option<String>,
    pub content_hash: String,
    pub created_at: i64,
}

/// The mathematical value of a [`DurableStep`].
#[verifier::ext_equal]
pub struct StepView {
    pub task_id: u128,
    pub run_epoch: i32,
    pub step_name: Seq<char>,
    pub result: Option<Seq<char>>,
    pub content_hash: Seq<char>,
    pub created_at: i64,
}

impl View for DurableStep {
    type V = StepView;

    open spec fn view(&self) -> StepView {
        StepView {
            task_id: self.task_id,
            run_epoch: self.run_epoch,
            step_name: self.step_name@,
            result: opt_view(self.result),
            content_hash: self.content_hash@,
            created_at: self.created_at,
        }
    }
}

/// The values of a journal.
pub open spec fn steps(rows: Seq<DurableStep>) -> Seq<StepView> {
    Seq::new(rows.len(), |i: int| rows[i]@)
}

/// What a journaled step gave.
#[derive(Debug)]
pub struct DurableStepRow {
    pub result: Option<String>,
    pub content_hash: String,
}

/// Whether a step is of a run.
pub open spec fn is_of_run(s: StepView, task_id: u128, run_epoch: i32) -> bool {
    s.task_id == task_id && s.run_epoch == run_epoch
}

/// Whether a step is the one of that name of a run.
pub open spec fn is_step(s: StepView, task_id: u128, run_epoch: i32, step_name: Seq<char>) -> bool {
    is_of_run(s, task_id, run_epoch) && s.step_name == step_name
}

/// The place of a step in a journal, where it has been done; of several, the first.
pub open spec fn found(
    table: Seq<StepView>,
    task_id: u128,
    run_epoch: i32,
    step_name: Seq<char>,
) -> Option<int>
    decreases table.len(),
{
    if table.len() == 0 {
        None
    } else {
        match found(table.drop_last(), task_id, run_epoch, step_name) {
            Some(i) => Some(i),
            None => if is_step(table.last(), task_id, run_epoch, step_name) {
                Some(table.len() - 1)
            } else {
                None
            },
        }
    }
}

proof fn lemma_found(table: Seq<StepView>, task_id: u128, run_epoch: i32, step_name: Seq<char>)
    ensures
        match found(table, task_id, run_epoch, step_name) {
            Some(i) => 0 <= i < table.len() && is_step(table[i], task_id, run_epoch, step_name)
                && forall|j: int|
                0 <= j < i ==> !is_step(#[trigger] table[j], task_id, run_epoch, step_name),
            None => forall|j: int|
                0 <= j < table.len() ==> !is_step(
                    #[trigger] table[j],
                    task_id,
                    run_epoch,
                    step_name,
                ),
        },
    decreases table.len(),
{
    if table.len() > 0 {
        lemma_found(table.drop_last(), task_id, run_epoch, step_name);
        let init = table.drop_last();
        assert forall|j: int| 0 <= j < init.len() implies init[j] == #[trigger] table[j] by {}
    }
}

proof fn lemma_found_is(
    table: Seq<StepView>,
    task_id: u128,
    run_epoch: i32,
    step_name: Seq<char>,
    i: int,
)
    requires
        0 <= i < table.len(),
        is_step(table[i], task_id, run_epoch, step_name),
        forall|j: int| 0 <= j < i ==> !is_step(#[trigger] table[j], task_id, run_epoch, step_name),
    ensures
        found(table, task_id, run_epoch, step_name) == Some(i),
{
    lemma_found(table, task_id, run_epoch, step_name);
}

fn place_of(rows: &Vec<DurableStep>, task_id: u128, run_epoch: i32, step_name: &str) -> (r: Option<
    usize,
>)
    ensures
        match r {
            Some(i) => found(steps(rows@), task_id, run_epoch, step_name@) == Some(i as int) && i
                < rows@.len(),
            None => found(steps(rows@), task_id, run_epoch, step_name@) is None,
        },
{
    let ghost table = steps(rows@);
    let mut i: usize = 0;
    while i < rows.len()
        invariant
            i <= rows@.len(),
            table == steps(rows@),
            forall|j: int|
                0 <= j < i ==> !is_step(#[trigger] table[j], task_id, run_epoch, step_name@),
        decreases rows@.len() - i,
    {
        assert(table[i as int] == rows@[i as int]@);
        if rows[i].task_id == task_id && rows[i].run_epoch == run_epoch && text::same(
            rows[i].step_name.as_str(),
            step_name,
        ) {
            proof {
                lemma_found_is(table, task_id, run_epoch, step_name@, i as int);
            }
            return Some(i);
        }
        i = i + 1;
    }
    proof {
        lemma_found(table, task_id, run_epoch, step_name@);
    }
    None
}

/// Whether some step of a run is in a journal.
pub open spec fn has_begun(table: Seq<StepView>, task_id: u128, run_epoch: i32) -> bool {
    exists|i: int| 0 <= i < table.len() && is_of_run(#[trigger] table[i], task_id, run_epoch)
}

/// Whether a run has journaled any step.
pub fn has_durable_steps(rows: &Vec<DurableStep>, task_id: u128, run_epoch: i32) -> (r: bool)
    ensures
        r == has_begun(steps(rows@), task_id, run_epoch),
{
    let ghost table = steps(rows@);
    let mut i: usize = 0;
    while i < rows.len()
        invariant
            i <= rows@.len(),
            table == steps(rows@),
            forall|j: int| 0 <= j < i ==> !is_of_run(#[trigger] table[j], task_id, run_epoch),
        decreases rows@.len() - i,
    {
        assert(table[i as int] == rows@[i as int]@);
        if rows[i].task_id == task_id && rows[i].run_epoch == run_epoch {
            assert(is_of_run(steps(rows@)[i as int], task_id, run_epoch));
            return true;
        }
        i = i + 1;
    }
    false
}

/// A step as it is first journaled.
pub open spec fn new_step(
    task_id: u128,
    run_epoch: i32,
    step_name: Seq<char>,
    result: Seq<char>,
    content_hash: Seq<char>,
    now: i64,
) -> StepView {
    StepView { task_id, run_epoch, step_name, result: Some(result), content_hash, created_at: now }
}

/// A journal with a step done. One that was done already gets the new result.
pub open spec fn journaled(
    table: Seq<StepView>,
    task_id: u128,
    run_epoch: i32,
    step_name: Seq<char>,
    result: Seq<char>,
    content_hash: Seq<char>,
    now: i64,
) -> Seq<StepView> {
    match found(table, task_id, run_epoch, step_name) {
        Some(i) => table.update(
            i,
            StepView { result: Some(result), content_hash, ..table[i] },
        ),
        None => table.push(
            new_step(task_id, run_epoch, step_name, result, content_hash, now),
        ),
    }
}

/// A result that is no JSON, which no step is journaled with.
#[derive(Debug, PartialEq, Eq)]
pub struct InvalidResult;

/// Journals what a step gave. A journal keeps JSON values, not the text they came in: `cast` is what the
/// database's cast to `jsonb` makes of the result, which is the database's own writing of the value, and
/// `None` where the result is no JSON. That writing is what is kept; without one nothing is.
pub fn upsert_durable_step(
    rows: &mut Vec<DurableStep>,
    task_id: u128,
    run_epoch: i32,
    step_name: &str,
    cast: Option<&str>,
    content_hash: &str,
    now: i64,
) -> (r: Result<(), InvalidResult>)
    ensures
        match cast {
            Some(result) => r is Ok && steps(final(rows)@) == journaled(
                steps(old(rows)@),
                task_id,
                run_epoch,
                step_name@,
                result@,
                content_hash@,
                now,
            ),
            None => r == Err::<(), InvalidResult>(InvalidResult) && final(rows)@ == old(rows)@,
        },
{
    let result: &str = match cast {
        Some(result) => result,
        None => return Err(InvalidResult),
    };
    let ghost before = steps(rows@);
    match place_of(rows, task_id, run_epoch, step_name) {
        Some(i) => {
            rows[i].result = Some(result.to_owned());
            rows[i].content_hash = content_hash.to_owned();
            assert(steps(rows@) =~= before.update(
                i as int,
                StepView {
                    result: Some(result@),
                    content_hash: content_hash@,
                    ..before[i as int]
                },
            ));
        },
        None => {
            let row = DurableStep {
                task_id,
                run_epoch,
                step_name: step_name.to_owned(),
                result: Some(result.to_owned()),
                content_hash: content_hash.to_owned(),
                created_at: now,
            };
            let ghost row_view = row@;
            rows.push(row);
            assert(steps(rows@) =~= before.push(row_view));
        },
    }
    Ok(())
}

/// What a journal says of a step: its result and hash, where it was done.
pub open spec fn recalled(
    table: Seq<StepView>,
    task_id: u128,
    run_epoch: i32,
    step_name: Seq<char>,
) -> Option<(Option<Seq<char>>, Seq<char>)> {
    match found(table, task_id, run_epoch, step_name) {
        Some(i) => Some((table[i].result, table[i].content_hash)),
        None => None,
    }
}

/// What a step gave, as it is kept, where it was done.
pub fn fetch_durable_step(
    rows: &Vec<DurableStep>,
    task_id: u128,
    run_epoch: i32,
    step_name: &str,
) -> (r: Option<DurableStepRow>)
    ensures
        (match r {
            Some(row) => Some((opt_view(row.result), row.content_hash@)),
            None => None,
        }) == recalled(steps(rows@), task_id, run_epoch, step_name@),
{
    match place_of(rows, task_id, run_epoch, step_name) {
        Some(i) => {
            assert(steps(rows@)[i as int] == rows@[i as int]@);
            Some(
                DurableStepRow {
                    result: text::copy_opt(&rows[i].result),
                    content_hash: rows[i].content_hash.clone(),
                },
            )
        },
        None => None,
    }
}

/// A step that is journaled is recalled with the kept form of what it gave last, and journaling it leaves
/// every other step as it was.
pub proof fn law_journal_recalls_the_last_result(
    table: Seq<StepView>,
    task_id: u128,
    run_epoch: i32,
    step_name: Seq<char>,
    result: Seq<char>,
    content_hash: Seq<char>,
    now: i64,
    other_task: u128,
    other_epoch: i32,
    other_name: Seq<char>,
)
    ensures
        ({
            let after = journaled(table, task_id, run_epoch, step_name, result, content_hash, now);
            &&& recalled(after, task_id, run_epoch, step_name) == Some(
                (Some(result), content_hash),
            )
            &&& (other_task != task_id || other_epoch != run_epoch || other_name != step_name)
                ==> recalled(after, other_task, other_epoch, other_name) == recalled(
                table,
                other_task,
                other_epoch,
                other_name,
            )
        }),
{
    let after = journaled(table, task_id, run_epoch, step_name, result, content_hash, now);
    lemma_found(table, task_id, run_epoch, step_name);
    lemma_found(table, other_task, other_epoch, other_name);
    let at = match found(table, task_id, run_epoch, step_name) {
        Some(i) => i,
        None => table.len() as int,
    };
    assert(is_step(after[at], task_id, run_epoch, step_name));
    assert forall|j: int| 0 <= j < at implies !is_step(
        #[trigger] after[j],
        task_id,
        run_epoch,
        step_name,
    ) by {
        assert(after[j] == table[j]);
    }
    lemma_found_is(after, task_id, run_epoch, step_name, at);
    if other_task != task_id || other_epoch != run_epoch || other_name != step_name {
        match found(table, other_task, other_epoch, other_name) {
            Some(i) => {
                assert(after[i] == table[i]);
                assert forall|j: int| 0 <= j < i implies !is_step(
                    #[trigger] after[j],
                    other_task,
                    other_epoch,
                    other_name,
                ) by {
                    assert(!is_step(table[j], other_task, other_epoch, other_name));
                }
                lemma_found_is(after, other_task, other_epoch, other_name, i);
            },
            None => {
                lemma_found(after, other_task, other_epoch, other_name);
                assert forall|j: int| 0 <= j < after.len() implies !is_step(
                    #[trigger] after[j],
                    other_task,
                    other_epoch,
                    other_name,
                ) by {
                    if j < table.len() {
                        assert(!is_step(table[j], other_task, other_epoch, other_name));
                    }
                }
            },
        }
    }
}

fn drop_steps(rows: &mut Vec<DurableStep>, gone: &Vec<bool>) -> (r: usize)
    requires
        gone@.len() == old(rows)@.len(),
    ensures
        steps(final(rows)@) == left(steps(old(rows)@), gone@),
        r == old(rows)@.len() - final(rows)@.len(),
{
    let ghost before = rows@;
    let count: usize = let_go(rows, gone);
    proof {
        let value = |s: DurableStep| s@;
        lemma_left_map(before, gone@, value);
        assert(steps(before) =~= before.map_values(value));
        assert(steps(rows@) =~= rows@.map_values(value));
    }
    count
}

/// The steps of a run.
pub open spec fn of_run(table: Seq<StepView>, task_id: u128, run_epoch: i32) -> Seq<bool> {
    Seq::new(table.len(), |i: int| is_of_run(table[i], task_id, run_epoch))
}

/// Forgets the journal of a run that is done; how many steps it had.
pub fn purge_durable_steps(rows: &mut Vec<DurableStep>, task_id: u128, run_epoch: i32) -> (r: usize)
    ensures
        steps(final(rows)@) == left(
            steps(old(rows)@),
            of_run(steps(old(rows)@), task_id, run_epoch),
        ),
        r == old(rows)@.len() - final(rows)@.len(),
{
    let ghost table = steps(rows@);
    let mut gone: Vec<bool> = Vec::new();
    let mut i: usize = 0;
    while i < rows.len()
        invariant
            i <= rows@.len(),
            table == steps(rows@),
            gone@ =~= of_run(table, task_id, run_epoch).take(i as int),
        decreases rows@.len() - i,
    {
        gone.push(rows[i].task_id == task_id && rows[i].run_epoch == run_epoch);
        i = i + 1;
    }
    assert(gone@ =~= of_run(table, task_id, run_epoch));
    drop_steps(rows, &gone)
}

/// The steps older than so many seconds; none where they are not positive.
pub open spec fn stale(table: Seq<StepView>, retention: i64, now: i64) -> Seq<bool> {
    Seq::new(
        table.len(),
        |i: int| retention > 0 && table[i].created_at < now - retention,
    )
}

/// Forgets the steps that are older than `retention`, whatever became of their runs; how many there
/// were. Without a retention none are.
pub fn sweep_durable_steps(rows: &mut Vec<DurableStep>, retention: i64, now: i64) -> (r: usize)
    ensures
        steps(final(rows)@) == left(
            steps(old(rows)@),
            stale(steps(old(rows)@), retention, now),
        ),
        r == old(rows)@.len() - final(rows)@.len(),
{
    let ghost table = steps(rows@);
    let cutoff: i128 = now as i128 - retention as i128;
    let mut gone: Vec<bool> = Vec::new();
    let mut i: usize = 0;
    while i < rows.len()
        invariant
            i <= rows@.len(),
            cutoff == now - retention,
            table == steps(rows@),
            gone@ =~= stale(table, retention, now).take(i as int),
        decreases rows@.len() - i,
    {
        gone.push(retention > 0 && (rows[i].created_at as i128) < cutoff);
        i = i + 1;
    }
    assert(gone@ =~= stale(table, retention, now));
    drop_steps(rows, &gone)
}

/// Forgetting a run's journal spares every other run, and a sweep with no retention spares everything.
pub proof fn law_journals_are_forgotten_apart(
    table: Seq<StepView>,
    task_id: u128,
    run_epoch: i32,
    retention: i64,
    now: i64,
    i: int,
)
    requires
        0 <= i < table.len(),
    ensures
        !is_of_run(table[i], task_id, run_epoch) ==> left(
            table,
            of_run(table, task_id, run_epoch),
        ).contains(table[i]),
        retention <= 0 ==> left(table, stale(table, retention, now)).contains(table[i]),
{
    if !is_of_run(table[i], task_id, run_epoch) {
        lemma_left_spares(table, of_run(table, task_id, run_epoch), i);
    }
    if retention <= 0 {
        lemma_left_spares(table, stale(table, retention, now), i);
    }
}

/// A patch that is kept beside the journal, under the hash of its content.
#[derive(Debug)]
pub struct PrOpenBlob {
    pub content_hash: String,
    pub task_id: u128,
    pub run_epoch: i32,
    pub patch: Vec<u8>,
}

/// The patch kept under a hash.
pub open spec fn blob_at(blobs: Seq<PrOpenBlob>, content_hash: Seq<char>) -> Option<Seq<u8>>
    decreases blobs.len(),
{
    if blobs.len() == 0 {
        None
    } else {
        match blob_at(blobs.drop_last(), content_hash) {
            Some(patch) => Some(patch),
            None => if blobs.last().content_hash@ == content_hash {
                Some(blobs.last().patch@)
            } else {
                None
            },
        }
    }
}

/// The patch kept under a hash, where it is still there.
pub fn get_pr_open_blob<'a>(blobs: &'a Vec<PrOpenBlob>, content_hash: &str) -> (r: Option<
    &'a Vec<u8>,
>)
    ensures
        (match r {
            Some(patch) => Some(patch@),
            None => None,
        }) == blob_at(blobs@, content_hash@),
{
    let mut kept: Option<&'a Vec<u8>> = None;
    let mut i: usize = 0;
    assert(blobs@.take(0) =~= Seq::empty());
    while i < blobs.len()
        invariant
            i <= blobs@.len(),
            (match kept {
                Some(patch) => Some(patch@),
                None => None,
            }) == blob_at(blobs@.take(i as int), content_hash@),
        decreases blobs@.len() - i,
    {
        assert(blobs@.take(i + 1).drop_last() =~= blobs@.take(i as int));
        if kept.is_none() && text::same(blobs[i].content_hash.as_str(), content_hash) {
            kept = Some(&blobs[i].patch);
        }
        i = i + 1;
    }
    assert(blobs@.take(i as int) =~= blobs@);
    kept
}

/// Keeps a patch under its hash; one that is kept already stays.
pub fn put_pr_open_blob(blobs: &mut Vec<PrOpenBlob>, blob: PrOpenBlob)
    ensures
        final(blobs)@ == (if blob_at(old(blobs)@, blob.content_hash@) is Some {
            old(blobs)@
        } else {
            old(blobs)@.push(blob)
        }),
{
    if get_pr_open_blob(blobs, blob.content_hash.as_str()).is_none() {
        blobs.push(blob);
    }
}

/// A patch that is kept is given back, and keeping it again changes nothing.
pub proof fn law_patch_is_given_back(blobs: Seq<PrOpenBlob>, blob: PrOpenBlob)
    requires
        blob_at(blobs, blob.content_hash@) is None,
    ensures
        blob_at(blobs.push(blob), blob.content_hash@) == Some(blob.patch@),
{
    assert(blobs.push(blob).drop_last() =~= blobs);
}

} // verus!
