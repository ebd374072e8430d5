//! Reactions to posted comments: which comments to look at, and what they amount to.

use vstd::prelude::*;

use crate::db::clock::{DAY, SECOND};
use crate::db::repositories::{find_by_id, is_repository_at, RepositoryRecord};
use crate::db::reviews::ReviewComment;
use crate::db::tasks::{get_task, is_task_at, runs, TaskRecord, TaskView};
use crate::order;
use crate::order::{arranges, Key};
use crate::platform::Platform;
use crate::text;
use crate::text::{
    lemma_text_le_antisymmetric, lemma_text_le_total, lemma_text_le_transitive, opt_view, text_le,
};

verus! {

/// A posted comment as it is stored.
#[derive(Debug)]
pub struct StoredComment {
    pub id: u128,
    pub task_id: u128,
    pub platform_comment_id: i64,
    pub kind: String,
    pub created_at: i64,
}

/// A posted comment, with what it takes to ask its forge for the reactions.
#[derive(Debug)]
pub struct PollableComment {
    pub task_id: u128,
    pub platform_comment_id: i64,
    pub kind: String,
    pub owner: String,
    pub name: String,
    pub installation_id: i64,
    pub platform: Platform,
    /// The number of the pull request or issue.
    pub target_id: i64,
    /// `"pull_request"` or `"issue"`.
    pub target_type: String,
}

/// The remainder that has the sign of what is divided.
pub open spec fn truncated_mod(n: int, by: int) -> int {
    if n >= 0 {
        n % by
    } else {
        -((-n) % by)
    }
}

fn remainder(n: i64, by: i64) -> (r: i64)
    requires
        by > 0,
    ensures
        r == truncated_mod(n as int, by as int),
{
    if n >= 0 {
        n % by
    } else {
        let wide: i128 = -(n as i128);
        let left: i128 = wide % (by as i128);
        (-left) as i64
    }
}

/// The quotient without its fraction.
pub open spec fn truncated_div(n: int, by: int) -> int {
    if n >= 0 {
        n / by
    } else {
        -((-n) / by)
    }
}

fn quotient(n: i128, by: i128) -> (r: i128)
    requires
        by > 0,
        n > i128::MIN,
    ensures
        r == truncated_div(n as int, by as int),
        n >= 0 ==> 0 <= r <= n,
        n < 0 ==> n <= r <= 0,
{
    let size: i128 = if n >= 0 {
        n
    } else {
        -n
    };
    let r: i128 = size / by;
    assert(0 <= r <= size) by (nonlinear_arith)
        requires
            r == size / by,
            by >= 1,
            size >= 0,
    ;
    if n >= 0 {
        r
    } else {
        -r
    }
}

/// The seconds of an instant, to the nearest; half a second counts away from zero.
pub open spec fn nearest_second(now: i64) -> int {
    truncated_div(
        if now >= 0 {
            now + 500_000
        } else {
            now - 500_000
        },
        SECOND as int,
    )
}

/// The number of a poll cycle. An interval that is not positive counts as a second.
pub open spec fn cycle_of(now: i64, interval_secs: i64) -> int {
    truncated_div(
        nearest_second(now),
        if interval_secs < 1 {
            1int
        } else {
            interval_secs as int
        },
    )
}

/// Whether a comment of a run is looked at in a cycle: one of the last day in every cycle, one of the
/// last three days in one cycle of twelve, and an older one in one of seventy-two. A comment of a run that
/// is past its days is not looked at.
pub open spec fn is_polled(
    c: StoredComment,
    task_created_at: i64,
    within_days: i32,
    cycle: int,
    now: i64,
) -> bool {
    &&& task_created_at > now - within_days * DAY
    &&& {
        ||| c.created_at > now - DAY
        ||| c.created_at >= now - 3 * DAY && c.created_at <= now - DAY && truncated_mod(
            c.platform_comment_id as int,
            12,
        ) == truncated_mod(cycle, 12)
        ||| c.created_at < now - 3 * DAY && truncated_mod(c.platform_comment_id as int, 72)
            == truncated_mod(cycle, 72)
    }
}

/// Whether `t` is the place of a comment's run and `r` that of the run's repository.
pub open spec fn is_of(
    c: StoredComment,
    tasks: Seq<TaskRecord>,
    repos: Seq<RepositoryRecord>,
    t: int,
    r: int,
) -> bool {
    is_task_at(tasks, c.task_id, t) && is_repository_at(repos, tasks[t].repository_id, r)
}

/// Which comments are looked at: those due whose run and whose run's repository are known.
pub open spec fn polled(
    comments: Seq<StoredComment>,
    tasks: Seq<TaskRecord>,
    repos: Seq<RepositoryRecord>,
    within_days: i32,
    cycle: int,
    now: i64,
) -> Seq<bool> {
    Seq::new(
        comments.len(),
        |i: int|
            exists|t: int, r: int| #[trigger]
                is_of(comments[i], tasks, repos, t, r) && is_polled(
                    comments[i],
                    tasks[t].created_at,
                    within_days,
                    cycle,
                    now,
                ),
    )
}

/// Whether a row is a comment with what its run and repository add.
pub open spec fn is_pollable(
    row: PollableComment,
    c: StoredComment,
    tasks: Seq<TaskRecord>,
    repos: Seq<RepositoryRecord>,
) -> bool {
    &&& row.task_id == c.task_id
    &&& row.platform_comment_id == c.platform_comment_id
    &&& row.kind@ == c.kind@
    &&& exists|t: int, r: int| #[trigger]
        is_of(c, tasks, repos, t, r) && row.owner@ == repos[r].owner@ && row.name@ == repos[r].name@
            && row.platform == repos[r].platform && row.installation_id == tasks[t].installation_id
            && row.target_id == tasks[t].target_id && row.target_type@ == tasks[t].target_type@
}

/// Whether rows are the comments at places, one for each, in order.
pub open spec fn are_pollable(
    rows: Seq<PollableComment>,
    places: Seq<usize>,
    comments: Seq<StoredComment>,
    tasks: Seq<TaskRecord>,
    repos: Seq<RepositoryRecord>,
) -> bool {
    &&& rows.len() == places.len()
    &&& forall|k: int|
        0 <= k < rows.len() ==> is_pollable(
            #[trigger] rows[k],
            comments[places[k] as int],
            tasks,
            repos,
        )
}

/// Comments by age, then by id.
pub open spec fn by_age(comments: Seq<StoredComment>) -> Seq<Key> {
    Seq::new(
        comments.len(),
        |i: int| Key { major: comments[i].created_at as i128, minor: 0, id: comments[i].id },
    )
}

/// The places of a comment's run and of the run's repository.
fn run_and_repository(
    c: &StoredComment,
    tasks: &Vec<TaskRecord>,
    repos: &Vec<RepositoryRecord>,
) -> (places: Option<(usize, usize)>)
    ensures
        match places {
            Some((t, r)) => is_of(*c, tasks@, repos@, t as int, r as int),
            None => forall|t: int, r: int| !#[trigger] is_of(*c, tasks@, repos@, t, r),
        },
{
    let t: usize = match get_task(tasks, c.task_id) {
        Some(t) => t,
        None => return None,
    };
    assert(is_task_at(tasks@, c.task_id, t as int));
    match find_by_id(repos, tasks[t].repository_id) {
        Some(r) => Some((t, r)),
        None => None,
    }
}

/// The comments to look at in this cycle, oldest first, each with its run's and repository's part.
pub fn list_pollable_comments(
    comments: &Vec<StoredComment>,
    tasks: &Vec<TaskRecord>,
    repos: &Vec<RepositoryRecord>,
    within_days: i32,
    interval_secs: i64,
    now: i64,
) -> (rows: Vec<PollableComment>)
    ensures
        exists|places: Seq<usize>| #[trigger]
            are_pollable(rows@, places, comments@, tasks@, repos@) && arranges(
                places,
                polled(
                    comments@,
                    tasks@,
                    repos@,
                    within_days,
                    cycle_of(now, interval_secs),
                    now,
                ),
                by_age(comments@),
            ),
{
    let interval: i128 = if interval_secs < 1 {
        1
    } else {
        interval_secs as i128
    };
    let shifted: i128 = if now >= 0 {
        now as i128 + 500_000
    } else {
        now as i128 - 500_000
    };
    let cycle: i128 = quotient(quotient(shifted, SECOND), interval);
    assert(cycle == cycle_of(now, interval_secs));
    let of_twelve: i64 = remainder(cycle as i64, 12);
    let of_seventy_two: i64 = remainder(cycle as i64, 72);
    let wide_now: i128 = now as i128;
    let ghost due = polled(
        comments@,
        tasks@,
        repos@,
        within_days,
        cycle_of(now, interval_secs),
        now,
    );
    let mut selected: Vec<bool> = Vec::new();
    let mut keys: Vec<Key> = Vec::new();
    let mut i: usize = 0;
    while i < comments.len()
        invariant
            i <= comments@.len(),
            wide_now == now,
            of_twelve == truncated_mod(cycle_of(now, interval_secs), 12),
            of_seventy_two == truncated_mod(cycle_of(now, interval_secs), 72),
            due == polled(
                comments@,
                tasks@,
                repos@,
                within_days,
                cycle_of(now, interval_secs),
                now,
            ),
            selected@ =~= due.take(i as int),
            keys@ =~= by_age(comments@).take(i as int),
        decreases comments@.len() - i,
    {
        let c = &comments[i];
        let at: i128 = c.created_at as i128;
        let fresh: bool = at > wide_now - DAY;
        let recent: bool = at >= wide_now - 3 * DAY && at <= wide_now - DAY;
        let old: bool = at < wide_now - 3 * DAY;
        let in_turn: bool = fresh || (recent && remainder(c.platform_comment_id, 12) == of_twelve) || (
        old && remainder(c.platform_comment_id, 72) == of_seventy_two);
        let is_due: bool = match run_and_repository(c, tasks, repos) {
            Some((t, r)) => {
                let in_days: bool = tasks[t].created_at as i128 > wide_now - within_days as i128
                    * DAY;
                assert(is_of(*c, tasks@, repos@, t as int, r as int));
                proof {
                    lemma_one_run(*c, tasks@, repos@, t as int, r as int);
                }
                in_days && in_turn
            },
            None => false,
        };
        assert(is_due == due[i as int]);
        selected.push(is_due);
        keys.push(Key { major: at, minor: 0, id: c.id });
        i = i + 1;
    }
    assert(selected@ =~= due);
    assert(keys@ =~= by_age(comments@));
    let places: Vec<usize> = order::arrange(&selected, &keys);
    let mut rows: Vec<PollableComment> = Vec::new();
    let mut k: usize = 0;
    while k < places.len()
        invariant
            k <= places@.len(),
            due == polled(
                comments@,
                tasks@,
                repos@,
                within_days,
                cycle_of(now, interval_secs),
                now,
            ),
            arranges(places@, due, by_age(comments@)),
            are_pollable(rows@, places@.take(k as int), comments@, tasks@, repos@),
        decreases places@.len() - k,
    {
        assert(places@[k as int] < due.len() && due[places@[k as int] as int]);
        let c = &comments[places[k]];
        if let Some((t, r)) = run_and_repository(c, tasks, repos) {
            assert(is_of(*c, tasks@, repos@, t as int, r as int));
            rows.push(
                PollableComment {
                    task_id: c.task_id,
                    platform_comment_id: c.platform_comment_id,
                    kind: c.kind.clone(),
                    owner: repos[r].owner.clone(),
                    name: repos[r].name.clone(),
                    installation_id: tasks[t].installation_id,
                    platform: repos[r].platform,
                    target_id: tasks[t].target_id,
                    target_type: tasks[t].target_type.clone(),
                },
            );
        }
        k = k + 1;
    }
    assert(places@.take(k as int) =~= places@);
    rows
}

/// A comment has one run, and the run one repository.
proof fn lemma_one_run(
    c: StoredComment,
    tasks: Seq<TaskRecord>,
    repos: Seq<RepositoryRecord>,
    t: int,
    r: int,
)
    requires
        is_of(c, tasks, repos, t, r),
    ensures
        forall|u: int, s: int| #[trigger] is_of(c, tasks, repos, u, s) ==> u == t && s == r,
{
    assert forall|u: int, s: int| #[trigger] is_of(c, tasks, repos, u, s) implies u == t && s == r by {
        if u < t {
            assert(tasks[u].id != c.task_id);
        }
        if t < u {
            assert(tasks[t].id != c.task_id);
        }
        if s < r {
            assert(repos[s].id != tasks[t].repository_id);
        }
        if r < s {
            assert(repos[r].id != tasks[t].repository_id);
        }
    }
}

/// A comment of the last day is looked at in every cycle, and of any seventy-two cycles in a row an
/// older one is looked at in at least one, as long as it is of its age.
pub proof fn law_no_comment_is_forgotten(
    c: StoredComment,
    task_created_at: i64,
    within_days: i32,
    first: int,
    now: i64,
) -> (cycle: int)
    requires
        first >= 0,
        c.platform_comment_id >= 0,
        task_created_at > now - within_days * DAY,
    ensures
        first <= cycle < first + 72,
        is_polled(c, task_created_at, within_days, cycle, now),
        c.created_at > now - DAY ==> cycle == first,
{
    let n = c.platform_comment_id as int;
    if c.created_at > now - DAY {
        first
    } else {
        let by: int = if c.created_at >= now - 3 * DAY {
            12
        } else {
            72
        };
        let gap = (n - first) % by;
        let cycle = first + gap;
        assert(cycle % by == n % by) by (nonlinear_arith)
            requires
                by == 12 || by == 72,
                gap == (n - first) % by,
                cycle == first + gap,
        ;
        cycle
    }
}

/// A reaction as it is stored.
#[derive(Debug)]
pub struct FeedbackRecord {
    pub id: u128,
    pub task_id: u128,
    pub platform_comment_id: i64,
    pub comment_kind: String,
    pub reactor: String,
    pub reaction: String,
    pub created_at: i64,
}

/// The mathematical value of a [`FeedbackRecord`].
#[verifier::ext_equal]
pub struct FeedbackView {
    pub id: u128,
    pub task_id: u128,
    pub platform_comment_id: i64,
    pub comment_kind: Seq<char>,
    pub reactor: Seq<char>,
    pub reaction: Seq<char>,
    pub created_at: i64,
}

impl View for FeedbackRecord {
    type V = FeedbackView;

    open spec fn view(&self) -> FeedbackView {
        FeedbackView {
            id: self.id,
            task_id: self.task_id,
            platform_comment_id: self.platform_comment_id,
            comment_kind: self.comment_kind@,
            reactor: self.reactor@,
            reaction: self.reaction@,
            created_at: self.created_at,
        }
    }
}

/// The values of a table of reactions.
pub open spec fn reactions_of(rows: Seq<FeedbackRecord>) -> Seq<FeedbackView> {
    Seq::new(rows.len(), |i: int| rows[i]@)
}

/// Who reacted, and how, as it stands on the platform.
#[derive(Debug)]
pub struct Reaction {
    /// The id the reaction is stored under, where it is new.
    pub fresh_id: u128,
    pub reactor: String,
    pub reaction: String,
}

/// Whether a stored reaction is on a comment.
pub open spec fn is_on(f: FeedbackView, platform_comment_id: i64, kind: Seq<char>) -> bool {
    f.platform_comment_id == platform_comment_id && f.comment_kind == kind
}

/// Whether a table holds a reaction on a comment.
pub open spec fn holds(
    table: Seq<FeedbackView>,
    platform_comment_id: i64,
    kind: Seq<char>,
    reactor: Seq<char>,
    reaction: Seq<char>,
) -> bool {
    exists|i: int|
        0 <= i < table.len() && is_on(#[trigger] table[i], platform_comment_id, kind)
            && table[i].reactor == reactor && table[i].reaction == reaction
}

/// Whether a reaction is among those that stand.
pub open spec fn stands(present: Seq<Reaction>, reactor: Seq<char>, reaction: Seq<char>) -> bool {
    exists|i: int|
        0 <= i < present.len() && (#[trigger] present[i]).reactor@ == reactor
            && present[i].reaction@ == reaction
}

/// A new reaction on a comment.
pub open spec fn new_feedback(
    r: Reaction,
    task_id: u128,
    platform_comment_id: i64,
    kind: Seq<char>,
    now: i64,
) -> FeedbackView {
    FeedbackView {
        id: r.fresh_id,
        task_id,
        platform_comment_id,
        comment_kind: kind,
        reactor: r.reactor@,
        reaction: r.reaction@,
        created_at: now,
    }
}

/// A table with reactions added, one after the other; one that is there already is passed over.
pub open spec fn with_reactions(
    table: Seq<FeedbackView>,
    task_id: u128,
    platform_comment_id: i64,
    kind: Seq<char>,
    present: Seq<Reaction>,
    now: i64,
) -> Seq<FeedbackView>
    decreases present.len(),
{
    if present.len() == 0 {
        table
    } else {
        let before = with_reactions(
            table,
            task_id,
            platform_comment_id,
            kind,
            present.drop_last(),
            now,
        );
        let r = present.last();
        if holds(before, platform_comment_id, kind, r.reactor@, r.reaction@) {
            before
        } else {
            before.push(new_feedback(r, task_id, platform_comment_id, kind, now))
        }
    }
}

/// Whether a stored reaction is still there: on another comment, or among those that stand.
pub open spec fn remains(
    f: FeedbackView,
    platform_comment_id: i64,
    kind: Seq<char>,
    present: Seq<Reaction>,
) -> bool {
    !is_on(f, platform_comment_id, kind) || stands(present, f.reactor, f.reaction)
}

/// A table after the reactions on a comment were brought up to date: new ones added, and those that are
/// no longer there taken out.
pub open spec fn reconciled(
    table: Seq<FeedbackView>,
    task_id: u128,
    platform_comment_id: i64,
    kind: Seq<char>,
    present: Seq<Reaction>,
    now: i64,
) -> Seq<FeedbackView> {
    with_reactions(table, task_id, platform_comment_id, kind, present, now).filter(
        |f: FeedbackView| remains(f, platform_comment_id, kind, present),
    )
}

fn is_standing(present: &Vec<Reaction>, reactor: &str, reaction: &str) -> (r: bool)
    ensures
        r == stands(present@, reactor@, reaction@),
{
    let mut i: usize = 0;
    while i < present.len()
        invariant
            i <= present@.len(),
            forall|j: int|
                0 <= j < i ==> !((#[trigger] present@[j]).reactor@ == reactor@
                    && present@[j].reaction@ == reaction@),
        decreases present@.len() - i,
    {
        if text::same(present[i].reactor.as_str(), reactor) && text::same(
            present[i].reaction.as_str(),
            reaction,
        ) {
            assert(present@[i as int].reactor@ == reactor@);
            return true;
        }
        i = i + 1;
    }
    false
}

fn is_held(
    table: &Vec<FeedbackRecord>,
    platform_comment_id: i64,
    kind: &str,
    reactor: &str,
    reaction: &str,
) -> (r: bool)
    ensures
        r == holds(reactions_of(table@), platform_comment_id, kind@, reactor@, reaction@),
{
    let ghost all = reactions_of(table@);
    let mut i: usize = 0;
    while i < table.len()
        invariant
            i <= table@.len(),
            all == reactions_of(table@),
            forall|j: int|
                0 <= j < i ==> !(is_on(#[trigger] all[j], platform_comment_id, kind@)
                    && all[j].reactor == reactor@ && all[j].reaction == reaction@),
        decreases table@.len() - i,
    {
        let f = &table[i];
        assert(all[i as int] == f@);
        if f.platform_comment_id == platform_comment_id && text::same(
            f.comment_kind.as_str(),
            kind,
        ) && text::same(f.reactor.as_str(), reactor) && text::same(
            f.reaction.as_str(),
            reaction,
        ) {
            assert(is_on(all[i as int], platform_comment_id, kind@));
            return true;
        }
        i = i + 1;
    }
    false
}

/// Brings the stored reactions on a comment up to date with those that stand on the platform.
pub fn reconcile_comment_feedback(
    table: &mut Vec<FeedbackRecord>,
    task_id: u128,
    platform_comment_id: i64,
    kind: &str,
    present: &Vec<Reaction>,
    now: i64,
)
    ensures
        reactions_of(final(table)@) == reconciled(
            reactions_of(old(table)@),
            task_id,
            platform_comment_id,
            kind@,
            present@,
            now,
        ),
{
    let ghost before = reactions_of(table@);
    let mut i: usize = 0;
    assert(present@.take(0) =~= Seq::empty());
    while i < present.len()
        invariant
            i <= present@.len(),
            reactions_of(table@) == with_reactions(
                before,
                task_id,
                platform_comment_id,
                kind@,
                present@.take(i as int),
                now,
            ),
        decreases present@.len() - i,
    {
        let r = &present[i];
        assert(present@.take(i + 1).drop_last() =~= present@.take(i as int));
        let ghost held = reactions_of(table@);
        if !is_held(table, platform_comment_id, kind, r.reactor.as_str(), r.reaction.as_str()) {
            let row = FeedbackRecord {
                id: r.fresh_id,
                task_id,
                platform_comment_id,
                comment_kind: kind.to_owned(),
                reactor: r.reactor.clone(),
                reaction: r.reaction.clone(),
                created_at: now,
            };
            let ghost row_view = row@;
            table.push(row);
            assert(reactions_of(table@) =~= held.push(row_view));
        }
        i = i + 1;
    }
    assert(present@.take(i as int) =~= present@);
    let ghost added = table@;
    let ghost all = reactions_of(added);
    let ghost p = |f: FeedbackView| remains(f, platform_comment_id, kind@, present@);
    let mut rest: Vec<FeedbackRecord> = Vec::new();
    std::mem::swap(&mut rest, table);
    let mut out: Vec<FeedbackRecord> = Vec::new();
    let ghost mut done: int = 0;
    proof {
        reveal(Seq::filter);
        assert(all.take(0) =~= Seq::empty());
        assert(reactions_of(out@) =~= Seq::empty());
        assert(rest@ =~= added.skip(0));
    }
    while rest.len() > 0
        invariant
            0 <= done <= added.len(),
            all == reactions_of(added),
            rest@ == added.skip(done),
            p == (|f: FeedbackView| remains(f, platform_comment_id, kind@, present@)),
            reactions_of(out@) == all.take(done).filter(p),
        decreases rest@.len(),
    {
        let f: FeedbackRecord = rest.remove(0);
        proof {
            reveal(Seq::filter);
            assert(f == added[done]);
            assert(rest@ =~= added.skip(done + 1));
            assert(all.take(done + 1).drop_last() =~= all.take(done));
            assert(all.take(done + 1).last() == f@);
        }
        let ghost out_before = out@;
        let on: bool = f.platform_comment_id == platform_comment_id && text::same(
            f.comment_kind.as_str(),
            kind,
        );
        if !on || is_standing(present, f.reactor.as_str(), f.reaction.as_str()) {
            out.push(f);
            assert(reactions_of(out@) =~= reactions_of(out_before).push(f@));
        }
        proof {
            done = done + 1;
        }
    }
    assert(all.take(done) =~= all);
    std::mem::swap(&mut out, table);
}

proof fn lemma_added(
    table: Seq<FeedbackView>,
    task_id: u128,
    platform_comment_id: i64,
    kind: Seq<char>,
    present: Seq<Reaction>,
    now: i64,
    k: int,
)
    requires
        0 <= k < present.len(),
    ensures
        holds(
            with_reactions(table, task_id, platform_comment_id, kind, present, now),
            platform_comment_id,
            kind,
            present[k].reactor@,
            present[k].reaction@,
        ),
    decreases present.len(),
{
    let before = with_reactions(
        table,
        task_id,
        platform_comment_id,
        kind,
        present.drop_last(),
        now,
    );
    let after = with_reactions(table, task_id, platform_comment_id, kind, present, now);
    let r = present.last();
    if k == present.len() - 1 {
        if !holds(before, platform_comment_id, kind, r.reactor@, r.reaction@) {
            assert(is_on(after[before.len() as int], platform_comment_id, kind));
        }
    } else {
        lemma_added(table, task_id, platform_comment_id, kind, present.drop_last(), now, k);
        let i = choose|i: int|
            0 <= i < before.len() && is_on(#[trigger] before[i], platform_comment_id, kind)
                && before[i].reactor == present[k].reactor@ && before[i].reaction
                == present[k].reaction@;
        assert(is_on(after[i], platform_comment_id, kind));
    }
}

proof fn lemma_filter_holds<A>(s: Seq<A>, p: spec_fn(A) -> bool, i: int) -> (j: int)
    requires
        0 <= i < s.len(),
        p(s[i]),
    ensures
        0 <= j < s.filter(p).len(),
        s.filter(p)[j] == s[i],
    decreases s.len(),
{
    reveal(Seq::filter);
    let init = s.drop_last();
    if i == s.len() - 1 {
        init.filter(p).len() as int
    } else {
        let j = lemma_filter_holds(init, p, i);
        j
    }
}

proof fn lemma_filter_from<A>(s: Seq<A>, p: spec_fn(A) -> bool, j: int)
    requires
        0 <= j < s.filter(p).len(),
    ensures
        p(s.filter(p)[j]),
    decreases s.len(),
{
    reveal(Seq::filter);
    if s.len() > 0 {
        let init = s.drop_last();
        if j < init.filter(p).len() {
            lemma_filter_from(init, p, j);
        }
    }
}

/// What is stored for a comment afterwards is what stands on the platform: a reaction that was taken
/// back is gone, and every one that stands is there.
pub proof fn law_reconciled_feedback_is_what_stands(
    table: Seq<FeedbackView>,
    task_id: u128,
    platform_comment_id: i64,
    kind: Seq<char>,
    present: Seq<Reaction>,
    now: i64,
    reactor: Seq<char>,
    reaction: Seq<char>,
)
    ensures
        holds(
            reconciled(table, task_id, platform_comment_id, kind, present, now),
            platform_comment_id,
            kind,
            reactor,
            reaction,
        ) <==> stands(present, reactor, reaction),
{
    let added = with_reactions(table, task_id, platform_comment_id, kind, present, now);
    let p = |f: FeedbackView| remains(f, platform_comment_id, kind, present);
    let after = reconciled(table, task_id, platform_comment_id, kind, present, now);
    if stands(present, reactor, reaction) {
        let k = choose|k: int|
            0 <= k < present.len() && (#[trigger] present[k]).reactor@ == reactor
                && present[k].reaction@ == reaction;
        lemma_added(table, task_id, platform_comment_id, kind, present, now, k);
        let i = choose|i: int|
            0 <= i < added.len() && is_on(#[trigger] added[i], platform_comment_id, kind)
                && added[i].reactor == reactor && added[i].reaction == reaction;
        assert(present[k].reactor@ == reactor);
        assert(p(added[i]));
        let j = lemma_filter_holds(added, p, i);
        assert(is_on(after[j], platform_comment_id, kind));
    }
    if holds(after, platform_comment_id, kind, reactor, reaction) {
        let j = choose|j: int|
            0 <= j < after.len() && is_on(#[trigger] after[j], platform_comment_id, kind)
                && after[j].reactor == reactor && after[j].reaction == reaction;
        lemma_filter_from(added, p, j);
    }
}

/// The reactions to the comments of a run.
pub open spec fn of_run(table: Seq<FeedbackView>, task_id: u128) -> Seq<bool> {
    Seq::new(table.len(), |i: int| table[i].task_id == task_id)
}

/// Reactions by when they were noticed, then by id.
pub open spec fn by_notice(table: Seq<FeedbackView>) -> Seq<Key> {
    Seq::new(
        table.len(),
        |i: int| Key { major: table[i].created_at as i128, minor: 0, id: table[i].id },
    )
}

/// A reaction as it is shown, with where its comment stands.
#[derive(Debug)]
pub struct FeedbackRow {
    pub platform_comment_id: i64,
    pub comment_kind: String,
    pub reactor: String,
    pub reaction: String,
    pub file: Option<String>,
    pub line: Option<i32>,
}

/// Whether a comment is the one a reaction is on.
pub open spec fn is_comment_of(c: ReviewComment, f: FeedbackView) -> bool {
    c.comment.platform_comment_id == f.platform_comment_id && c.comment.kind@ == f.comment_kind
}

/// Whether a row shows a reaction, with where its comment stands, if that is known.
pub open spec fn shows(row: FeedbackRow, f: FeedbackView, comments: Seq<ReviewComment>) -> bool {
    &&& row.platform_comment_id == f.platform_comment_id
    &&& row.comment_kind@ == f.comment_kind
    &&& row.reactor@ == f.reactor
    &&& row.reaction@ == f.reaction
    &&& {
        ||| exists|i: int|
            0 <= i < comments.len() && is_comment_of(#[trigger] comments[i], f) && opt_view(
                row.file,
            ) == opt_view(comments[i].comment.file) && row.line == comments[i].comment.line
        ||| (forall|i: int| 0 <= i < comments.len() ==> !is_comment_of(#[trigger] comments[i], f))
            && row.file is None && row.line is None
    }
}

fn feedback_row(f: &FeedbackRecord, comments: &Vec<ReviewComment>) -> (r: FeedbackRow)
    ensures
        shows(r, f@, comments@),
{
    let mut file: Option<String> = None;
    let mut line: Option<i32> = None;
    let mut found: bool = false;
    let mut i: usize = 0;
    while i < comments.len() && !found
        invariant
            i <= comments@.len(),
            if found {
                exists|j: int|
                    0 <= j < comments@.len() && is_comment_of(#[trigger] comments@[j], f@)
                        && opt_view(file) == opt_view(comments@[j].comment.file) && line
                        == comments@[j].comment.line
            } else {
                file is None && line is None && forall|j: int|
                    0 <= j < i ==> !is_comment_of(#[trigger] comments@[j], f@)
            },
        decreases comments@.len() - i,
    {
        let c = &comments[i].comment;
        if c.platform_comment_id == f.platform_comment_id && text::same(
            c.kind.as_str(),
            f.comment_kind.as_str(),
        ) {
            file = text::copy_opt(&c.file);
            line = c.line;
            found = true;
            assert(is_comment_of(comments@[i as int], f@));
        }
        i = i + 1;
    }
    FeedbackRow {
        platform_comment_id: f.platform_comment_id,
        comment_kind: f.comment_kind.clone(),
        reactor: f.reactor.clone(),
        reaction: f.reaction.clone(),
        file,
        line,
    }
}

/// The reactions to the comments of a run, in the order they were noticed.
pub fn get_feedback(
    table: &Vec<FeedbackRecord>,
    comments: &Vec<ReviewComment>,
    task_id: u128,
) -> (r: Vec<FeedbackRow>)
    ensures
        exists|places: Seq<usize>| #[trigger]
            arranges(
                places,
                of_run(reactions_of(table@), task_id),
                by_notice(reactions_of(table@)),
            ) && r@.len() == places.len() && forall|a: int|
                0 <= a < places.len() ==> shows(
                    #[trigger] r@[a],
                    reactions_of(table@)[places[a] as int],
                    comments@,
                ),
{
    let ghost all = reactions_of(table@);
    let mut selected: Vec<bool> = Vec::new();
    let mut keys: Vec<Key> = Vec::new();
    let mut i: usize = 0;
    while i < table.len()
        invariant
            i <= table@.len(),
            all == reactions_of(table@),
            selected@ =~= of_run(all, task_id).take(i as int),
            keys@ =~= by_notice(all).take(i as int),
        decreases table@.len() - i,
    {
        selected.push(table[i].task_id == task_id);
        keys.push(Key { major: table[i].created_at as i128, minor: 0, id: table[i].id });
        i = i + 1;
    }
    assert(selected@ =~= of_run(all, task_id));
    assert(keys@ =~= by_notice(all));
    let places: Vec<usize> = order::arrange(&selected, &keys);
    let mut out: Vec<FeedbackRow> = Vec::new();
    let mut a: usize = 0;
    while a < places.len()
        invariant
            a <= places@.len(),
            out@.len() == a,
            all == reactions_of(table@),
            forall|b: int| 0 <= b < places@.len() ==> (#[trigger] places@[b]) < table@.len(),
            forall|b: int|
                0 <= b < a ==> shows(#[trigger] out@[b], all[places@[b] as int], comments@),
        decreases places@.len() - a,
    {
        let at: usize = places[a];
        out.push(feedback_row(&table[at], comments));
        a = a + 1;
    }
    assert(arranges(places@, selected@, keys@));
    out
}

/// A finding of a run's review, read as text.
#[derive(Debug)]
pub struct ReportedFinding {
    pub task_id: u128,
    pub file: Option<String>,
    pub line: Option<i32>,
    pub title: Option<String>,
}

/// Where a finding stands, and its title.
pub type FindingView = (Seq<char>, i32, Seq<char>);

/// Whether a finding is the one a comment was posted for, and what it says.
pub open spec fn is_finding(g: ReportedFinding, c: ReviewComment, x: FindingView) -> bool {
    &&& opt_view(g.file) == Some(x.0)
    &&& g.line == Some(x.1)
    &&& opt_view(g.title) == Some(x.2)
    &&& opt_view(c.comment.file) == Some(x.0)
    &&& c.comment.line == Some(x.1)
}

/// Whether a reaction rejects what an inline comment says.
pub open spec fn rejects(f: FeedbackView, c: ReviewComment) -> bool {
    f.reaction == "-1"@ && c.comment.kind@ == "inline"@ && is_comment_of(c, f)
}

/// Whether a run is one of a repository's.
pub open spec fn runs_in(tasks: Seq<TaskView>, task_id: u128, repository_id: i64) -> bool {
    exists|t: int|
        0 <= t < tasks.len() && (#[trigger] tasks[t]).id == task_id && tasks[t].repository_id
            == repository_id
}

/// Whether a reported finding was rejected: its comment stands where the finding does, and someone
/// rejected it.
pub open spec fn was_rejected(
    g: ReportedFinding,
    table: Seq<FeedbackView>,
    comments: Seq<ReviewComment>,
    x: FindingView,
) -> bool {
    exists|f: int, c: int|
        0 <= f < table.len() && 0 <= c < comments.len() && (#[trigger] table[f]).task_id
            == g.task_id && rejects(table[f], #[trigger] comments[c]) && is_finding(
            g,
            comments[c],
            x,
        )
}

/// Whether a finding was rejected in a repository.
pub open spec fn rejected_in(
    findings: Seq<ReportedFinding>,
    table: Seq<FeedbackView>,
    comments: Seq<ReviewComment>,
    tasks: Seq<TaskView>,
    repository_id: i64,
    x: FindingView,
) -> bool {
    exists|g: int|
        0 <= g < findings.len() && runs_in(
            tasks,
            (#[trigger] findings[g]).task_id,
            repository_id,
        ) && was_rejected(findings[g], table, comments, x)
}

/// By file, then by line.
pub open spec fn by_place(x: FindingView, y: FindingView) -> bool {
    if x.0 == y.0 {
        x.1 <= y.1
    } else {
        text_le(x.0, y.0)
    }
}

/// Findings as values.
pub open spec fn findings_of(rows: Seq<(String, i32, String)>) -> Seq<FindingView> {
    Seq::new(rows.len(), |i: int| (rows[i].0@, rows[i].1, rows[i].2@))
}

/// Whether findings stand by place, none of them twice.
pub open spec fn in_place_order(rows: Seq<FindingView>) -> bool {
    forall|i: int, j: int|
        0 <= i < j < rows.len() ==> by_place(#[trigger] rows[i], #[trigger] rows[j]) && rows[i]
            != rows[j]
}

proof fn lemma_by_place_total(x: FindingView, y: FindingView)
    ensures
        by_place(x, y) || by_place(y, x),
{
    lemma_text_le_total(x.0, y.0);
}

proof fn lemma_by_place_transitive(x: FindingView, y: FindingView, z: FindingView)
    requires
        by_place(x, y),
        by_place(y, z),
    ensures
        by_place(x, z),
{
    if x.0 != y.0 && y.0 != z.0 {
        lemma_text_le_transitive(x.0, y.0, z.0);
        if x.0 == z.0 {
            lemma_text_le_antisymmetric(x.0, y.0);
        }
    }
}

fn stands_before(a: &(String, i32, String), file: &str, line: i32) -> (r: bool)
    ensures
        forall|title: Seq<char>|
            r == #[trigger] by_place((a.0@, a.1, a.2@), (file@, line, title)),
{
    if text::same(a.0.as_str(), file) {
        a.1 <= line
    } else {
        text::not_after(a.0.as_str(), file)
    }
}

/// Adds a finding to findings in order, unless it is there.
fn add_finding(rows: &mut Vec<(String, i32, String)>, file: &str, line: i32, title: &str)
    requires
        in_place_order(findings_of(old(rows)@)),
    ensures
        in_place_order(findings_of(final(rows)@)),
        forall|x: FindingView| #[trigger]
            findings_of(final(rows)@).contains(x) <==> findings_of(old(rows)@).contains(x) || x == (
                file@,
                line,
                title@,
            ),
{
    let ghost before = findings_of(rows@);
    let ghost x: FindingView = (file@, line, title@);
    let mut i: usize = 0;
    while i < rows.len()
        invariant
            i <= rows@.len(),
            before == findings_of(rows@),
            rows@ == old(rows)@,
            in_place_order(before),
            x == (file@, line, title@),
            forall|j: int| 0 <= j < i ==> #[trigger] before[j] != x,
        decreases rows@.len() - i,
    {
        if rows[i].1 == line && text::same(rows[i].0.as_str(), file) && text::same(
            rows[i].2.as_str(),
            title,
        ) {
            assert(before[i as int] == x);
            return ;
        }
        assert(before[i as int] != x);
        i = i + 1;
    }
    let mut at: usize = 0;
    while at < rows.len() && stands_before(&rows[at], file, line)
        invariant
            at <= rows@.len(),
            before == findings_of(rows@),
            in_place_order(before),
            x == (file@, line, title@),
            forall|j: int| 0 <= j < at ==> by_place(#[trigger] before[j], x),
        decreases rows@.len() - at,
    {
        assert(by_place(before[at as int], x));
        at = at + 1;
    }
    proof {
        if at < rows@.len() {
            assert(!by_place(before[at as int], x));
            lemma_by_place_total(before[at as int], x);
        }
        assert forall|j: int| at <= j < before.len() implies by_place(x, #[trigger] before[j]) by {
            if j > at {
                assert(by_place(before[at as int], before[j]));
                lemma_by_place_transitive(x, before[at as int], before[j]);
            }
        }
    }
    rows.insert(at, (file.to_owned(), line, title.to_owned()));
    proof {
        let after = findings_of(rows@);
        assert(after =~= before.insert(at as int, x));
        assert forall|y: FindingView| #[trigger] after.contains(y) <==> before.contains(y) || y
            == x by {
            if after.contains(y) {
                let k = choose|k: int| 0 <= k < after.len() && after[k] == y;
                if k < at {
                    assert(before[k] == y);
                } else if k > at {
                    assert(before[k - 1] == y);
                }
            }
            if before.contains(y) {
                let k = choose|k: int| 0 <= k < before.len() && before[k] == y;
                if k < at {
                    assert(after[k] == y);
                } else {
                    assert(after[k + 1] == y);
                }
            }
            assert(after[at as int] == x);
        }
        assert forall|i: int, j: int| 0 <= i < j < after.len() implies by_place(
            #[trigger] after[i],
            #[trigger] after[j],
        ) && after[i] != after[j] by {
            let p = if i < at {
                i
            } else {
                i - 1
            };
            let q = if j < at {
                j
            } else {
                j - 1
            };
            if i != at {
                assert(after[i] == before[p]);
            }
            if j != at {
                assert(after[j] == before[q]);
            }
        }
    }
}

fn in_repository(tasks: &Vec<TaskRecord>, task_id: u128, repository_id: i64) -> (r: bool)
    ensures
        r == runs_in(runs(tasks@), task_id, repository_id),
{
    let ghost all = runs(tasks@);
    let mut i: usize = 0;
    while i < tasks.len()
        invariant
            i <= tasks@.len(),
            all == runs(tasks@),
            forall|t: int|
                0 <= t < i ==> !((#[trigger] all[t]).id == task_id && all[t].repository_id
                    == repository_id),
        decreases tasks@.len() - i,
    {
        assert(all[i as int] == tasks@[i as int]@);
        if tasks[i].id == task_id && tasks[i].repository_id == repository_id {
            return true;
        }
        i = i + 1;
    }
    false
}

fn finding_was_rejected(
    g: &ReportedFinding,
    table: &Vec<FeedbackRecord>,
    comments: &Vec<ReviewComment>,
    file: &str,
    line: i32,
    title: &str,
) -> (r: bool)
    requires
        opt_view(g.file) == Some(file@),
        g.line == Some(line),
        opt_view(g.title) == Some(title@),
    ensures
        r == was_rejected(*g, reactions_of(table@), comments@, (file@, line, title@)),
{
    let ghost all = reactions_of(table@);
    let ghost x: FindingView = (file@, line, title@);
    let mut c: usize = 0;
    while c < comments.len()
        invariant
            c <= comments@.len(),
            all == reactions_of(table@),
            x == (file@, line, title@),
            opt_view(g.file) == Some(file@),
            g.line == Some(line),
            opt_view(g.title) == Some(title@),
            forall|f: int, k: int|
                0 <= f < all.len() && 0 <= k < c ==> !((#[trigger] all[f]).task_id == g.task_id
                    && rejects(all[f], #[trigger] comments@[k]) && is_finding(
                    *g,
                    comments@[k],
                    x,
                )),
        decreases comments@.len() - c,
    {
        let here: bool = match (&comments[c].comment.file, comments[c].comment.line) {
            (Some(at), Some(l)) => l == line && text::same(at.as_str(), file),
            _ => false,
        };
        let inline: bool = text::same(comments[c].comment.kind.as_str(), "inline");
        assert(here == is_finding(*g, comments@[c as int], x));
        if here && inline {
            let mut f: usize = 0;
            while f < table.len()
                invariant
                    f <= table@.len(),
                    c < comments@.len(),
                    all == reactions_of(table@),
                    comments@[c as int].comment.kind@ == "inline"@,
                    is_finding(*g, comments@[c as int], x),
                    x == (file@, line, title@),
                    forall|j: int|
                        0 <= j < f ==> !((#[trigger] all[j]).task_id == g.task_id && rejects(
                            all[j],
                            comments@[c as int],
                        )),
                decreases table@.len() - f,
            {
                assert(all[f as int] == table@[f as int]@);
                if table[f].task_id == g.task_id && text::same(table[f].reaction.as_str(), "-1")
                    && table[f].platform_comment_id == comments[c].comment.platform_comment_id
                    && text::same(
                    table[f].comment_kind.as_str(),
                    comments[c].comment.kind.as_str(),
                ) {
                    assert(rejects(all[f as int], comments@[c as int]));
                    return true;
                }
                f = f + 1;
            }
        }
        c = c + 1;
    }
    false
}

/// The findings of a repository's reviews that someone rejected, each once, by file and line: the first
/// `limit` of them. Reviews to come are told not to repeat these.
pub fn rejected_findings_for_repo(
    table: &Vec<FeedbackRecord>,
    comments: &Vec<ReviewComment>,
    tasks: &Vec<TaskRecord>,
    findings: &Vec<ReportedFinding>,
    repository_id: i64,
    limit: usize,
) -> (r: Vec<(String, i32, String)>)
    ensures
        r@.len() <= limit,
        in_place_order(findings_of(r@)),
        forall|i: int|
            0 <= i < r@.len() ==> rejected_in(
                findings@,
                reactions_of(table@),
                comments@,
                runs(tasks@),
                repository_id,
                #[trigger] findings_of(r@)[i],
            ),
        forall|x: FindingView| #[trigger]
            rejected_in(
                findings@,
                reactions_of(table@),
                comments@,
                runs(tasks@),
                repository_id,
                x,
            ) ==> findings_of(r@).contains(x) || (r@.len() == limit && forall|i: int|
                0 <= i < r@.len() ==> by_place(#[trigger] findings_of(r@)[i], x)),
{
    let ghost all = reactions_of(table@);
    let mut rows: Vec<(String, i32, String)> = Vec::new();
    let mut i: usize = 0;
    while i < findings.len()
        invariant
            i <= findings@.len(),
            all == reactions_of(table@),
            in_place_order(findings_of(rows@)),
            forall|x: FindingView| #[trigger]
                findings_of(rows@).contains(x) <==> exists|g: int|
                    0 <= g < i && runs_in(
                        runs(tasks@),
                        (#[trigger] findings@[g]).task_id,
                        repository_id,
                    ) && was_rejected(findings@[g], all, comments@, x),
        decreases findings@.len() - i,
    {
        let g = &findings[i];
        let ghost before = findings_of(rows@);
        let ghost mut counted: bool = false;
        if let (Some(file), Some(line), Some(title)) = (&g.file, g.line, &g.title) {
            if in_repository(tasks, g.task_id, repository_id) && finding_was_rejected(
                g,
                table,
                comments,
                file.as_str(),
                line,
                title.as_str(),
            ) {
                add_finding(&mut rows, file.as_str(), line, title.as_str());
                proof {
                    counted = true;
                }
            }
        }
        proof {
            assert forall|x: FindingView| #[trigger] findings_of(rows@).contains(x) <==> exists|
                k: int,
            |
                0 <= k < i + 1 && runs_in(
                    runs(tasks@),
                    (#[trigger] findings@[k]).task_id,
                    repository_id,
                ) && was_rejected(findings@[k], all, comments@, x) by {
                assert(before.contains(x) <==> exists|k: int|
                    0 <= k < i && runs_in(
                        runs(tasks@),
                        (#[trigger] findings@[k]).task_id,
                        repository_id,
                    ) && was_rejected(findings@[k], all, comments@, x));
                if runs_in(runs(tasks@), findings@[i as int].task_id, repository_id)
                    && was_rejected(findings@[i as int], all, comments@, x) {
                    assert(counted);
                }
            }
        }
        i = i + 1;
    }
    let ghost full = findings_of(rows@);
    if rows.len() > limit {
        rows.truncate(limit);
    }
    proof {
        let kept = findings_of(rows@);
        assert forall|k: int| 0 <= k < kept.len() implies #[trigger] kept[k] == full[k] by {}
        assert forall|k: int| 0 <= k < kept.len() implies rejected_in(
            findings@,
            all,
            comments@,
            runs(tasks@),
            repository_id,
            #[trigger] kept[k],
        ) by {
            assert(full.contains(full[k]));
        }
        assert forall|x: FindingView| #[trigger]
            rejected_in(
                findings@,
                all,
                comments@,
                runs(tasks@),
                repository_id,
                x,
            ) implies kept.contains(x) || (rows@.len() == limit && forall|k: int|
                0 <= k < kept.len() ==> by_place(#[trigger] kept[k], x)) by {
            assert(full.contains(x));
            let at = choose|at: int| 0 <= at < full.len() && full[at] == x;
            if at < kept.len() {
                assert(kept[at] == x);
            } else {
                assert forall|k: int| 0 <= k < kept.len() implies by_place(#[trigger] kept[k], x) by {
                    assert(by_place(full[k], full[at]));
                }
            }
        }
    }
    rows
}

} // verus!
