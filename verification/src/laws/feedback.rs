//! Which comments are looked at, what is kept of the reactions to them, and what was rejected.

use vstd::arithmetic::div_mod::lemma_fundamental_div_mod;
use vstd::prelude::*;

use crate::db::feedback::{
    are_pollable, by_age, by_notice, cycle_of, findings_of, get_feedback, is_of, is_on,
    is_polled, list_pollable_comments, nearest_second, new_feedback, of_run, polled,
    reactions_of, reconciled, rejected_findings_for_repo, rejected_in, remains, runs_in, shows,
    stands, was_rejected, with_reactions, FeedbackRecord, FeedbackRow, FeedbackView, FindingView,
    PollableComment, Reaction, ReportedFinding, StoredComment,
};
use crate::db::repositories::RepositoryRecord;
use crate::db::reviews::ReviewComment;
use crate::db::tasks::{runs, TaskRecord, TaskView};
use crate::laws::kept::lemma_kept;
use crate::order::arranges;
use crate::text::{opt_view, text_le};

verus! {

/// A cycle lasts an interval: the number of a cycle is how many whole intervals have gone by, to the
/// nearest second, and an interval below a second counts as one.
pub proof fn law_cycle_counts_whole_intervals(now: i64, interval_secs: i64)
    requires
        now >= 0,
    ensures
        ({
            let interval = if interval_secs < 1 {
                1int
            } else {
                interval_secs as int
            };
            let second = nearest_second(now);
            let cycle = cycle_of(now, interval_secs);
            &&& second * 1_000_000 - 500_000 <= now < second * 1_000_000 + 500_000
            &&& cycle >= 0
            &&& interval * cycle <= second < interval * cycle + interval
        }),
{
    let interval = if interval_secs < 1 {
        1int
    } else {
        interval_secs as int
    };
    lemma_fundamental_div_mod(nearest_second(now), interval);
    assert(cycle_of(now, interval_secs) >= 0) by (nonlinear_arith)
        requires
            nearest_second(now) >= 0,
            interval > 0,
            cycle_of(now, interval_secs) == nearest_second(now) / interval,
    ;
}

/// A comment of the last day is looked at in every cycle; up to three days old, in the one cycle of
/// twelve that its number falls on; older, in the one of seventy-two; and none once its run is past its
/// days.
pub proof fn law_older_comments_are_looked_at_less_often(
    c: StoredComment,
    task_created_at: i64,
    within_days: i32,
    cycle: int,
    now: i64,
)
    requires
        c.platform_comment_id >= 0,
        cycle >= 0,
    ensures
        task_created_at <= now - within_days * 86_400_000_000 ==> !is_polled(
            c,
            task_created_at,
            within_days,
            cycle,
            now,
        ),
        task_created_at > now - within_days * 86_400_000_000 ==> {
            let polled = is_polled(c, task_created_at, within_days, cycle, now);
            &&& c.created_at > now - 86_400_000_000 ==> polled
            &&& now - 259_200_000_000 <= c.created_at <= now - 86_400_000_000 ==> (polled <==> (
            c.platform_comment_id as int) % 12 == cycle % 12)
            &&& c.created_at < now - 259_200_000_000 ==> (polled <==> (
            c.platform_comment_id as int) % 72 == cycle % 72)
        },
{
}

/// What is looked at are the comments that are due and whose run and repository are known, each once,
/// the oldest first, with the names of the repository and the target of the run.
pub proof fn law_due_comments_are_looked_at_oldest_first(
    comments: &Vec<StoredComment>,
    tasks: &Vec<TaskRecord>,
    repos: &Vec<RepositoryRecord>,
    within_days: i32,
    interval_secs: i64,
    now: i64,
    rows: Vec<PollableComment>,
    i: int,
)
    requires
        call_ensures(
            list_pollable_comments,
            (comments, tasks, repos, within_days, interval_secs, now),
            rows,
        ),
        0 <= i < comments@.len(),
    ensures
        exists|places: Seq<usize>|
            {
                &&& #[trigger] are_told(rows@, places, comments@, tasks@, repos@)
                &&& (exists|a: int| 0 <= a < places.len() && #[trigger] places[a] == i)
                    <==> is_due_somewhere(
                    comments@[i],
                    tasks@,
                    repos@,
                    within_days,
                    cycle_of(now, interval_secs),
                    now,
                )
                &&& forall|a: int, b: int|
                    0 <= a < b < places.len() ==> comments@[(
                    #[trigger] places[a]) as int].created_at <= comments@[(
                    #[trigger] places[b]) as int].created_at
            },
{
    let cycle = cycle_of(now, interval_secs);
    let selected = polled(comments@, tasks@, repos@, within_days, cycle, now);
    let places = choose|places: Seq<usize>| #[trigger]
        are_pollable(rows@, places, comments@, tasks@, repos@) && arranges(
            places,
            selected,
            by_age(comments@),
        );
    assert forall|k: int| 0 <= k < rows@.len() implies is_told(
        #[trigger] rows@[k],
        comments@[places[k] as int],
        tasks@,
        repos@,
    ) by {
        let c = comments@[places[k] as int];
        let row = rows@[k];
        assert(crate::db::feedback::is_pollable(row, c, tasks@, repos@));
        let (t, r) = choose|t: int, r: int| #[trigger]
            is_of(c, tasks@, repos@, t, r) && row.owner@ == repos@[r].owner@ && row.name@
                == repos@[r].name@ && row.platform == repos@[r].platform && row.installation_id
                == tasks@[t].installation_id && row.target_id == tasks@[t].target_id
                && row.target_type@ == tasks@[t].target_type@;
        assert(tasks@[t].id == c.task_id && repos@[r].id == tasks@[t].repository_id);
    }
    assert(are_told(rows@, places, comments@, tasks@, repos@));
    assert(selected[i] <==> is_due_somewhere(
        comments@[i],
        tasks@,
        repos@,
        within_days,
        cycle,
        now,
    ));
    if exists|a: int| 0 <= a < places.len() && #[trigger] places[a] == i {
        let a = choose|a: int| 0 <= a < places.len() && #[trigger] places[a] == i;
        assert(selected[places[a] as int]);
    }
    assert forall|a: int, b: int| 0 <= a < b < places.len() implies comments@[(
    #[trigger] places[a]) as int].created_at <= comments@[(#[trigger] places[b]) as int].created_at
        by {
        assert(selected[places[a] as int]);
        assert(selected[places[b] as int]);
    }
}

/// Whether a comment is due and its run and the run's repository are known.
pub open spec fn is_due_somewhere(
    c: StoredComment,
    tasks: Seq<TaskRecord>,
    repos: Seq<RepositoryRecord>,
    within_days: i32,
    cycle: int,
    now: i64,
) -> bool {
    exists|t: int, r: int| #[trigger]
        is_of(c, tasks, repos, t, r) && is_polled(c, tasks[t].created_at, within_days, cycle, now)
}

/// Whether a row tells of a comment: of the comment itself, of the run it is of, and of the repository
/// that run is for.
pub open spec fn is_told(
    row: PollableComment,
    c: StoredComment,
    tasks: Seq<TaskRecord>,
    repos: Seq<RepositoryRecord>,
) -> bool {
    &&& row.task_id == c.task_id
    &&& row.platform_comment_id == c.platform_comment_id
    &&& row.kind@ == c.kind@
    &&& exists|t: int, r: int|
        #![trigger tasks[t], repos[r]]
        0 <= t < tasks.len() && 0 <= r < repos.len() && tasks[t].id == c.task_id && repos[r].id
            == tasks[t].repository_id && row.owner@ == repos[r].owner@ && row.name@
            == repos[r].name@ && row.platform == repos[r].platform && row.installation_id
            == tasks[t].installation_id && row.target_id == tasks[t].target_id && row.target_type@
            == tasks[t].target_type@
}

/// Whether rows tell of the comments at places, one for each.
pub open spec fn are_told(
    rows: Seq<PollableComment>,
    places: Seq<usize>,
    comments: Seq<StoredComment>,
    tasks: Seq<TaskRecord>,
    repos: Seq<RepositoryRecord>,
) -> bool {
    &&& rows.len() == places.len()
    &&& forall|k: int|
        0 <= k < rows.len() ==> is_told(
            #[trigger] rows[k],
            comments[places[k] as int],
            tasks,
            repos,
        )
}

/// A reaction is recorded with the run and the comment it is on, who reacted and how, and when it was
/// noticed.
pub proof fn law_reaction_is_recorded(
    r: Reaction,
    task_id: u128,
    comment: i64,
    kind: Seq<char>,
    now: i64,
)
    ensures
        ({
            let f = new_feedback(r, task_id, comment, kind, now);
            &&& f.id == r.fresh_id
            &&& f.task_id == task_id
            &&& f.platform_comment_id == comment
            &&& f.comment_kind == kind
            &&& f.reactor == r.reactor@
            &&& f.reaction == r.reaction@
            &&& f.created_at == now
        }),
{
}

/// Bringing one comment up to date touches no reaction to another, keeps those that stand as they were
/// first noticed, drops those that were taken back, and adds only reactions that stand.
pub proof fn law_update_touches_one_comment(
    table: Seq<FeedbackView>,
    task_id: u128,
    comment: i64,
    kind: Seq<char>,
    present: Seq<Reaction>,
    now: i64,
    f: FeedbackView,
)
    ensures
        ({
            let after = reconciled(table, task_id, comment, kind, present, now);
            let here = f.platform_comment_id == comment && f.comment_kind == kind;
            let still = exists|k: int|
                0 <= k < present.len() && (#[trigger] present[k]).reactor@ == f.reactor
                    && present[k].reaction@ == f.reaction;
            &&& !here ==> (after.contains(f) <==> table.contains(f))
            &&& here && table.contains(f) ==> (after.contains(f) <==> still)
            &&& here && !table.contains(f) && after.contains(f) ==> still && f.task_id == task_id
                && f.created_at == now
        }),
{
    let added = with_reactions(table, task_id, comment, kind, present, now);
    lemma_kept(added, |f: FeedbackView| remains(f, comment, kind, present), f);
    lemma_added(table, task_id, comment, kind, present, now, f);
}

proof fn lemma_added(
    table: Seq<FeedbackView>,
    task_id: u128,
    comment: i64,
    kind: Seq<char>,
    present: Seq<Reaction>,
    now: i64,
    f: FeedbackView,
)
    ensures
        ({
            let added = with_reactions(table, task_id, comment, kind, present, now);
            &&& table.contains(f) ==> added.contains(f)
            &&& added.contains(f) && !table.contains(f) ==> is_on(f, comment, kind) && f.task_id
                == task_id && f.created_at == now
        }),
    decreases present.len(),
{
    if present.len() > 0 {
        let init = present.drop_last();
        lemma_added(table, task_id, comment, kind, init, now, f);
        let before = with_reactions(table, task_id, comment, kind, init, now);
        let after = with_reactions(table, task_id, comment, kind, present, now);
        if before.contains(f) {
            let k = choose|k: int| 0 <= k < before.len() && before[k] == f;
            assert(after[k] == f);
        }
        if after.contains(f) && !before.contains(f) {
            let k = choose|k: int| 0 <= k < after.len() && after[k] == f;
            if k < before.len() {
                assert(before[k] == f);
            }
        }
    }
}

/// The reactions to a run's comments are shown in the order they were noticed, with where the comment
/// stands if that is known.
pub proof fn law_feedback_is_shown_as_noticed(
    table: &Vec<FeedbackRecord>,
    comments: &Vec<ReviewComment>,
    task_id: u128,
    r: Vec<FeedbackRow>,
    i: int,
)
    requires
        call_ensures(get_feedback, (table, comments, task_id), r),
        0 <= i < table@.len(),
    ensures
        exists|places: Seq<usize>|
            {
                &&& #[trigger] places.len() == r@.len()
                &&& forall|a: int|
                    0 <= a < places.len() ==> (#[trigger] places[a]) < table@.len() && is_shown(
                        r@[a],
                        table@[places[a] as int]@,
                        comments@,
                    )
                &&& (exists|a: int| 0 <= a < places.len() && #[trigger] places[a] == i)
                    <==> table@[i]@.task_id == task_id
                &&& forall|a: int, b: int|
                    0 <= a < b < places.len() ==> table@[(
                    #[trigger] places[a]) as int]@.created_at <= table@[(
                    #[trigger] places[b]) as int]@.created_at
            },
{
    let all = reactions_of(table@);
    let selected = of_run(all, task_id);
    let places = choose|places: Seq<usize>| #[trigger]
        arranges(places, selected, by_notice(all)) && r@.len() == places.len() && forall|a: int|
            0 <= a < places.len() ==> shows(#[trigger] r@[a], all[places[a] as int], comments@);
    assert forall|a: int| 0 <= a < places.len() implies (#[trigger] places[a]) < table@.len()
        && is_shown(r@[a], table@[places[a] as int]@, comments@) by {
        assert(selected[places[a] as int]);
        assert(all[places[a] as int] == table@[places[a] as int]@);
        assert(shows(r@[a], all[places[a] as int], comments@));
        let f = all[places[a] as int];
        if exists|i: int|
            0 <= i < comments@.len() && crate::db::feedback::is_comment_of(
                #[trigger] comments@[i],
                f,
            ) && opt_view(r@[a].file) == opt_view(comments@[i].comment.file) && r@[a].line
                == comments@[i].comment.line {
            let i = choose|i: int|
                0 <= i < comments@.len() && crate::db::feedback::is_comment_of(
                    #[trigger] comments@[i],
                    f,
                ) && opt_view(r@[a].file) == opt_view(comments@[i].comment.file) && r@[a].line
                    == comments@[i].comment.line;
            assert(comments@[i].comment.kind@ == f.comment_kind);
        } else {
            assert forall|i: int| 0 <= i < comments@.len() implies !((
            #[trigger] comments@[i]).comment.platform_comment_id == f.platform_comment_id
                && comments@[i].comment.kind@ == f.comment_kind) by {
                assert(!crate::db::feedback::is_comment_of(comments@[i], f));
            }
        }
    }
    assert(all[i] == table@[i]@);
    if table@[i]@.task_id == task_id {
        assert(selected[i]);
    }
    assert forall|a: int, b: int| 0 <= a < b < places.len() implies table@[(
    #[trigger] places[a]) as int]@.created_at <= table@[(#[trigger] places[b]) as int]@.created_at
        by {
        assert(all[places[a] as int] == table@[places[a] as int]@);
        assert(all[places[b] as int] == table@[places[b] as int]@);
        assert(selected[places[a] as int] && selected[places[b] as int]);
    }
    assert(places.len() == r@.len());
}

/// Whether a row shows a reaction, with the file and line of the comment of that kind and number, and
/// with neither where there is no such comment.
pub open spec fn is_shown(row: FeedbackRow, f: FeedbackView, comments: Seq<ReviewComment>) -> bool {
    &&& row.platform_comment_id == f.platform_comment_id
    &&& row.comment_kind@ == f.comment_kind
    &&& row.reactor@ == f.reactor
    &&& row.reaction@ == f.reaction
    &&& {
        ||| exists|i: int|
            0 <= i < comments.len() && (#[trigger] comments[i]).comment.platform_comment_id
                == f.platform_comment_id && comments[i].comment.kind@ == f.comment_kind && opt_view(
                row.file,
            ) == opt_view(comments[i].comment.file) && row.line == comments[i].comment.line
        ||| (forall|i: int|
            0 <= i < comments.len() ==> !((#[trigger] comments[i]).comment.platform_comment_id
                == f.platform_comment_id && comments[i].comment.kind@ == f.comment_kind))
            && row.file is None && row.line is None
    }
}

/// Whether someone gave a run's inline comment, on the line the finding names, a thumbs down.
pub open spec fn is_turned_down(
    g: ReportedFinding,
    table: Seq<FeedbackView>,
    comments: Seq<ReviewComment>,
) -> bool {
    exists|f: int, c: int|
        #![trigger table[f], comments[c]]
        0 <= f < table.len() && 0 <= c < comments.len() && table[f].task_id == g.task_id
            && table[f].reaction == "-1"@ && comments[c].comment.kind@ == "inline"@
            && table[f].comment_kind == "inline"@ && table[f].platform_comment_id
            == comments[c].comment.platform_comment_id && opt_view(comments[c].comment.file)
            == opt_view(g.file) && comments[c].comment.line == g.line
}

/// A finding is rejected exactly where a run of the repository reported it, with a file, a line and a
/// title, and someone turned it down there.
pub proof fn law_rejected_finding_was_turned_down(
    findings: Seq<ReportedFinding>,
    table: Seq<FeedbackView>,
    comments: Seq<ReviewComment>,
    tasks: Seq<TaskView>,
    repository_id: i64,
    file: Seq<char>,
    line: i32,
    title: Seq<char>,
)
    ensures
        rejected_in(findings, table, comments, tasks, repository_id, (file, line, title))
            <==> exists|g: int|
            0 <= g < findings.len() && opt_view((#[trigger] findings[g]).file) == Some(file)
                && findings[g].line == Some(line) && opt_view(findings[g].title) == Some(title) && (
            exists|t: int|
                0 <= t < tasks.len() && (#[trigger] tasks[t]).id == findings[g].task_id
                    && tasks[t].repository_id == repository_id) && is_turned_down(
                findings[g],
                table,
                comments,
            ),
{
    let x = (file, line, title);
    if rejected_in(findings, table, comments, tasks, repository_id, x) {
        let g = choose|g: int|
            0 <= g < findings.len() && runs_in(
                tasks,
                (#[trigger] findings[g]).task_id,
                repository_id,
            ) && was_rejected(findings[g], table, comments, x);
        let (f, c) = choose|f: int, c: int|
            0 <= f < table.len() && 0 <= c < comments.len() && (#[trigger] table[f]).task_id
                == findings[g].task_id && crate::db::feedback::rejects(
                table[f],
                #[trigger] comments[c],
            ) && crate::db::feedback::is_finding(findings[g], comments[c], x);
        assert(table[f].reaction == "-1"@ && comments[c].comment.kind@ == "inline"@);
        assert(is_turned_down(findings[g], table, comments));
    }
    if exists|g: int|
        0 <= g < findings.len() && opt_view((#[trigger] findings[g]).file) == Some(file)
            && findings[g].line == Some(line) && opt_view(findings[g].title) == Some(title) && (
        exists|t: int|
            0 <= t < tasks.len() && (#[trigger] tasks[t]).id == findings[g].task_id
                && tasks[t].repository_id == repository_id) && is_turned_down(
            findings[g],
            table,
            comments,
        ) {
        let g = choose|g: int|
            0 <= g < findings.len() && opt_view((#[trigger] findings[g]).file) == Some(file)
                && findings[g].line == Some(line) && opt_view(findings[g].title) == Some(title) && (
            exists|t: int|
                0 <= t < tasks.len() && (#[trigger] tasks[t]).id == findings[g].task_id
                    && tasks[t].repository_id == repository_id) && is_turned_down(
                findings[g],
                table,
                comments,
            );
        let (f, c) = choose|f: int, c: int|
            #![trigger table[f], comments[c]]
            0 <= f < table.len() && 0 <= c < comments.len() && table[f].task_id
                == findings[g].task_id && table[f].reaction == "-1"@ && comments[c].comment.kind@
                == "inline"@ && table[f].comment_kind == "inline"@ && table[f].platform_comment_id
                == comments[c].comment.platform_comment_id && opt_view(comments[c].comment.file)
                == opt_view(findings[g].file) && comments[c].comment.line == findings[g].line;
        assert(crate::db::feedback::rejects(table[f], comments[c]));
        assert(crate::db::feedback::is_finding(findings[g], comments[c], x));
        assert(was_rejected(findings[g], table, comments, x));
        assert(runs_in(tasks, findings[g].task_id, repository_id));
    }
}

/// The rejected findings are told each once, by file and then by line, no more than asked for; one is
/// left out only for others that come before it.
pub proof fn law_rejected_findings_are_told_by_place(
    table: &Vec<FeedbackRecord>,
    comments: &Vec<ReviewComment>,
    tasks: &Vec<TaskRecord>,
    findings: &Vec<ReportedFinding>,
    repository_id: i64,
    limit: usize,
    r: Vec<(String, i32, String)>,
    x: FindingView,
    a: int,
    b: int,
)
    requires
        call_ensures(
            rejected_findings_for_repo,
            (table, comments, tasks, findings, repository_id, limit),
            r,
        ),
        0 <= a < b < r@.len(),
    ensures
        r@.len() <= limit,
        (r@[a].0@, r@[a].1, r@[a].2@) != (r@[b].0@, r@[b].1, r@[b].2@),
        r@[a].0@ != r@[b].0@ ==> text_le(r@[a].0@, r@[b].0@),
        r@[a].0@ == r@[b].0@ ==> r@[a].1 <= r@[b].1,
        rejected_in(
            findings@,
            reactions_of(table@),
            comments@,
            runs(tasks@),
            repository_id,
            (r@[a].0@, r@[a].1, r@[a].2@),
        ),
        rejected_in(
            findings@,
            reactions_of(table@),
            comments@,
            runs(tasks@),
            repository_id,
            x,
        ) && r@.len() < limit ==> exists|k: int|
            0 <= k < r@.len() && ((#[trigger] r@[k]).0@, r@[k].1, r@[k].2@) == x,
{
    let told = findings_of(r@);
    assert(told[a] == (r@[a].0@, r@[a].1, r@[a].2@));
    assert(told[b] == (r@[b].0@, r@[b].1, r@[b].2@));
    if rejected_in(
        findings@,
        reactions_of(table@),
        comments@,
        runs(tasks@),
        repository_id,
        x,
    ) && r@.len() < limit {
        assert(told.contains(x));
        let k = choose|k: int| 0 <= k < told.len() && told[k] == x;
        assert((r@[k].0@, r@[k].1, r@[k].2@) == x);
    }
}

/// A reaction stands by who reacted and how, both.
pub proof fn law_reaction_stands_by_person_and_kind(
    present: Seq<Reaction>,
    r: Reaction,
    reactor: Seq<char>,
    reaction: Seq<char>,
)
    ensures
        stands(present.push(r), reactor, reaction) <==> stands(present, reactor, reaction) || (
        r.reactor@ == reactor && r.reaction@ == reaction),
        !stands(Seq::empty(), reactor, reaction),
{
    let longer = present.push(r);
    if stands(present, reactor, reaction) {
        let i = choose|i: int|
            0 <= i < present.len() && (#[trigger] present[i]).reactor@ == reactor
                && present[i].reaction@ == reaction;
        assert(longer[i] == present[i]);
    }
    if r.reactor@ == reactor && r.reaction@ == reaction {
        assert(longer[present.len() as int] == r);
    }
    if stands(longer, reactor, reaction) {
        let i = choose|i: int|
            0 <= i < longer.len() && (#[trigger] longer[i]).reactor@ == reactor
                && longer[i].reaction@ == reaction;
        if i < present.len() {
            assert(present[i] == longer[i]);
        }
    }
}

} // verus!
