//! What is kept of reviews, what an earlier review means for a new one, and what a run has said so far.

use vstd::prelude::*;

use crate::db::outbox::{OutboxRow, OutboxStatus};
use crate::db::pending_actions::{
    is_line_at, is_replayed, line_is_free, with_comment, BufferView, CommentView, InlineView,
};
use crate::db::reviews::{
    all_prior_reviews_for_target, by_age, by_step, found_before, has_answered, has_findings, has_no_review,
    has_review, holds_comment, is_review_at, lists_latest, other_steps, places_of, prior, queued,
    queued_findings, reviewed, reviews_of, steps_of, target_has_prior_findings, unposted,
    with_comments, PriorReview, ReviewComment, ReviewCommentRef, ReviewRow, ReviewView, Target,
    TranscriptInput, TranscriptRow,
};
use crate::db::tasks::TaskRecord;
use crate::json::{member, Json};
use crate::laws::kept::lemma_kept;
use crate::order::arranges;

verus! {

/// A review is that of its run: it is found by the run's id, and none is found where there is none.
pub proof fn law_review_is_found_by_its_run(
    table: Seq<ReviewView>,
    review: ReviewView,
    task_id: u128,
    i: int,
)
    ensures
        is_review_at(table, task_id, i) ==> 0 <= i < table.len() && table[i].task_id == task_id
            && !has_no_review(table, task_id),
        has_no_review(table.push(review), task_id) <==> has_no_review(table, task_id)
            && review.task_id != task_id,
        has_no_review(Seq::empty(), task_id),
{
    let longer = table.push(review);
    if has_no_review(longer, task_id) {
        assert forall|j: int| 0 <= j < table.len() implies (#[trigger] table[j]).task_id
            != task_id by {
            assert(longer[j] == table[j]);
        }
        assert(longer[table.len() as int] == review);
    }
}

/// A review that nothing was posted for keeps all it says and points nowhere.
pub proof fn law_unposted_review_points_nowhere(review: ReviewView)
    ensures
        ({
            let u = unposted(review);
            &&& u.review_url is None
            &&& u.platform_review_id is None
            &&& u.task_id == review.task_id
            &&& u.summary == review.summary
            &&& u.body == review.body
            &&& u.inline_count == review.inline_count
            &&& u.deferred_count == review.deferred_count
            &&& u.out_of_scope_count == review.out_of_scope_count
            &&& u.findings == review.findings
            &&& u.created_at == review.created_at
        }),
{
}

/// A run has a review on its way or on its platform exactly where a post of kind `review` was stored for
/// it, even one that was given up, or a review of it was posted.
pub proof fn law_review_intent_is_a_stored_or_posted_review(
    outbox: Seq<OutboxRow>,
    reviews: Seq<ReviewView>,
    task_id: u128,
)
    ensures
        has_review(outbox, reviews, task_id) <==> (exists|i: int|
            0 <= i < outbox.len() && (#[trigger] outbox[i]).task_id == Some(task_id)
                && outbox[i].kind@ == "review"@) || (exists|i: int|
            0 <= i < reviews.len() && (#[trigger] reviews[i]).task_id == task_id
                && reviews[i].platform_review_id is Some),
{
    if exists|i: int|
        0 <= i < outbox.len() && (#[trigger] outbox[i]).task_id == Some(task_id) && outbox[i].kind@
            == "review"@ {
        let i = choose|i: int|
            0 <= i < outbox.len() && (#[trigger] outbox[i]).task_id == Some(task_id)
                && outbox[i].kind@ == "review"@;
        assert(crate::db::reviews::is_review_intent(outbox[i], task_id));
    }
    if exists|i: int|
        0 <= i < outbox.len() && crate::db::reviews::is_review_intent(
            #[trigger] outbox[i],
            task_id,
        ) {
        let i = choose|i: int|
            0 <= i < outbox.len() && crate::db::reviews::is_review_intent(
                #[trigger] outbox[i],
                task_id,
            );
        assert(outbox[i].task_id == Some(task_id));
    }
}

/// A run has answered exactly where it has a review or a comment, or a `review` or a `reply` of it was
/// posted or is still to be; what was given up is no answer.
pub proof fn law_answer_is_what_was_not_given_up(
    reviews: Seq<ReviewView>,
    comments: Seq<ReviewComment>,
    outbox: Seq<OutboxRow>,
    task_id: u128,
)
    ensures
        has_answered(reviews, comments, outbox, task_id) <==> (exists|i: int|
            0 <= i < reviews.len() && (#[trigger] reviews[i]).task_id == task_id) || (exists|i: int|
            0 <= i < comments.len() && (#[trigger] comments[i]).task_id == task_id) || (exists|
            i: int,
        |
            0 <= i < outbox.len() && (#[trigger] outbox[i]).task_id == Some(task_id) && (
            outbox[i].kind@ == "review"@ || outbox[i].kind@ == "reply"@) && (outbox[i].status
                == OutboxStatus::Posted || outbox[i].status == OutboxStatus::Pending)),
{
    if exists|i: int|
        0 <= i < outbox.len() && (#[trigger] outbox[i]).task_id == Some(task_id) && (outbox[i].kind@
            == "review"@ || outbox[i].kind@ == "reply"@) && (outbox[i].status
            == OutboxStatus::Posted || outbox[i].status == OutboxStatus::Pending) {
        let i = choose|i: int|
            0 <= i < outbox.len() && (#[trigger] outbox[i]).task_id == Some(task_id) && (
            outbox[i].kind@ == "review"@ || outbox[i].kind@ == "reply"@) && (outbox[i].status
                == OutboxStatus::Posted || outbox[i].status == OutboxStatus::Pending);
        assert(crate::db::reviews::is_live_content(outbox[i], task_id));
    }
    if exists|i: int|
        0 <= i < outbox.len() && crate::db::reviews::is_live_content(
            #[trigger] outbox[i],
            task_id,
        ) {
        let i = choose|i: int|
            0 <= i < outbox.len() && crate::db::reviews::is_live_content(
                #[trigger] outbox[i],
                task_id,
            );
        assert(outbox[i].task_id == Some(task_id));
    }
}

/// An earlier review is one by another run of the same repository, target type and target, and where a
/// head is asked for, of that head.
pub proof fn law_earlier_review_is_of_the_same_target(
    reviews: Seq<ReviewView>,
    tasks: Seq<TaskRecord>,
    target: Target,
    head: Option<Seq<char>>,
    current: u128,
    i: int,
)
    requires
        0 <= i < reviews.len(),
    ensures
        prior(reviews, tasks, target, head, current)[i] <==> reviews[i].task_id != current && exists|
            k: int,
        |
            0 <= k < tasks.len() && (#[trigger] tasks[k]).id == reviews[i].task_id
                && tasks[k]@.repository_id == target.repository_id && tasks[k]@.target_type
                == target.target_type@ && tasks[k]@.target_id == target.target_id && (head is None
                || tasks[k]@.head_sha == head),
{
    if prior(reviews, tasks, target, head, current)[i] {
        assert(reviewed(tasks, reviews[i].task_id, target, head));
    }
    if exists|k: int|
        0 <= k < tasks.len() && (#[trigger] tasks[k]).id == reviews[i].task_id
            && tasks[k]@.repository_id == target.repository_id && tasks[k]@.target_type
            == target.target_type@ && tasks[k]@.target_id == target.target_id && (head is None
            || tasks[k]@.head_sha == head) {
        assert(reviewed(tasks, reviews[i].task_id, target, head));
    }
}

/// Of the earlier reviews the latest come first, twenty at most, and each carries its number in the whole
/// history: the oldest is the first.
pub proof fn law_latest_reviews_come_first(
    reviews: &Vec<ReviewRow>,
    tasks: &Vec<TaskRecord>,
    target: &Target,
    current: u128,
    r: Vec<PriorReview>,
    a: int,
    b: int,
)
    requires
        call_ensures(all_prior_reviews_for_target, (reviews, tasks, target, current), r),
        0 <= a < b < r@.len(),
    ensures
        r@.len() <= 20,
        r@[a].place < reviews@.len(),
        r@[a].place != r@[b].place,
        prior(reviews_of(reviews@), tasks@, *target, None, current)[r@[a].place as int],
        prior(reviews_of(reviews@), tasks@, *target, None, current)[r@[b].place as int],
        reviews@[r@[a].place as int].created_at >= reviews@[r@[b].place as int].created_at,
        r@[a].ordinal - r@[b].ordinal == b - a,
        r@[b].ordinal >= 1,
        r@.len() < 20 ==> r@[r@.len() - 1].ordinal == 1,
{
    let table = reviews_of(reviews@);
    let selected = prior(table, tasks@, *target, None, current);
    let history = choose|history: Seq<usize>| #[trigger]
        arranges(history, selected, by_age(table)) && lists_latest(r@, history);
    let x = history.len() - 1 - a;
    let y = history.len() - 1 - b;
    assert(r@[a].place == history[x]);
    assert(r@[b].place == history[y]);
    assert(selected[history[x] as int]);
    assert(selected[history[y] as int]);
    assert(table[history[x] as int] == reviews@[history[x] as int]@);
    assert(table[history[y] as int] == reviews@[history[y] as int]@);
    if r@.len() < 20 {
        assert(r@[r@.len() - 1].ordinal == history.len() - (r@.len() - 1));
    }
}

/// Where no more than twenty earlier reviews are there, none is left out.
pub proof fn law_short_history_is_told_whole(
    reviews: &Vec<ReviewRow>,
    tasks: &Vec<TaskRecord>,
    target: &Target,
    current: u128,
    r: Vec<PriorReview>,
    i: int,
)
    requires
        call_ensures(all_prior_reviews_for_target, (reviews, tasks, target, current), r),
        r@.len() < 20,
        0 <= i < reviews@.len(),
        prior(reviews_of(reviews@), tasks@, *target, None, current)[i],
    ensures
        exists|a: int| 0 <= a < r@.len() && (#[trigger] r@[a]).place == i,
{
    let table = reviews_of(reviews@);
    let selected = prior(table, tasks@, *target, None, current);
    let history = choose|history: Seq<usize>| #[trigger]
        arranges(history, selected, by_age(table)) && lists_latest(r@, history);
    assert(selected[i]);
    let k = choose|k: int| 0 <= k < history.len() && #[trigger] history[k] == i;
    assert(r@[history.len() - 1 - k].place == history[k]);
}

/// There is something to take back exactly where an earlier review of the target has a finding: findings
/// that are no list, or an empty one, are none.
pub proof fn law_earlier_findings_are_a_list_with_something_in_it(
    reviews: &Vec<ReviewRow>,
    tasks: &Vec<TaskRecord>,
    target: &Target,
    current: u128,
    r: bool,
)
    requires
        call_ensures(target_has_prior_findings, (reviews, tasks, target, current), r),
    ensures
        r <==> exists|i: int|
            0 <= i < reviews@.len() && #[trigger] prior(
                reviews_of(reviews@),
                tasks@,
                *target,
                None,
                current,
            )[i] && reviews@[i].findings is Array && reviews@[i].findings->Array_0@.len() > 0,
{
    let selected = prior(reviews_of(reviews@), tasks@, *target, None, current);
    if r {
        let i = choose|i: int|
            0 <= i < reviews@.len() && #[trigger] selected[i] && has_findings(reviews@[i].findings);
        assert(selected[i] && reviews@[i].findings is Array && reviews@[i].findings->Array_0@.len()
            > 0);
        assert(exists|i: int|
            0 <= i < reviews@.len() && #[trigger] selected[i] && reviews@[i].findings is Array
                && reviews@[i].findings->Array_0@.len() > 0);
    }
    if exists|i: int|
        0 <= i < reviews@.len() && #[trigger] selected[i] && reviews@[i].findings is Array
            && reviews@[i].findings->Array_0@.len() > 0 {
        let i = choose|i: int|
            0 <= i < reviews@.len() && #[trigger] selected[i] && reviews@[i].findings is Array
                && reviews@[i].findings->Array_0@.len() > 0;
        assert(selected[i] && has_findings(reviews@[i].findings));
        assert(found_before(reviews@, tasks@, *target, current));
    }
}

/// A queued review of a head is a pending post of kind `review`, by another run that is of the target and
/// the head.
pub proof fn law_queued_review_is_pending_and_of_the_head(
    outbox: Seq<OutboxRow>,
    tasks: Seq<TaskRecord>,
    target: Target,
    head: Seq<char>,
    current: u128,
    i: int,
)
    requires
        0 <= i < outbox.len(),
    ensures
        queued(outbox, tasks, target, head, current)[i] <==> outbox[i].kind@ == "review"@
            && outbox[i].status == OutboxStatus::Pending && outbox[i].task_id is Some
            && outbox[i].task_id->0 != current && exists|k: int|
            0 <= k < tasks.len() && (#[trigger] tasks[k]).id == outbox[i].task_id->0
                && tasks[k]@.repository_id == target.repository_id && tasks[k]@.target_type
                == target.target_type@ && tasks[k]@.target_id == target.target_id
                && tasks[k]@.head_sha == Some(head),
{
    if queued(outbox, tasks, target, head, current)[i] {
        assert(reviewed(tasks, outbox[i].task_id->0, target, Some(head)));
    }
    if exists|k: int|
        0 <= k < tasks.len() && (#[trigger] tasks[k]).id == outbox[i].task_id->0
            && tasks[k]@.repository_id == target.repository_id && tasks[k]@.target_type
            == target.target_type@ && tasks[k]@.target_id == target.target_id && tasks[k]@.head_sha
            == Some(head) {
        assert(reviewed(tasks, outbox[i].task_id->0, target, Some(head)));
    }
}

/// The findings of a queued review are the member `findings_json` of its payload.
pub proof fn law_queued_findings_are_in_the_payload(payload: Json)
    ensures
        payload is Object ==> queued_findings(payload) == member(
            payload->Object_0@,
            "findings_json"@,
        ),
        !(payload is Object) ==> queued_findings(payload) is None,
{
}

/// The places of what is selected are all of them and no other, in ascending order.
pub proof fn law_selected_places_are_told_in_order(selected: Seq<bool>, i: int)
    requires
        selected.len() <= usize::MAX,
        0 <= i < selected.len(),
    ensures
        places_of(selected).contains(i as usize) <==> selected[i],
        forall|a: int, b: int|
            0 <= a < b < places_of(selected).len() ==> (#[trigger] places_of(selected)[a]) < (
            #[trigger] places_of(selected)[b]),
        forall|a: int|
            0 <= a < places_of(selected).len() ==> (#[trigger] places_of(selected)[a])
                < selected.len(),
    decreases selected.len(),
{
    lemma_places(selected);
    let places = places_of(selected);
    if selected[i] {
        let a = choose|a: int| 0 <= a < places.len() && #[trigger] places[a] == i;
        assert(places[a] == i as usize);
    }
    if places.contains(i as usize) {
        let a = choose|a: int| 0 <= a < places.len() && places[a] == i as usize;
        assert(selected[places[a] as int]);
    }
}

proof fn lemma_places(selected: Seq<bool>)
    requires
        selected.len() <= usize::MAX,
    ensures
        forall|i: int|
            0 <= i < selected.len() && #[trigger] selected[i] ==> exists|a: int|
                0 <= a < places_of(selected).len() && #[trigger] places_of(selected)[a] == i,
        forall|a: int|
            0 <= a < places_of(selected).len() ==> (#[trigger] places_of(selected)[a])
                < selected.len() && selected[places_of(selected)[a] as int],
        forall|a: int, b: int|
            0 <= a < b < places_of(selected).len() ==> (#[trigger] places_of(selected)[a]) < (
            #[trigger] places_of(selected)[b]),
    decreases selected.len(),
{
    if selected.len() > 0 {
        let init = selected.drop_last();
        lemma_places(init);
        let before = places_of(init);
        let after = places_of(selected);
        assert forall|i: int| 0 <= i < selected.len() && #[trigger] selected[i] implies exists|
            a: int,
        |
            0 <= a < after.len() && #[trigger] after[a] == i by {
            if i < init.len() {
                assert(init[i]);
                let a = choose|a: int| 0 <= a < before.len() && #[trigger] before[a] == i;
                assert(after[a] == i);
            } else {
                assert(after[before.len() as int] == i);
            }
        }
        assert forall|a: int| 0 <= a < after.len() implies (#[trigger] after[a]) < selected.len()
            && selected[after[a] as int] by {
            if a < before.len() {
                assert(after[a] == before[a]);
                assert(init[before[a] as int]);
            }
        }
        assert forall|a: int, b: int| 0 <= a < b < after.len() implies (#[trigger] after[a]) < (
        #[trigger] after[b]) by {
            assert(after[a] == before[a]);
            if b < before.len() {
                assert(after[b] == before[b]);
            }
        }
    }
}

/// A comment is known by its kind and its number, both, whatever run left it: a second one is passed
/// over, a new one is stored with the run that left it, and nothing is lost.
pub proof fn law_comment_is_stored_once(
    table: Seq<ReviewComment>,
    task_id: u128,
    comments: Seq<ReviewCommentRef>,
    c: ReviewCommentRef,
)
    ensures
        ({
            let before = with_comments(table, task_id, comments);
            let after = with_comments(table, task_id, comments.push(c));
            let known = exists|i: int|
                0 <= i < before.len() && (#[trigger] before[i]).comment.kind@ == c.kind@
                    && before[i].comment.platform_comment_id == c.platform_comment_id;
            &&& known ==> after == before
            &&& !known ==> after.len() == before.len() + 1 && after.take(before.len() as int)
                == before && after.last().task_id == task_id && after.last().comment == c
        }),
        with_comments(table, task_id, Seq::empty()) == table,
{
    assert(comments.push(c).drop_last() =~= comments);
    let before = with_comments(table, task_id, comments);
    let after = with_comments(table, task_id, comments.push(c));
    if !holds_comment(before, c.kind@, c.platform_comment_id) {
        assert(after.take(before.len() as int) =~= before);
    }
}

/// A new transcript of a run leaves the steps of every other run.
pub proof fn law_transcripts_of_other_runs_stay(
    table: Seq<TranscriptRow<TranscriptInput>>,
    task_id: u128,
    row: TranscriptRow<TranscriptInput>,
)
    ensures
        other_steps(table, task_id).contains(row) <==> table.contains(row) && row.task_id != task_id,
{
    lemma_kept(table, |row: TranscriptRow<TranscriptInput>| row.task_id != task_id, row);
}

/// A transcript is read as its run wrote it: its steps and no other, by number.
pub proof fn law_transcript_is_read_in_order(
    table: Seq<TranscriptRow<TranscriptInput>>,
    places: Seq<usize>,
    task_id: u128,
    i: int,
    a: int,
    b: int,
)
    requires
        arranges(places, steps_of(table, task_id), by_step(table)),
        0 <= i < table.len(),
        0 <= a < b < places.len(),
    ensures
        (exists|k: int| 0 <= k < places.len() && #[trigger] places[k] == i) <==> table[i].task_id
            == task_id,
        table[places[a] as int].seq <= table[places[b] as int].seq,
{
    let selected = steps_of(table, task_id);
    if table[i].task_id == task_id {
        assert(selected[i]);
    }
    if exists|k: int| 0 <= k < places.len() && #[trigger] places[k] == i {
        let k = choose|k: int| 0 <= k < places.len() && #[trigger] places[k] == i;
        assert(selected[places[k] as int]);
    }
    assert(selected[places[a] as int]);
    assert(selected[places[b] as int]);
}

/// A finding is known by its file and its line, both.
pub proof fn law_finding_is_known_by_file_and_line(
    inline: Seq<InlineView>,
    f: InlineView,
    file: Seq<char>,
    line: i32,
)
    ensures
        line_is_free(inline.push(f), file, line) <==> line_is_free(inline, file, line) && (f.file
            != file || f.line != line),
        line_is_free(Seq::empty(), file, line),
        forall|i: int| #[trigger]
            is_line_at(inline, file, line, i) ==> inline[i].file == file && inline[i].line == line
                && !line_is_free(inline, file, line),
{
    let longer = inline.push(f);
    if line_is_free(longer, file, line) {
        assert forall|j: int| 0 <= j < inline.len() implies !((#[trigger] inline[j]).file == file
            && inline[j].line == line) by {
            assert(longer[j] == inline[j]);
        }
        assert(longer[inline.len() as int] == f);
    }
}

/// Taking a finding back takes what stands on its line of its file, and nothing else.
pub proof fn law_taking_back_takes_one_line(
    inline: Seq<InlineView>,
    file: Seq<char>,
    line: i32,
    f: InlineView,
)
    ensures
        inline.filter(|f: InlineView| !(f.file == file && f.line == line)).contains(f)
            <==> inline.contains(f) && !(f.file == file && f.line == line),
{
    lemma_kept(inline, |f: InlineView| !(f.file == file && f.line == line), f);
}

/// A comment is a repeat exactly where one of the same run epoch and the same call is there, both known;
/// any other is added behind the others, whatever it says.
pub proof fn law_comment_is_a_repeat_by_run_and_call(
    b: BufferView,
    run_epoch: Option<i32>,
    call_id: Option<Seq<char>>,
    body: Seq<char>,
)
    ensures
        ({
            let after = with_comment(b, run_epoch, call_id, body);
            let repeat = run_epoch is Some && call_id is Some && exists|j: int|
                0 <= j < b.comments.len() && (#[trigger] b.comments[j]).run_epoch == run_epoch
                    && b.comments[j].call_id == call_id;
            &&& is_replayed(b, run_epoch, call_id) <==> repeat
            &&& repeat ==> after == b
            &&& !repeat ==> after.comments.len() == b.comments.len() + 1 && after.comments.last()
                == (CommentView { run_epoch, call_id, body }) && after.comments.take(
                b.comments.len() as int,
            ) == b.comments
            &&& after.inline == b.inline
            &&& after.summary == b.summary
        }),
{
    let after = with_comment(b, run_epoch, call_id, body);
    if !is_replayed(b, run_epoch, call_id) {
        assert(after.comments.take(b.comments.len() as int) =~= b.comments);
    }
}

} // verus!
