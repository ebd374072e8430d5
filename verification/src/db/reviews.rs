//! Reviews that were posted, and what earlier reviews of a target mean for a new one.

use vstd::prelude::*;

use crate::db::outbox::{OutboxRow, OutboxStatus};
use crate::db::tasks::{TaskRecord, TaskView};
use crate::json;
use crate::json::{member, Json};
use crate::order;
use crate::order::{arranges, Key};
use crate::text;
use crate::text::{opt_str_view, opt_view};

verus! {

/// A review as it is stored.
#[derive(Debug)]
pub struct ReviewRow {
    pub task_id: u128,
    pub summary: String,
    pub body: String,
    pub inline_count: i32,
    pub deferred_count: i32,
    pub out_of_scope_count: i32,
    pub findings: Json,
    pub review_url: Option<String>,
    /// The review on its platform, where it was posted.
    pub platform_review_id: Option<i64>,
    pub created_at: i64,
}

/// The mathematical value of a [`ReviewRow`].
#[verifier::ext_equal]
pub struct ReviewView {
    pub task_id: u128,
    pub summary: Seq<char>,
    pub body: Seq<char>,
    pub inline_count: i32,
    pub deferred_count: i32,
    pub out_of_scope_count: i32,
    pub findings: Json,
    pub review_url: Option<Seq<char>>,
    pub platform_review_id: Option<i64>,
    pub created_at: i64,
}

impl View for ReviewRow {
    type V = ReviewView;

    open spec fn view(&self) -> ReviewView {
        ReviewView {
            task_id: self.task_id,
            summary: self.summary@,
            body: self.body@,
            inline_count: self.inline_count,
            deferred_count: self.deferred_count,
            out_of_scope_count: self.out_of_scope_count,
            findings: self.findings,
            review_url: opt_view(self.review_url),
            platform_review_id: self.platform_review_id,
            created_at: self.created_at,
        }
    }
}

/// The values of a table of reviews.
pub open spec fn reviews_of(rows: Seq<ReviewRow>) -> Seq<ReviewView> {
    Seq::new(rows.len(), |i: int| rows[i]@)
}

/// Whether `i` is the place of a run's review; of several, the lowest.
pub open spec fn is_review_at(table: Seq<ReviewView>, task_id: u128, i: int) -> bool {
    &&& 0 <= i < table.len()
    &&& table[i].task_id == task_id
    &&& forall|j: int| 0 <= j < i ==> (#[trigger] table[j]).task_id != task_id
}

/// Whether a table has no review of a run.
pub open spec fn has_no_review(table: Seq<ReviewView>, task_id: u128) -> bool {
    forall|j: int| 0 <= j < table.len() ==> (#[trigger] table[j]).task_id != task_id
}

/// The place of a run's review, where there is one.
pub fn get_review(rows: &Vec<ReviewRow>, task_id: u128) -> (r: Option<usize>)
    ensures
        match r {
            Some(i) => is_review_at(reviews_of(rows@), task_id, i as int),
            None => has_no_review(reviews_of(rows@), task_id),
        },
{
    let ghost table = reviews_of(rows@);
    let mut i: usize = 0;
    while i < rows.len()
        invariant
            i <= rows@.len(),
            table == reviews_of(rows@),
            forall|j: int| 0 <= j < i ==> (#[trigger] table[j]).task_id != task_id,
        decreases rows@.len() - i,
    {
        assert(table[i as int] == rows@[i as int]@);
        if rows[i].task_id == task_id {
            return Some(i);
        }
        i = i + 1;
    }
    None
}

/// Stores a review. A review of the same run is replaced.
pub fn upsert_review(rows: &mut Vec<ReviewRow>, review: ReviewRow)
    ensures
        ({
            let before = reviews_of(old(rows)@);
            let after = reviews_of(final(rows)@);
            if has_no_review(before, review.task_id) {
                after == before.push(review@)
            } else {
                exists|i: int| #[trigger]
                    is_review_at(before, review.task_id, i) && after == before.update(i, review@)
            }
        }),
{
    let ghost before = reviews_of(rows@);
    let ghost new = review@;
    let ghost task_id = review.task_id;
    match get_review(rows, review.task_id) {
        Some(i) => {
            assert(before[i as int].task_id == task_id);
            rows.set(i, review);
            assert(reviews_of(rows@) =~= before.update(i as int, new));
        },
        None => {
            rows.push(review);
            assert(reviews_of(rows@) =~= before.push(new));
        },
    }
}

/// A review that nothing was posted for.
pub open spec fn unposted(review: ReviewView) -> ReviewView {
    ReviewView { review_url: None, platform_review_id: None, ..review }
}

/// Stores a review that nothing was posted for, of a run that has none; a review that is there already
/// is left as it is.
pub fn insert_review_if_absent(rows: &mut Vec<ReviewRow>, review: ReviewRow)
    ensures
        ({
            let before = reviews_of(old(rows)@);
            reviews_of(final(rows)@) == (if has_no_review(before, review.task_id) {
                before.push(unposted(review@))
            } else {
                before
            })
        }),
{
    let ghost before = reviews_of(rows@);
    let ghost new = unposted(review@);
    if get_review(rows, review.task_id).is_none() {
        rows.push(ReviewRow { review_url: None, platform_review_id: None, ..review });
        assert(reviews_of(rows@) =~= before.push(new));
    }
}

/// Whether a stored post is a review of a run.
pub open spec fn is_review_intent(o: OutboxRow, task_id: u128) -> bool {
    o.task_id == Some(task_id) && o.kind@ == "review"@
}

/// Whether a run has a review on its way to its platform, or on it: a review intent, whatever became of
/// it, or a review that was posted.
pub open spec fn has_review(
    outbox: Seq<OutboxRow>,
    reviews: Seq<ReviewView>,
    task_id: u128,
) -> bool {
    ||| exists|i: int| 0 <= i < outbox.len() && is_review_intent(#[trigger] outbox[i], task_id)
    ||| exists|i: int|
        0 <= i < reviews.len() && (#[trigger] reviews[i]).task_id == task_id
            && reviews[i].platform_review_id is Some
}

/// Whether a run has a review on its way to its platform, or on it.
pub fn has_review_intent_or_posted_review(
    outbox: &Vec<OutboxRow>,
    reviews: &Vec<ReviewRow>,
    task_id: u128,
) -> (r: bool)
    ensures
        r == has_review(outbox@, reviews_of(reviews@), task_id),
{
    let ghost table = reviews_of(reviews@);
    let mut i: usize = 0;
    while i < outbox.len()
        invariant
            i <= outbox@.len(),
            forall|j: int| 0 <= j < i ==> !is_review_intent(#[trigger] outbox@[j], task_id),
        decreases outbox@.len() - i,
    {
        let mine: bool = match outbox[i].task_id {
            Some(id) => id == task_id,
            None => false,
        };
        if mine && text::same(outbox[i].kind.as_str(), "review") {
            assert(is_review_intent(outbox@[i as int], task_id));
            return true;
        }
        i = i + 1;
    }
    let mut i: usize = 0;
    while i < reviews.len()
        invariant
            i <= reviews@.len(),
            table == reviews_of(reviews@),
            forall|j: int|
                0 <= j < i ==> !((#[trigger] table[j]).task_id == task_id
                    && table[j].platform_review_id is Some),
        decreases reviews@.len() - i,
    {
        assert(table[i as int] == reviews@[i as int]@);
        if reviews[i].task_id == task_id && reviews[i].platform_review_id.is_some() {
            assert(table[i as int].task_id == task_id);
            return true;
        }
        i = i + 1;
    }
    false
}

/// Whether a post is content of a run that was delivered or is still to be.
pub open spec fn is_live_content(o: OutboxRow, task_id: u128) -> bool {
    &&& o.task_id == Some(task_id)
    &&& o.kind@ == "review"@ || o.kind@ == "reply"@
    &&& o.status != OutboxStatus::Failed
}

/// Whether a run has answered, or is about to: a review, a comment, or content that was not given up.
pub open spec fn has_answered(
    reviews: Seq<ReviewView>,
    comments: Seq<ReviewComment>,
    outbox: Seq<OutboxRow>,
    task_id: u128,
) -> bool {
    ||| exists|i: int| 0 <= i < reviews.len() && (#[trigger] reviews[i]).task_id == task_id
    ||| exists|i: int| 0 <= i < comments.len() && (#[trigger] comments[i]).task_id == task_id
    ||| exists|i: int| 0 <= i < outbox.len() && is_live_content(#[trigger] outbox[i], task_id)
}

/// Whether a run has answered, or is about to; a notice of failure is posted only where it has not.
pub fn has_responded_or_pending_content(
    reviews: &Vec<ReviewRow>,
    comments: &Vec<ReviewComment>,
    outbox: &Vec<OutboxRow>,
    task_id: u128,
) -> (r: bool)
    ensures
        r == has_answered(reviews_of(reviews@), comments@, outbox@, task_id),
{
    let ghost table = reviews_of(reviews@);
    if let Some(i) = get_review(reviews, task_id) {
        assert(table[i as int].task_id == task_id);
        return true;
    }
    let mut i: usize = 0;
    while i < comments.len()
        invariant
            i <= comments@.len(),
            forall|j: int| 0 <= j < i ==> (#[trigger] comments@[j]).task_id != task_id,
        decreases comments@.len() - i,
    {
        if comments[i].task_id == task_id {
            assert(comments@[i as int].task_id == task_id);
            return true;
        }
        i = i + 1;
    }
    let mut i: usize = 0;
    while i < outbox.len()
        invariant
            i <= outbox@.len(),
            forall|j: int| 0 <= j < i ==> !is_live_content(#[trigger] outbox@[j], task_id),
        decreases outbox@.len() - i,
    {
        let o = &outbox[i];
        let mine: bool = match o.task_id {
            Some(id) => id == task_id,
            None => false,
        };
        if mine && o.status != OutboxStatus::Failed && (text::same(o.kind.as_str(), "review")
            || text::same(o.kind.as_str(), "reply")) {
            assert(is_live_content(outbox@[i as int], task_id));
            return true;
        }
        i = i + 1;
    }
    false
}

/// The earlier reviews that are carried into a new one.
pub const PRIOR_REVIEWS_CAP: usize = 20;

/// A target: what is reviewed.
#[derive(Debug)]
pub struct Target {
    pub repository_id: i64,
    pub target_type: String,
    pub target_id: i64,
}

/// Whether a run is of a target.
pub open spec fn is_of(t: TaskView, target: Target) -> bool {
    t.repository_id == target.repository_id && t.target_type == target.target_type@ && t.target_id
        == target.target_id
}

fn of_target(t: &TaskRecord, target: &Target) -> (r: bool)
    ensures
        r == is_of(t@, *target),
{
    t.repository_id == target.repository_id && t.target_id == target.target_id && text::same(
        t.target_type.as_str(),
        target.target_type.as_str(),
    )
}

/// Whether some run of that id is of a target, with a head where one is asked for.
pub open spec fn reviewed(
    tasks: Seq<TaskRecord>,
    task_id: u128,
    target: Target,
    head: Option<Seq<char>>,
) -> bool {
    exists|i: int|
        0 <= i < tasks.len() && (#[trigger] tasks[i]).id == task_id && is_of(tasks[i]@, target) && (
        head is None || tasks[i]@.head_sha == head)
}

fn is_reviewed(tasks: &Vec<TaskRecord>, task_id: u128, target: &Target, head: Option<&str>) -> (r:
    bool)
    ensures
        r == reviewed(tasks@, task_id, *target, opt_str_view(head)),
{
    let mut i: usize = 0;
    while i < tasks.len()
        invariant
            i <= tasks@.len(),
            forall|j: int|
                0 <= j < i ==> !((#[trigger] tasks@[j]).id == task_id && is_of(tasks@[j]@, *target)
                    && (opt_str_view(head) is None || tasks@[j]@.head_sha == opt_str_view(head))),
        decreases tasks@.len() - i,
    {
        let t = &tasks[i];
        let same_head: bool = match (head, &t.head_sha) {
            (None, _) => true,
            (Some(h), Some(mine)) => text::same(h, mine.as_str()),
            (Some(_), None) => false,
        };
        if t.id == task_id && of_target(t, target) && same_head {
            assert(tasks@[i as int].id == task_id);
            return true;
        }
        i = i + 1;
    }
    false
}

/// The reviews of a target by other runs.
pub open spec fn prior(
    reviews: Seq<ReviewView>,
    tasks: Seq<TaskRecord>,
    target: Target,
    head: Option<Seq<char>>,
    current: u128,
) -> Seq<bool> {
    Seq::new(
        reviews.len(),
        |i: int|
            reviews[i].task_id != current && reviewed(tasks, reviews[i].task_id, target, head),
    )
}

fn prior_places(
    reviews: &Vec<ReviewRow>,
    tasks: &Vec<TaskRecord>,
    target: &Target,
    head: Option<&str>,
    current: u128,
) -> (r: Vec<bool>)
    ensures
        r@ == prior(reviews_of(reviews@), tasks@, *target, opt_str_view(head), current),
{
    let ghost table = reviews_of(reviews@);
    let mut selected: Vec<bool> = Vec::new();
    let mut i: usize = 0;
    while i < reviews.len()
        invariant
            i <= reviews@.len(),
            table == reviews_of(reviews@),
            selected@ =~= prior(table, tasks@, *target, opt_str_view(head), current).take(i as int),
        decreases reviews@.len() - i,
    {
        let id: u128 = reviews[i].task_id;
        selected.push(id != current && is_reviewed(tasks, id, target, head));
        i = i + 1;
    }
    assert(selected@ =~= prior(table, tasks@, *target, opt_str_view(head), current));
    selected
}

/// Reviews by age, then by the id of their run.
pub open spec fn by_age(reviews: Seq<ReviewView>) -> Seq<Key> {
    Seq::new(
        reviews.len(),
        |i: int|
            Key { major: reviews[i].created_at as i128, minor: 0, id: reviews[i].task_id },
    )
}

/// An earlier review: its number in the history of its target, from one on, and its place.
#[derive(Clone, Copy, Debug, PartialEq, Eq, Structural)]
pub struct PriorReview {
    pub ordinal: usize,
    pub place: usize,
}

/// Whether `out` lists the latest of a history, the latest first, with their numbers in the whole of it.
pub open spec fn lists_latest(out: Seq<PriorReview>, history: Seq<usize>) -> bool {
    &&& out.len() == (if history.len() <= PRIOR_REVIEWS_CAP {
        history.len() as int
    } else {
        PRIOR_REVIEWS_CAP as int
    })
    &&& forall|a: int|
        0 <= a < out.len() ==> (#[trigger] out[a]).ordinal == history.len() - a && out[a].place
            == history[history.len() - 1 - a]
}

/// The earlier reviews of a target, the latest first, up to a cap. A review keeps its number however
/// many come after it.
pub fn all_prior_reviews_for_target(
    reviews: &Vec<ReviewRow>,
    tasks: &Vec<TaskRecord>,
    target: &Target,
    current: u128,
) -> (r: Vec<PriorReview>)
    ensures
        exists|history: Seq<usize>| #[trigger]
            arranges(
                history,
                prior(reviews_of(reviews@), tasks@, *target, None, current),
                by_age(reviews_of(reviews@)),
            ) && lists_latest(r@, history),
{
    let ghost table = reviews_of(reviews@);
    let selected: Vec<bool> = prior_places(reviews, tasks, target, None, current);
    let mut keys: Vec<Key> = Vec::new();
    let mut i: usize = 0;
    while i < reviews.len()
        invariant
            i <= reviews@.len(),
            table == reviews_of(reviews@),
            keys@ =~= by_age(table).take(i as int),
        decreases reviews@.len() - i,
    {
        keys.push(
            Key { major: reviews[i].created_at as i128, minor: 0, id: reviews[i].task_id },
        );
        i = i + 1;
    }
    assert(keys@ =~= by_age(table));
    let history: Vec<usize> = order::arrange(&selected, &keys);
    let mut out: Vec<PriorReview> = Vec::new();
    let n: usize = history.len();
    while out.len() < n && out.len() < PRIOR_REVIEWS_CAP
        invariant
            n == history@.len(),
            out@.len() <= n,
            out@.len() <= PRIOR_REVIEWS_CAP,
            forall|a: int|
                0 <= a < out@.len() ==> (#[trigger] out@[a]).ordinal == n - a && out@[a].place
                    == history@[n - 1 - a],
        decreases n - out@.len(),
    {
        let at: usize = n - 1 - out.len();
        out.push(PriorReview { ordinal: at + 1, place: history[at] });
    }
    assert(arranges(history@, selected@, keys@));
    assert(lists_latest(out@, history@));
    out
}

/// Whether findings are a list with something in it. Anything else has no findings.
pub open spec fn has_findings(findings: Json) -> bool {
    match findings {
        Json::Array(items) => items@.len() > 0,
        _ => false,
    }
}

/// Whether some earlier review of a target has findings.
pub open spec fn found_before(
    reviews: Seq<ReviewRow>,
    tasks: Seq<TaskRecord>,
    target: Target,
    current: u128,
) -> bool {
    exists|i: int|
        0 <= i < reviews.len() && #[trigger] prior(
            reviews_of(reviews),
            tasks,
            target,
            None,
            current,
        )[i] && has_findings(reviews[i].findings)
}

/// Whether an earlier review of a target has findings, so that a review without any has something to
/// take back.
pub fn target_has_prior_findings(
    reviews: &Vec<ReviewRow>,
    tasks: &Vec<TaskRecord>,
    target: &Target,
    current: u128,
) -> (r: bool)
    ensures
        r == found_before(reviews@, tasks@, *target, current),
{
    let selected: Vec<bool> = prior_places(reviews, tasks, target, None, current);
    let ghost chosen = prior(reviews_of(reviews@), tasks@, *target, None, current);
    let mut i: usize = 0;
    while i < reviews.len()
        invariant
            i <= reviews@.len(),
            selected@.len() == reviews@.len(),
            selected@ == chosen,
            chosen == prior(reviews_of(reviews@), tasks@, *target, None, current),
            forall|j: int|
                0 <= j < i ==> !(#[trigger] chosen[j] && has_findings(reviews@[j].findings)),
        decreases reviews@.len() - i,
    {
        let found: bool = match &reviews[i].findings {
            Json::Array(items) => items.len() > 0,
            _ => false,
        };
        if selected[i] && found {
            assert(chosen[i as int]);
            return true;
        }
        i = i + 1;
    }
    false
}

/// The posts that hold a review of a target and head by another run, and are still to be delivered.
pub open spec fn queued(
    outbox: Seq<OutboxRow>,
    tasks: Seq<TaskRecord>,
    target: Target,
    head: Seq<char>,
    current: u128,
) -> Seq<bool> {
    Seq::new(
        outbox.len(),
        |i: int|
            outbox[i].kind@ == "review"@ && outbox[i].status == OutboxStatus::Pending
                && outbox[i].task_id is Some && outbox[i].task_id->0 != current && reviewed(
                tasks,
                outbox[i].task_id->0,
                target,
                Some(head),
            ),
    )
}

/// The places that are selected, in order.
pub open spec fn places_of(selected: Seq<bool>) -> Seq<usize>
    decreases selected.len(),
{
    if selected.len() == 0 {
        Seq::empty()
    } else if selected.last() {
        places_of(selected.drop_last()).push((selected.len() - 1) as usize)
    } else {
        places_of(selected.drop_last())
    }
}

fn collect_places(selected: &Vec<bool>) -> (r: Vec<usize>)
    ensures
        r@ == places_of(selected@),
{
    let mut out: Vec<usize> = Vec::new();
    let mut i: usize = 0;
    assert(selected@.take(0) =~= Seq::empty());
    while i < selected.len()
        invariant
            i <= selected@.len(),
            out@ == places_of(selected@.take(i as int)),
        decreases selected@.len() - i,
    {
        assert(selected@.take(i + 1).drop_last() =~= selected@.take(i as int));
        if selected[i] {
            out.push(i);
        }
        i = i + 1;
    }
    assert(selected@.take(i as int) =~= selected@);
    out
}

proof fn lemma_places_within(selected: Seq<bool>)
    requires
        selected.len() <= usize::MAX,
    ensures
        forall|k: int|
            0 <= k < places_of(selected).len() ==> (#[trigger] places_of(selected)[k])
                < selected.len(),
    decreases selected.len(),
{
    if selected.len() > 0 {
        let init = places_of(selected.drop_last());
        lemma_places_within(selected.drop_last());
        assert forall|k: int| 0 <= k < places_of(selected).len() implies (
        #[trigger] places_of(selected)[k]) < selected.len() by {
            if k < init.len() {
                assert(places_of(selected)[k] == init[k]);
            }
        }
    }
}

/// Where the findings for a head are, that were posted or are queued for posting: the places of reviews
/// and of posts.
#[derive(Debug)]
pub struct PostedFindings {
    pub reviews: Vec<usize>,
    pub outbox: Vec<usize>,
}

/// Finds what other runs posted, or queued for posting, for one head of a target.
pub fn posted_findings_for_head(
    reviews: &Vec<ReviewRow>,
    outbox: &Vec<OutboxRow>,
    tasks: &Vec<TaskRecord>,
    target: &Target,
    head_sha: &str,
    current: u128,
) -> (r: PostedFindings)
    ensures
        r.reviews@ == places_of(
            prior(reviews_of(reviews@), tasks@, *target, Some(head_sha@), current),
        ),
        r.outbox@ == places_of(queued(outbox@, tasks@, *target, head_sha@, current)),
{
    let selected: Vec<bool> = prior_places(reviews, tasks, target, Some(head_sha), current);
    let from_reviews: Vec<usize> = collect_places(&selected);
    let mut pending: Vec<bool> = Vec::new();
    let mut i: usize = 0;
    while i < outbox.len()
        invariant
            i <= outbox@.len(),
            pending@ =~= queued(outbox@, tasks@, *target, head_sha@, current).take(i as int),
        decreases outbox@.len() - i,
    {
        let o = &outbox[i];
        let by_other: bool = match o.task_id {
            Some(id) => id != current && is_reviewed(tasks, id, target, Some(head_sha)),
            None => false,
        };
        pending.push(
            by_other && o.status == OutboxStatus::Pending && text::same(o.kind.as_str(), "review"),
        );
        i = i + 1;
    }
    assert(pending@ =~= queued(outbox@, tasks@, *target, head_sha@, current));
    PostedFindings { reviews: from_reviews, outbox: collect_places(&pending) }
}

/// The findings that a queued review will post: a member of its payload.
pub open spec fn queued_findings(payload: Json) -> Option<Json> {
    match payload {
        Json::Object(members) => member(members@, "findings_json"@),
        _ => None,
    }
}

/// Whether a value that was found is the one that is there.
pub open spec fn is_value(found: Option<&Json>, there: Option<Json>) -> bool {
    match found {
        Some(value) => there == Some(*value),
        None => there is None,
    }
}

/// The findings that other runs posted, or queued for posting, for one head of a target: those of the
/// reviews and then those of the posts. `None` stands for a post whose payload holds none.
pub fn posted_findings<'a>(
    reviews: &'a Vec<ReviewRow>,
    outbox: &'a Vec<OutboxRow>,
    tasks: &Vec<TaskRecord>,
    target: &Target,
    head_sha: &str,
    current: u128,
) -> (r: Vec<Option<&'a Json>>)
    ensures
        ({
            let posted = places_of(
                prior(reviews_of(reviews@), tasks@, *target, Some(head_sha@), current),
            );
            let pending = places_of(queued(outbox@, tasks@, *target, head_sha@, current));
            &&& r@.len() == posted.len() + pending.len()
            &&& forall|i: int|
                0 <= i < posted.len() ==> is_value(
                    #[trigger] r@[i],
                    Some(reviews@[posted[i] as int].findings),
                )
            &&& forall|i: int|
                posted.len() <= i < r@.len() ==> is_value(
                    #[trigger] r@[i],
                    queued_findings(outbox@[pending[i - posted.len()] as int].payload),
                )
        }),
{
    let found: PostedFindings = posted_findings_for_head(
        reviews,
        outbox,
        tasks,
        target,
        head_sha,
        current,
    );
    let ghost posted = found.reviews@;
    let ghost pending = found.outbox@;
    proof {
        assert(reviews@.len() == reviews.len() && outbox@.len() == outbox.len());
        lemma_places_within(prior(reviews_of(reviews@), tasks@, *target, Some(head_sha@), current));
        lemma_places_within(queued(outbox@, tasks@, *target, head_sha@, current));
    }
    let mut out: Vec<Option<&'a Json>> = Vec::new();
    let mut i: usize = 0;
    while i < found.reviews.len()
        invariant
            i <= posted.len(),
            posted == found.reviews@,
            forall|k: int| 0 <= k < posted.len() ==> (#[trigger] posted[k]) < reviews@.len(),
            out@.len() == i,
            forall|k: int|
                0 <= k < i ==> is_value(
                    #[trigger] out@[k],
                    Some(reviews@[posted[k] as int].findings),
                ),
        decreases posted.len() - i,
    {
        let at: usize = found.reviews[i];
        assert(posted[i as int] == at);
        out.push(Some(&reviews[at].findings));
        i = i + 1;
    }
    let mut i: usize = 0;
    while i < found.outbox.len()
        invariant
            i <= pending.len(),
            pending == found.outbox@,
            forall|k: int| 0 <= k < pending.len() ==> (#[trigger] pending[k]) < outbox@.len(),
            out@.len() == posted.len() + i,
            forall|k: int|
                0 <= k < posted.len() ==> is_value(
                    #[trigger] out@[k],
                    Some(reviews@[posted[k] as int].findings),
                ),
            forall|k: int|
                posted.len() <= k < posted.len() + i ==> is_value(
                    #[trigger] out@[k],
                    queued_findings(outbox@[pending[k - posted.len()] as int].payload),
                ),
        decreases pending.len() - i,
    {
        let at: usize = found.outbox[i];
        assert(pending[i as int] == at);
        let value: Option<&'a Json> = match &outbox[at].payload {
            Json::Object(members) => json::get(members, "findings_json"),
            _ => None,
        };
        out.push(value);
        i = i + 1;
    }
    out
}

/// A comment that was created, as it is reported.
#[derive(Debug)]
pub struct ReviewCommentRef {
    pub platform_comment_id: i64,
    /// `inline` or `reply`.
    pub kind: String,
    pub file: Option<String>,
    pub line: Option<i32>,
}

/// A comment as it is stored.
#[derive(Debug)]
pub struct ReviewComment {
    pub task_id: u128,
    pub comment: ReviewCommentRef,
}

/// Whether a table holds a comment of a kind and number.
pub open spec fn holds_comment(
    table: Seq<ReviewComment>,
    kind: Seq<char>,
    platform_comment_id: i64,
) -> bool {
    exists|i: int|
        0 <= i < table.len() && (#[trigger] table[i]).comment.kind@ == kind
            && table[i].comment.platform_comment_id == platform_comment_id
}

/// A table with comments stored, one after the other; one that is there already is passed over.
pub open spec fn with_comments(
    table: Seq<ReviewComment>,
    task_id: u128,
    comments: Seq<ReviewCommentRef>,
) -> Seq<ReviewComment>
    decreases comments.len(),
{
    if comments.len() == 0 {
        table
    } else {
        let before = with_comments(table, task_id, comments.drop_last());
        let c = comments.last();
        if holds_comment(before, c.kind@, c.platform_comment_id) {
            before
        } else {
            before.push(ReviewComment { task_id, comment: c })
        }
    }
}

/// Stores the comments a run created.
pub fn store_review_comments(
    table: &mut Vec<ReviewComment>,
    task_id: u128,
    comments: Vec<ReviewCommentRef>,
)
    ensures
        final(table)@ == with_comments(old(table)@, task_id, comments@),
{
    let ghost given = comments@;
    let ghost before = table@;
    let mut rest: Vec<ReviewCommentRef> = comments;
    let ghost mut done: int = 0;
    assert(given.take(0) =~= Seq::empty());
    assert(rest@ =~= given.skip(0));
    while rest.len() > 0
        invariant
            0 <= done <= given.len(),
            rest@ == given.skip(done),
            table@ == with_comments(before, task_id, given.take(done)),
        decreases rest@.len(),
    {
        let c: ReviewCommentRef = rest.remove(0);
        proof {
            assert(c == given[done]);
            assert(rest@ =~= given.skip(done + 1));
            assert(given.take(done + 1).drop_last() =~= given.take(done));
        }
        let mut known: bool = false;
        let mut i: usize = 0;
        while i < table.len()
            invariant
                i <= table@.len(),
                known == exists|j: int|
                    0 <= j < i && (#[trigger] table@[j]).comment.kind@ == c.kind@
                        && table@[j].comment.platform_comment_id == c.platform_comment_id,
            decreases table@.len() - i,
        {
            if table[i].comment.platform_comment_id == c.platform_comment_id && text::same(
                table[i].comment.kind.as_str(),
                c.kind.as_str(),
            ) {
                known = true;
            }
            i = i + 1;
        }
        assert(known == holds_comment(table@, c.kind@, c.platform_comment_id));
        if !known {
            table.push(ReviewComment { task_id, comment: c });
        }
        proof {
            done = done + 1;
        }
    }
    assert(given.take(done) =~= given);
}

/// One step of a run, as the runner hands it in.
#[derive(Debug)]
pub struct TranscriptInput {
    pub role: String,
    pub content: Option<String>,
    pub tool_calls: Option<Json>,
    pub tool_name: Option<String>,
    pub prompt_tokens: Option<i64>,
    pub completion_tokens: Option<i64>,
    pub reasoning_tokens: Option<i64>,
    pub model: Option<String>,
}

/// One step of a run's transcript, as it is stored.
#[derive(Debug)]
pub struct TranscriptRow<E> {
    pub task_id: u128,
    pub seq: usize,
    pub entry: E,
    pub created_at: i64,
}

/// The steps of other runs.
pub open spec fn other_steps<E>(table: Seq<TranscriptRow<E>>, task_id: u128) -> Seq<
    TranscriptRow<E>,
> {
    table.filter(|row: TranscriptRow<E>| row.task_id != task_id)
}

/// Replaces the transcript of a run by new steps, numbered from zero. Those of other runs stay.
pub fn replace_transcript<E>(
    table: &mut Vec<TranscriptRow<E>>,
    task_id: u128,
    entries: Vec<E>,
    now: i64,
)
    ensures
        ({
            let kept = other_steps(old(table)@, task_id);
            &&& final(table)@.len() == kept.len() + entries@.len()
            &&& final(table)@.take(kept.len() as int) == kept
            &&& forall|k: int|
                0 <= k < entries@.len() ==> #[trigger] final(table)@[kept.len() + k] == (
                TranscriptRow { task_id, seq: k as usize, entry: entries@[k], created_at: now })
        }),
{
    let ghost all = table@;
    let ghost other = |row: TranscriptRow<E>| row.task_id != task_id;
    let mut rest: Vec<TranscriptRow<E>> = Vec::new();
    std::mem::swap(&mut rest, table);
    let mut out: Vec<TranscriptRow<E>> = Vec::new();
    let ghost mut i: int = 0;
    proof {
        reveal(Seq::filter);
        assert(all.take(0) =~= Seq::empty());
        assert(rest@ =~= all.skip(0));
    }
    while rest.len() > 0
        invariant
            0 <= i <= all.len(),
            rest@ == all.skip(i),
            other == (|row: TranscriptRow<E>| row.task_id != task_id),
            out@ == all.take(i).filter(other),
        decreases rest@.len(),
    {
        let row: TranscriptRow<E> = rest.remove(0);
        proof {
            reveal(Seq::filter);
            assert(row == all[i]);
            assert(rest@ =~= all.skip(i + 1));
            assert(all.take(i + 1).drop_last() =~= all.take(i));
        }
        if row.task_id != task_id {
            out.push(row);
        }
        proof {
            i = i + 1;
        }
    }
    assert(all.take(i) =~= all);
    let ghost kept = out@;
    let ghost given = entries@;
    let mut pending: Vec<E> = entries;
    let mut seq: usize = 0;
    let total: usize = pending.len();
    assert(pending@ =~= given.skip(0));
    while pending.len() > 0
        invariant
            0 <= seq <= total,
            total == given.len(),
            pending@ == given.skip(seq as int),
            out@.len() == kept.len() + seq,
            out@.take(kept.len() as int) == kept,
            forall|k: int|
                0 <= k < seq ==> #[trigger] out@[kept.len() + k] == (TranscriptRow {
                    task_id,
                    seq: k as usize,
                    entry: given[k],
                    created_at: now,
                }),
        decreases pending@.len(),
    {
        let entry: E = pending.remove(0);
        assert(pending@ =~= given.skip(seq + 1));
        let ghost before = out@;
        out.push(TranscriptRow { task_id, seq, entry, created_at: now });
        assert(out@.take(kept.len() as int) =~= before.take(kept.len() as int));
        seq = seq + 1;
    }
    std::mem::swap(&mut out, table);
}

/// The steps of a run.
pub open spec fn steps_of<E>(table: Seq<TranscriptRow<E>>, task_id: u128) -> Seq<bool> {
    Seq::new(table.len(), |i: int| table[i].task_id == task_id)
}

/// Steps by number.
pub open spec fn by_step<E>(table: Seq<TranscriptRow<E>>) -> Seq<Key> {
    Seq::new(table.len(), |i: int| Key { major: table[i].seq as i128, minor: 0, id: 0 })
}

/// The places of a run's steps, in order.
pub fn get_transcript<E>(table: &Vec<TranscriptRow<E>>, task_id: u128) -> (r: Vec<usize>)
    ensures
        arranges(r@, steps_of(table@, task_id), by_step(table@)),
{
    let mut selected: Vec<bool> = Vec::new();
    let mut keys: Vec<Key> = Vec::new();
    let mut i: usize = 0;
    while i < table.len()
        invariant
            i <= table@.len(),
            selected@ =~= steps_of(table@, task_id).take(i as int),
            keys@ =~= by_step(table@).take(i as int),
        decreases table@.len() - i,
    {
        selected.push(table[i].task_id == task_id);
        keys.push(Key { major: table[i].seq as i128, minor: 0, id: 0 });
        i = i + 1;
    }
    assert(selected@ =~= steps_of(table@, task_id));
    assert(keys@ =~= by_step(table@));
    order::arrange(&selected, &keys)
}

/// The number of a review in the history of its target does not depend on what came after it: of two
/// histories of which one begins with the other, a place has one number.
pub proof fn law_review_numbers_are_stable(
    shorter: Seq<usize>,
    longer: Seq<usize>,
    a: Seq<PriorReview>,
    b: Seq<PriorReview>,
    i: int,
    j: int,
)
    requires
        shorter.is_prefix_of(longer),
        longer.no_duplicates(),
        lists_latest(a, shorter),
        lists_latest(b, longer),
        0 <= i < a.len(),
        0 <= j < b.len(),
        a[i].place == b[j].place,
    ensures
        a[i].ordinal == b[j].ordinal,
{
    let x = shorter.len() - 1 - i;
    let y = longer.len() - 1 - j;
    assert(shorter[x] == longer[x]);
    assert(longer[x] == longer[y]);
}

/// What is recorded of how a review run was set up: the tools it was offered, and its configuration.
/// Both are absent until the run starts, and for runs that review nothing.
#[derive(Debug, PartialEq)]
pub struct RunTelemetry {
    pub run_tools: Option<Json>,
    pub run_config_b64: Option<String>,
}

/// Records how a review run was set up, in place of what an earlier attempt recorded. `run` is absent
/// where there is no such run; the result says whether there is one.
pub fn record_review_run_telemetry(
    run: &mut Option<RunTelemetry>,
    run_tools: Json,
    run_config_b64: &str,
) -> (r: bool)
    ensures
        r == (*old(run) is Some),
        match *final(run) {
            Some(t) => r && t.run_tools == Some(run_tools) && opt_view(t.run_config_b64) == Some(
                run_config_b64@,
            ),
            None => !r,
        },
{
    if run.is_some() {
        *run = Some(
            RunTelemetry {
                run_tools: Some(run_tools),
                run_config_b64: Some(run_config_b64.to_owned()),
            },
        );
        true
    } else {
        false
    }
}

} // verus!
