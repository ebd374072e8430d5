//! How people received what was posted.
//!
//! Feedback is counted for the comments that were posted in a window, not for the moment a reaction was
//! noticed: each reaction belongs to the comment it stands on. A window is compared with the one of the
//! same length before it.

use vstd::prelude::*;

use crate::db::repositories::{find_by_id, is_repository_at, RepositoryRecord};
use crate::db::rows::{holds_id, holds_text};
use crate::order;
use crate::order::{arranges, Key};
use crate::platform::Platform;
use crate::text;
use crate::text::views;

verus! {

/// The repositories a breakdown lists.
pub const REPOSITORY_BREAKDOWN_LIMIT: usize = 50;

/// What a comment is.
#[derive(Clone, Copy, Debug, PartialEq, Eq, Structural)]
pub enum CommentKind {
    /// It carries a finding.
    Inline,
    /// It answers as a whole.
    Reply,
    Other,
}

impl CommentKind {
    /// The kind of a name.
    pub fn from_name(name: &str) -> (r: CommentKind)
        ensures
            r == (if name@ == "inline"@ {
                CommentKind::Inline
            } else if name@ == "reply"@ {
                CommentKind::Reply
            } else {
                CommentKind::Other
            }),
    {
        if text::same(name, "inline") {
            CommentKind::Inline
        } else if text::same(name, "reply") {
            CommentKind::Reply
        } else {
            CommentKind::Other
        }
    }
}

/// What a reaction says.
#[derive(Clone, Copy, Debug, PartialEq, Eq, Structural)]
pub enum Vote {
    Up,
    Down,
    /// Anything else; it is no verdict.
    Other,
}

impl Vote {
    /// What a reaction of a name says.
    pub fn from_name(name: &str) -> (r: Vote)
        ensures
            r == (if name@ == "+1"@ {
                Vote::Up
            } else if name@ == "-1"@ {
                Vote::Down
            } else {
                Vote::Other
            }),
    {
        if text::same(name, "+1") {
            Vote::Up
        } else if text::same(name, "-1") {
            Vote::Down
        } else {
            Vote::Other
        }
    }
}

/// A posted comment, with the repository it was posted for.
#[derive(Clone, Copy, Debug, PartialEq, Eq, Structural)]
pub struct PostedComment {
    pub repository_id: i64,
    pub platform_comment_id: i64,
    pub kind: CommentKind,
    pub created_at: i64,
}

/// A reaction to a comment.
#[derive(Debug)]
pub struct CommentReaction {
    pub platform_comment_id: i64,
    pub kind: CommentKind,
    pub reactor: String,
    pub vote: Vote,
}

/// The comments posted within a time, of a repository or of all, of a kind or of both.
#[derive(Clone, Copy, Debug, PartialEq, Eq, Structural)]
pub struct Cohort {
    pub repository_id: Option<i64>,
    pub kind: Option<CommentKind>,
    pub from: i128,
    pub to: i128,
}

/// Whether a comment belongs to a cohort. The time ends before `to`.
pub open spec fn belongs(c: PostedComment, cohort: Cohort) -> bool {
    &&& match cohort.kind {
        Some(kind) => c.kind == kind,
        None => c.kind != CommentKind::Other,
    }
    &&& cohort.repository_id is None || c.repository_id == cohort.repository_id->0
    &&& cohort.from <= c.created_at < cohort.to
}

fn in_cohort(c: &PostedComment, cohort: &Cohort) -> (r: bool)
    ensures
        r == belongs(*c, *cohort),
{
    let of_kind: bool = match cohort.kind {
        Some(kind) => c.kind == kind,
        None => c.kind != CommentKind::Other,
    };
    let of_repository: bool = match cohort.repository_id {
        Some(id) => c.repository_id == id,
        None => true,
    };
    let at: i128 = c.created_at as i128;
    of_kind && of_repository && cohort.from <= at && at < cohort.to
}

/// Whether a reaction stands on a comment.
pub open spec fn stands_on(r: CommentReaction, c: PostedComment) -> bool {
    r.platform_comment_id == c.platform_comment_id && r.kind == c.kind
}

/// Whether a reaction stands on a comment of a cohort.
pub open spec fn stands_in(r: CommentReaction, comments: Seq<PostedComment>, cohort: Cohort) -> bool {
    exists|i: int|
        0 <= i < comments.len() && belongs(#[trigger] comments[i], cohort) && stands_on(
            r,
            comments[i],
        )
}

fn is_in(r: &CommentReaction, comments: &Vec<PostedComment>, cohort: &Cohort) -> (b: bool)
    ensures
        b == stands_in(*r, comments@, *cohort),
{
    let mut i: usize = 0;
    while i < comments.len()
        invariant
            i <= comments@.len(),
            forall|j: int|
                0 <= j < i ==> !(belongs(#[trigger] comments@[j], *cohort) && stands_on(
                    *r,
                    comments@[j],
                )),
        decreases comments@.len() - i,
    {
        if in_cohort(&comments[i], cohort) && r.platform_comment_id
            == comments[i].platform_comment_id && r.kind == comments[i].kind {
            assert(belongs(comments@[i as int], *cohort));
            return true;
        }
        i = i + 1;
    }
    false
}

/// How many reactions to a cohort say something.
pub open spec fn votes(
    reactions: Seq<CommentReaction>,
    comments: Seq<PostedComment>,
    cohort: Cohort,
    vote: Vote,
) -> nat {
    reactions.filter(|r: CommentReaction| r.vote == vote && stands_in(r, comments, cohort)).len()
}

fn count_votes(
    reactions: &Vec<CommentReaction>,
    comments: &Vec<PostedComment>,
    cohort: &Cohort,
    vote: Vote,
) -> (n: usize)
    ensures
        n == votes(reactions@, comments@, *cohort, vote),
{
    let ghost p = |r: CommentReaction| r.vote == vote && stands_in(r, comments@, *cohort);
    let mut n: usize = 0;
    let mut i: usize = 0;
    proof {
        reveal(Seq::filter);
        assert(reactions@.take(0) =~= Seq::empty());
    }
    while i < reactions.len()
        invariant
            n <= i <= reactions@.len(),
            p == (|r: CommentReaction| r.vote == vote && stands_in(r, comments@, *cohort)),
            n == reactions@.take(i as int).filter(p).len(),
        decreases reactions@.len() - i,
    {
        proof {
            reveal(Seq::filter);
            assert(reactions@.take(i + 1).drop_last() =~= reactions@.take(i as int));
        }
        if reactions[i].vote == vote && is_in(&reactions[i], comments, cohort) {
            n = n + 1;
        }
        i = i + 1;
    }
    assert(reactions@.take(i as int) =~= reactions@);
    n
}

/// The comments of a cohort, by their numbers on the platform.
pub open spec fn comment_ids(comments: Seq<PostedComment>, cohort: Cohort) -> Set<i64> {
    Set::new(
        |id: i64|
            exists|i: int|
                0 <= i < comments.len() && belongs(#[trigger] comments[i], cohort)
                    && comments[i].platform_comment_id == id,
    )
}

/// Whether someone gave a verdict on a comment.
pub open spec fn is_judged(reactions: Seq<CommentReaction>, c: PostedComment) -> bool {
    exists|j: int|
        0 <= j < reactions.len() && stands_on(#[trigger] reactions[j], c) && reactions[j].vote
            != Vote::Other
}

/// The comments of a cohort that someone gave a verdict on, by their numbers on the platform.
pub open spec fn judged_ids(
    comments: Seq<PostedComment>,
    reactions: Seq<CommentReaction>,
    cohort: Cohort,
) -> Set<i64> {
    Set::new(
        |id: i64|
            exists|i: int|
                0 <= i < comments.len() && belongs(#[trigger] comments[i], cohort) && is_judged(
                    reactions,
                    comments[i],
                ) && comments[i].platform_comment_id == id,
    )
}

/// The people who reacted to a cohort.
pub open spec fn reactors(
    comments: Seq<PostedComment>,
    reactions: Seq<CommentReaction>,
    cohort: Cohort,
) -> Set<Seq<char>> {
    Set::new(
        |name: Seq<char>|
            exists|j: int|
                0 <= j < reactions.len() && stands_in(#[trigger] reactions[j], comments, cohort)
                    && reactions[j].reactor@ == name,
    )
}

proof fn lemma_contains_push<A>(s: Seq<A>, a: A, x: A)
    ensures
        s.push(a).contains(x) <==> s.contains(x) || x == a,
{
    if s.contains(x) {
        let k = choose|k: int| 0 <= k < s.len() && s[k] == x;
        assert(s.push(a)[k] == x);
    }
    if x == a {
        assert(s.push(a)[s.len() as int] == x);
    }
    if s.push(a).contains(x) && x != a {
        let k = choose|k: int| 0 <= k < s.push(a).len() && s.push(a)[k] == x;
        assert(s[k] == x);
    }
}

proof fn lemma_count<A>(s: Seq<A>, set: Set<A>)
    requires
        s.no_duplicates(),
        forall|x: A| #[trigger] s.contains(x) <==> set.contains(x),
    ensures
        set.finite(),
        set.len() == s.len(),
{
    s.unique_seq_to_set();
    assert(s.to_set() =~= set);
    vstd::seq_lib::seq_to_set_is_finite(s);
}

fn judged(reactions: &Vec<CommentReaction>, c: &PostedComment) -> (r: bool)
    ensures
        r == is_judged(reactions@, *c),
{
    let mut j: usize = 0;
    while j < reactions.len()
        invariant
            j <= reactions@.len(),
            forall|k: int|
                0 <= k < j ==> !(stands_on(#[trigger] reactions@[k], *c) && reactions@[k].vote
                    != Vote::Other),
        decreases reactions@.len() - j,
    {
        let r = &reactions[j];
        if r.platform_comment_id == c.platform_comment_id && r.kind == c.kind && r.vote
            != Vote::Other {
            assert(stands_on(reactions@[j as int], *c));
            return true;
        }
        j = j + 1;
    }
    false
}

fn count_comments(comments: &Vec<PostedComment>, cohort: &Cohort) -> (n: usize)
    ensures
        comment_ids(comments@, *cohort).finite(),
        n == comment_ids(comments@, *cohort).len(),
{
    let mut ids: Vec<i64> = Vec::new();
    let mut i: usize = 0;
    while i < comments.len()
        invariant
            i <= comments@.len(),
            ids@.no_duplicates(),
            forall|id: i64| #[trigger]
                ids@.contains(id) <==> exists|k: int|
                    0 <= k < i && belongs(#[trigger] comments@[k], *cohort)
                        && comments@[k].platform_comment_id == id,
        decreases comments@.len() - i,
    {
        let ghost before = ids@;
        let id: i64 = comments[i].platform_comment_id;
        let mine: bool = in_cohort(&comments[i], cohort);
        if mine && !holds_id(&ids, id) {
            ids.push(id);
        }
        proof {
            assert forall|x: i64| #[trigger] ids@.contains(x) <==> exists|k: int|
                0 <= k < i + 1 && belongs(#[trigger] comments@[k], *cohort)
                    && comments@[k].platform_comment_id == x by {
                lemma_contains_push(before, id, x);
                if before.contains(x) {
                    let k = choose|k: int|
                        0 <= k < i && belongs(#[trigger] comments@[k], *cohort)
                            && comments@[k].platform_comment_id == x;
                    assert(belongs(comments@[k], *cohort));
                }
                if mine && x == id {
                    assert(belongs(comments@[i as int], *cohort));
                }
            }
        }
        i = i + 1;
    }
    proof {
        lemma_count(ids@, comment_ids(comments@, *cohort));
    }
    ids.len()
}

fn count_judged(
    comments: &Vec<PostedComment>,
    reactions: &Vec<CommentReaction>,
    cohort: &Cohort,
) -> (n: usize)
    ensures
        judged_ids(comments@, reactions@, *cohort).finite(),
        n == judged_ids(comments@, reactions@, *cohort).len(),
{
    let mut ids: Vec<i64> = Vec::new();
    let mut i: usize = 0;
    while i < comments.len()
        invariant
            i <= comments@.len(),
            ids@.no_duplicates(),
            forall|id: i64| #[trigger]
                ids@.contains(id) <==> exists|k: int|
                    0 <= k < i && belongs(#[trigger] comments@[k], *cohort) && is_judged(
                        reactions@,
                        comments@[k],
                    ) && comments@[k].platform_comment_id == id,
        decreases comments@.len() - i,
    {
        let ghost before = ids@;
        let id: i64 = comments[i].platform_comment_id;
        let mine: bool = in_cohort(&comments[i], cohort) && judged(reactions, &comments[i]);
        if mine && !holds_id(&ids, id) {
            ids.push(id);
        }
        proof {
            assert forall|x: i64| #[trigger] ids@.contains(x) <==> exists|k: int|
                0 <= k < i + 1 && belongs(#[trigger] comments@[k], *cohort) && is_judged(
                    reactions@,
                    comments@[k],
                ) && comments@[k].platform_comment_id == x by {
                lemma_contains_push(before, id, x);
                if before.contains(x) {
                    let k = choose|k: int|
                        0 <= k < i && belongs(#[trigger] comments@[k], *cohort) && is_judged(
                            reactions@,
                            comments@[k],
                        ) && comments@[k].platform_comment_id == x;
                    assert(belongs(comments@[k], *cohort));
                }
                if mine && x == id {
                    assert(belongs(comments@[i as int], *cohort));
                }
            }
        }
        i = i + 1;
    }
    proof {
        lemma_count(ids@, judged_ids(comments@, reactions@, *cohort));
    }
    ids.len()
}

fn count_reactors(
    comments: &Vec<PostedComment>,
    reactions: &Vec<CommentReaction>,
    cohort: &Cohort,
) -> (n: usize)
    ensures
        reactors(comments@, reactions@, *cohort).finite(),
        n == reactors(comments@, reactions@, *cohort).len(),
{
    let mut names: Vec<String> = Vec::new();
    let mut i: usize = 0;
    assert(views(names@) =~= Seq::empty());
    while i < reactions.len()
        invariant
            i <= reactions@.len(),
            views(names@).no_duplicates(),
            forall|name: Seq<char>| #[trigger]
                views(names@).contains(name) <==> exists|k: int|
                    0 <= k < i && stands_in(#[trigger] reactions@[k], comments@, *cohort)
                        && reactions@[k].reactor@ == name,
        decreases reactions@.len() - i,
    {
        let ghost before = views(names@);
        let r = &reactions[i];
        let ghost name = r.reactor@;
        let mine: bool = is_in(r, comments, cohort);
        if mine && !holds_text(&names, r.reactor.as_str()) {
            names.push(r.reactor.clone());
            assert(views(names@) =~= before.push(name));
        }
        proof {
            assert forall|x: Seq<char>| #[trigger] views(names@).contains(x) <==> exists|k: int|
                0 <= k < i + 1 && stands_in(#[trigger] reactions@[k], comments@, *cohort)
                    && reactions@[k].reactor@ == x by {
                lemma_contains_push(before, name, x);
                if before.contains(x) {
                    let k = choose|k: int|
                        0 <= k < i && stands_in(#[trigger] reactions@[k], comments@, *cohort)
                            && reactions@[k].reactor@ == x;
                    assert(stands_in(reactions@[k], comments@, *cohort));
                }
                if mine && x == name {
                    assert(stands_in(reactions@[i as int], comments@, *cohort));
                }
            }
        }
        i = i + 1;
    }
    proof {
        lemma_count(views(names@), reactors(comments@, reactions@, *cohort));
    }
    names.len()
}

/// A share: so many of so many.
#[derive(Clone, Copy, Debug, PartialEq, Eq, Structural)]
pub struct Share {
    pub part: u128,
    pub whole: u128,
}

/// The share of approval among verdicts; there is none where nobody gave one.
pub open spec fn approval(up: nat, down: nat) -> Option<Share> {
    if up + down > 0 {
        Some(Share { part: up as u128, whole: (up + down) as u128 })
    } else {
        None
    }
}

/// The share of approval among verdicts.
pub fn approval_rate(up: usize, down: usize) -> (r: Option<Share>)
    ensures
        r == approval(up as nat, down as nat),
{
    let whole: u128 = up as u128 + down as u128;
    if whole > 0 {
        Some(Share { part: up as u128, whole })
    } else {
        None
    }
}

/// A share of approval is at most the whole, and there is one exactly where someone gave a verdict.
pub proof fn law_approval_is_a_share(up: nat, down: nat)
    requires
        up + down <= u128::MAX,
    ensures
        approval(up, down) is Some <==> up > 0 || down > 0,
        approval(up, down) matches Some(s) ==> s.part <= s.whole && s.whole > 0,
{
}

/// What people did with the comments posted within a time.
#[derive(Clone, Copy, Debug, PartialEq, Eq, Structural)]
pub struct FeedbackTotals {
    pub inline_comments: usize,
    pub reacted_inline: usize,
    pub up: usize,
    pub down: usize,
    pub other: usize,
    pub reactors: usize,
    pub reply_up: usize,
    pub reply_down: usize,
    pub approval_rate: Option<Share>,
}

/// The comments of a kind posted within a time.
pub open spec fn cohort_of(
    repository_id: Option<i64>,
    kind: Option<CommentKind>,
    from: int,
    to: int,
) -> Cohort {
    Cohort { repository_id, kind, from: from as i128, to: to as i128 }
}

/// Whether totals are those of a time.
pub open spec fn is_totals(
    t: FeedbackTotals,
    comments: Seq<PostedComment>,
    reactions: Seq<CommentReaction>,
    repository_id: Option<i64>,
    from: int,
    to: int,
) -> bool {
    let inline = cohort_of(repository_id, Some(CommentKind::Inline), from, to);
    let reply = cohort_of(repository_id, Some(CommentKind::Reply), from, to);
    let all = cohort_of(repository_id, None, from, to);
    &&& t.inline_comments == comment_ids(comments, inline).len()
    &&& t.reacted_inline == judged_ids(comments, reactions, inline).len()
    &&& t.up == votes(reactions, comments, inline, Vote::Up)
    &&& t.down == votes(reactions, comments, inline, Vote::Down)
    &&& t.other == votes(reactions, comments, inline, Vote::Other)
    &&& t.reactors == reactors(comments, reactions, all).len()
    &&& t.reply_up == votes(reactions, comments, reply, Vote::Up)
    &&& t.reply_down == votes(reactions, comments, reply, Vote::Down)
    &&& t.approval_rate == approval(t.up as nat, t.down as nat)
}

fn totals(
    comments: &Vec<PostedComment>,
    reactions: &Vec<CommentReaction>,
    repository_id: Option<i64>,
    from: i128,
    to: i128,
) -> (t: FeedbackTotals)
    ensures
        is_totals(t, comments@, reactions@, repository_id, from as int, to as int),
{
    let inline = Cohort { repository_id, kind: Some(CommentKind::Inline), from, to };
    let reply = Cohort { repository_id, kind: Some(CommentKind::Reply), from, to };
    let all = Cohort { repository_id, kind: None, from, to };
    let up: usize = count_votes(reactions, comments, &inline, Vote::Up);
    let down: usize = count_votes(reactions, comments, &inline, Vote::Down);
    FeedbackTotals {
        inline_comments: count_comments(comments, &inline),
        reacted_inline: count_judged(comments, reactions, &inline),
        up,
        down,
        other: count_votes(reactions, comments, &inline, Vote::Other),
        reactors: count_reactors(comments, reactions, &all),
        reply_up: count_votes(reactions, comments, &reply, Vote::Up),
        reply_down: count_votes(reactions, comments, &reply, Vote::Down),
        approval_rate: approval_rate(up, down),
    }
}

/// A point of the series: what became of the comments posted in one bucket.
#[derive(Clone, Copy, Debug, PartialEq, Eq, Structural)]
pub struct FeedbackSeriesPoint {
    pub bucket_start: i128,
    pub inline_comments: usize,
    pub up: usize,
    pub down: usize,
}

/// Whether a point is that of the bucket from `start` up to `end`.
pub open spec fn is_point(
    p: FeedbackSeriesPoint,
    comments: Seq<PostedComment>,
    reactions: Seq<CommentReaction>,
    repository_id: Option<i64>,
    start: int,
    end: int,
) -> bool {
    let cohort = cohort_of(repository_id, Some(CommentKind::Inline), start, end);
    &&& p.bucket_start == start
    &&& p.inline_comments == comment_ids(comments, cohort).len()
    &&& p.up == votes(reactions, comments, cohort, Vote::Up)
    &&& p.down == votes(reactions, comments, cohort, Vote::Down)
}

/// Where a bucket ends: where the next one starts, or with the window.
pub open spec fn bucket_end(start: int, step: int, to: int) -> int {
    if start + step <= to {
        start + step
    } else {
        to
    }
}

/// Whether a series has a point for every bucket of a window, in order, with those that hold nothing.
pub open spec fn is_series(
    s: Seq<FeedbackSeriesPoint>,
    comments: Seq<PostedComment>,
    reactions: Seq<CommentReaction>,
    window: AnalyticsWindow,
) -> bool {
    &&& forall|k: int|
        0 <= k < s.len() ==> is_point(
            #[trigger] s[k],
            comments,
            reactions,
            window.repository_id,
            window.from + k * window.bucket,
            bucket_end(window.from + k * window.bucket, window.bucket as int, window.to as int),
        ) && window.from + k * window.bucket < window.to
    &&& window.from + s.len() * window.bucket >= window.to
}

/// What is asked for: a window, of one repository or of all, and how long a bucket is.
#[derive(Clone, Copy, Debug, PartialEq, Eq, Structural)]
pub struct AnalyticsWindow {
    pub repository_id: Option<i64>,
    pub from: i64,
    pub to: i64,
    pub bucket: u64,
}

fn series(
    comments: &Vec<PostedComment>,
    reactions: &Vec<CommentReaction>,
    window: &AnalyticsWindow,
) -> (s: Vec<FeedbackSeriesPoint>)
    requires
        window.bucket > 0,
    ensures
        is_series(s@, comments@, reactions@, *window),
{
    let mut out: Vec<FeedbackSeriesPoint> = Vec::new();
    let to: i128 = window.to as i128;
    let step: i128 = window.bucket as i128;
    let mut start: i128 = window.from as i128;
    assert(0 * window.bucket == 0) by (nonlinear_arith);
    while start < to
        invariant
            to == window.to,
            step == window.bucket,
            step > 0,
            start == window.from + out@.len() * window.bucket,
            window.from <= start <= i64::MAX + u64::MAX,
            forall|k: int|
                0 <= k < out@.len() ==> is_point(
                    #[trigger] out@[k],
                    comments@,
                    reactions@,
                    window.repository_id,
                    window.from + k * window.bucket,
                    bucket_end(
                        window.from + k * window.bucket,
                        window.bucket as int,
                        window.to as int,
                    ),
                ) && window.from + k * window.bucket < window.to,
        decreases
                if start < to {
                    to - start
                } else {
                    0
                },
    {
        let next: i128 = start + step;
        let end: i128 = if next <= to {
            next
        } else {
            to
        };
        let cohort = Cohort {
            repository_id: window.repository_id,
            kind: Some(CommentKind::Inline),
            from: start,
            to: end,
        };
        let ghost n = out@.len() as int;
        out.push(
            FeedbackSeriesPoint {
                bucket_start: start,
                inline_comments: count_comments(comments, &cohort),
                up: count_votes(reactions, comments, &cohort, Vote::Up),
                down: count_votes(reactions, comments, &cohort, Vote::Down),
            },
        );
        assert((n + 1) * window.bucket == n * window.bucket + window.bucket) by (nonlinear_arith);
        start = next;
    }
    out
}

/// A bucket of a window holds every comment of the window that is not in another, and no other comment:
/// for each moment of the window there is one bucket.
pub proof fn law_buckets_tile_the_window(window: AnalyticsWindow, at: int) -> (k: int)
    requires
        window.bucket > 0,
        window.from <= at < window.to,
    ensures
        k >= 0,
        window.from + k * window.bucket <= at,
        at < bucket_end(
            window.from + k * window.bucket,
            window.bucket as int,
            window.to as int,
        ),
        forall|j: int|
            j >= 0 && window.from + j * window.bucket <= at < #[trigger] bucket_end(
                window.from + j * window.bucket,
                window.bucket as int,
                window.to as int,
            ) ==> j == k,
{
    let step = window.bucket as int;
    let gap = at - window.from;
    let k = gap / step;
    assert(k >= 0 && k * step <= gap && gap < k * step + step) by (nonlinear_arith)
        requires
            k == gap / step,
            step > 0,
            gap >= 0,
    ;
    assert forall|j: int|
        j >= 0 && window.from + j * window.bucket <= at < #[trigger] bucket_end(
            window.from + j * window.bucket,
            window.bucket as int,
            window.to as int,
        ) implies j == k by {
        assert(j == k) by (nonlinear_arith)
            requires
                j * step <= gap,
                gap < j * step + step,
                k * step <= gap,
                gap < k * step + step,
                step > 0,
        ;
    }
    k
}

/// One repository's part in the feedback, with what it takes to link to the repository.
#[derive(Debug)]
pub struct RepositoryFeedback {
    pub repository_id: i64,
    pub owner: String,
    pub name: String,
    pub platform: Platform,
    pub inline_comments: usize,
    pub up: usize,
    pub down: usize,
    pub approval_rate: Option<Share>,
}

/// The mathematical value of a [`RepositoryFeedback`].
pub struct PartView {
    pub repository_id: i64,
    pub owner: Seq<char>,
    pub name: Seq<char>,
    pub platform: Platform,
    pub inline_comments: usize,
    pub up: usize,
    pub down: usize,
    pub approval_rate: Option<Share>,
}

impl View for RepositoryFeedback {
    type V = PartView;

    open spec fn view(&self) -> PartView {
        PartView {
            repository_id: self.repository_id,
            owner: self.owner@,
            name: self.name@,
            platform: self.platform,
            inline_comments: self.inline_comments,
            up: self.up,
            down: self.down,
            approval_rate: self.approval_rate,
        }
    }
}

/// The values of parts.
pub open spec fn parts(rows: Seq<RepositoryFeedback>) -> Seq<PartView> {
    Seq::new(rows.len(), |i: int| rows[i]@)
}

/// Whether there is a repository of an id.
pub open spec fn is_known(repos: Seq<RepositoryRecord>, id: i64) -> bool {
    exists|i: int| 0 <= i < repos.len() && (#[trigger] repos[i]).id == id
}

/// Whether a row names the repository of its id.
pub open spec fn names_repository(row: PartView, repos: Seq<RepositoryRecord>) -> bool {
    exists|i: int| #[trigger]
        is_repository_at(repos, row.repository_id, i) && row.owner == repos[i].owner@ && row.name
            == repos[i].name@ && row.platform == repos[i].platform
}

/// Whether a row is a repository's part within a window, and names the repository.
pub open spec fn is_part(
    row: PartView,
    comments: Seq<PostedComment>,
    reactions: Seq<CommentReaction>,
    repos: Seq<RepositoryRecord>,
    window: AnalyticsWindow,
) -> bool {
    let cohort = cohort_of(
        Some(row.repository_id),
        Some(CommentKind::Inline),
        window.from as int,
        window.to as int,
    );
    &&& names_repository(row, repos)
    &&& row.inline_comments == comment_ids(comments, cohort).len()
    &&& row.up == votes(reactions, comments, cohort, Vote::Up)
    &&& row.down == votes(reactions, comments, cohort, Vote::Down)
    &&& row.approval_rate == approval(row.up as nat, row.down as nat)
}

/// Whether a repository has an inline comment within a window.
pub open spec fn takes_part(
    comments: Seq<PostedComment>,
    window: AnalyticsWindow,
    repository_id: i64,
) -> bool {
    let cohort = cohort_of(
        None,
        Some(CommentKind::Inline),
        window.from as int,
        window.to as int,
    );
    exists|i: int|
        0 <= i < comments.len() && belongs(#[trigger] comments[i], cohort)
            && comments[i].repository_id == repository_id
}

/// Whether rows are the parts of all known repositories that have one, each once.
pub open spec fn is_estate(
    rows: Seq<PartView>,
    comments: Seq<PostedComment>,
    reactions: Seq<CommentReaction>,
    repos: Seq<RepositoryRecord>,
    window: AnalyticsWindow,
) -> bool {
    &&& forall|a: int|
        0 <= a < rows.len() ==> is_part(#[trigger] rows[a], comments, reactions, repos, window)
    &&& forall|a: int, b: int|
        0 <= a < b < rows.len() ==> (#[trigger] rows[a]).repository_id != (
        #[trigger] rows[b]).repository_id
    &&& forall|a: int|
        0 <= a < rows.len() ==> takes_part(comments, window, (#[trigger] rows[a]).repository_id)
    &&& forall|id: i64|
        takes_part(comments, window, id) && is_known(repos, id) ==> exists|a: int|
            0 <= a < rows.len() && (#[trigger] rows[a]).repository_id == id
}

/// A repository's number, shifted so that all numbers are positive.
pub open spec fn shifted(id: i64) -> u128 {
    (id + 0x8000_0000_0000_0000) as u128
}

/// Parts by rejection, the most first, then by approval, the most first, then by repository.
pub open spec fn by_rejection(rows: Seq<PartView>) -> Seq<Key> {
    Seq::new(
        rows.len(),
        |i: int|
            Key {
                major: (-rows[i].down) as i128,
                minor: (-rows[i].up) as i128,
                id: shifted(rows[i].repository_id),
            },
    )
}

/// Every place.
pub open spec fn everywhere(n: nat) -> Seq<bool> {
    Seq::new(n, |i: int| true)
}

/// Whether `out` lists the parts, the most rejected first, as far as a list goes.
pub open spec fn is_breakdown(
    out: Seq<PartView>,
    rows: Seq<PartView>,
    places: Seq<usize>,
) -> bool {
    &&& arranges(places, everywhere(rows.len()), by_rejection(rows))
    &&& out.len() == (if places.len() <= REPOSITORY_BREAKDOWN_LIMIT {
        places.len() as int
    } else {
        REPOSITORY_BREAKDOWN_LIMIT as int
    })
    &&& forall|a: int| 0 <= a < out.len() ==> #[trigger] out[a] == rows[places[a] as int]
}

fn copy_part(part: &RepositoryFeedback) -> (r: RepositoryFeedback)
    ensures
        r@ == part@,
{
    RepositoryFeedback {
        repository_id: part.repository_id,
        owner: part.owner.as_str().to_owned(),
        name: part.name.as_str().to_owned(),
        platform: part.platform,
        inline_comments: part.inline_comments,
        up: part.up,
        down: part.down,
        approval_rate: part.approval_rate,
    }
}

fn part_of(
    comments: &Vec<PostedComment>,
    reactions: &Vec<CommentReaction>,
    repos: &Vec<RepositoryRecord>,
    window: &AnalyticsWindow,
    at: usize,
) -> (r: RepositoryFeedback)
    requires
        at < repos@.len(),
        is_repository_at(repos@, repos@[at as int].id, at as int),
    ensures
        r@.repository_id == repos@[at as int].id,
        is_part(r@, comments@, reactions@, repos@, *window),
{
    let repo = &repos[at];
    let cohort = Cohort {
        repository_id: Some(repo.id),
        kind: Some(CommentKind::Inline),
        from: window.from as i128,
        to: window.to as i128,
    };
    let up: usize = count_votes(reactions, comments, &cohort, Vote::Up);
    let down: usize = count_votes(reactions, comments, &cohort, Vote::Down);
    let r = RepositoryFeedback {
        repository_id: repo.id,
        owner: repo.owner.as_str().to_owned(),
        name: repo.name.as_str().to_owned(),
        platform: repo.platform,
        inline_comments: count_comments(comments, &cohort),
        up,
        down,
        approval_rate: approval_rate(up, down),
    };
    assert(is_repository_at(repos@, r@.repository_id, at as int));
    assert(r@.owner == repos@[at as int].owner@ && r@.name == repos@[at as int].name@);
    r
}

fn estate(
    comments: &Vec<PostedComment>,
    reactions: &Vec<CommentReaction>,
    repos: &Vec<RepositoryRecord>,
    window: &AnalyticsWindow,
) -> (rows: Vec<RepositoryFeedback>)
    ensures
        is_estate(parts(rows@), comments@, reactions@, repos@, *window),
{
    let from: i128 = window.from as i128;
    let to: i128 = window.to as i128;
    let everyone = Cohort { repository_id: None, kind: Some(CommentKind::Inline), from, to };
    let mut rows: Vec<RepositoryFeedback> = Vec::new();
    let mut ids: Vec<i64> = Vec::new();
    let mut i: usize = 0;
    while i < comments.len()
        invariant
            i <= comments@.len(),
            everyone == cohort_of(
                None,
                Some(CommentKind::Inline),
                window.from as int,
                window.to as int,
            ),
            ids@.len() == rows@.len(),
            forall|a: int|
                0 <= a < ids@.len() ==> #[trigger] ids@[a] == parts(rows@)[a].repository_id,
            forall|a: int|
                0 <= a < rows@.len() ==> is_part(
                    #[trigger] parts(rows@)[a],
                    comments@,
                    reactions@,
                    repos@,
                    *window,
                ),
            ids@.no_duplicates(),
            forall|a: int|
                0 <= a < ids@.len() ==> takes_part(comments@, *window, #[trigger] ids@[a]),
            forall|k: int|
                0 <= k < i && belongs(#[trigger] comments@[k], everyone) && is_known(
                    repos@,
                    comments@[k].repository_id,
                ) ==> ids@.contains(comments@[k].repository_id),
        decreases comments@.len() - i,
    {
        let id: i64 = comments[i].repository_id;
        let ghost rows_before = rows@;
        let ghost ids_before = ids@;
        if in_cohort(&comments[i], &everyone) && !holds_id(&ids, id) {
            if let Some(at) = find_by_id(repos, id) {
                let part: RepositoryFeedback = part_of(comments, reactions, repos, window, at);
                let ghost part_view = part@;
                rows.push(part);
                ids.push(id);
                proof {
                    assert(parts(rows@) =~= parts(rows_before).push(part_view));
                    assert(belongs(comments@[i as int], everyone));
                    assert(takes_part(comments@, *window, id));
                    assert forall|x: i64| ids_before.contains(x) || x == id implies #[trigger] ids@.contains(
                        x,
                    ) by {
                        lemma_contains_push(ids_before, id, x);
                    }
                    assert(ids@.no_duplicates());
                }
            }
        }
        i = i + 1;
    }
    proof {
        let all = parts(rows@);
        assert forall|a: int, b: int| 0 <= a < b < all.len() implies (
        #[trigger] all[a]).repository_id != (#[trigger] all[b]).repository_id by {
            assert(ids@[a] != ids@[b]);
        }
        assert forall|a: int| 0 <= a < all.len() implies takes_part(
            comments@,
            *window,
            (#[trigger] all[a]).repository_id,
        ) by {
            assert(takes_part(comments@, *window, ids@[a]));
        }
        assert forall|id: i64| takes_part(comments@, *window, id) && is_known(
            repos@,
            id,
        ) implies exists|a: int| 0 <= a < all.len() && (#[trigger] all[a]).repository_id == id by {
            let k = choose|k: int|
                0 <= k < comments@.len() && belongs(#[trigger] comments@[k], everyone)
                    && comments@[k].repository_id == id;
            assert(ids@.contains(id));
            let a = choose|a: int| 0 <= a < ids@.len() && ids@[a] == id;
            assert(all[a].repository_id == ids@[a]);
        }
    }
    rows
}

/// Everything about the feedback of a window.
#[derive(Debug)]
pub struct FeedbackAnalytics {
    pub current: FeedbackTotals,
    pub previous: FeedbackTotals,
    pub series: Vec<FeedbackSeriesPoint>,
    /// Where all repositories are asked for: their parts, the most rejected first.
    pub by_repository: Option<Vec<RepositoryFeedback>>,
    /// Whether there are more than are listed.
    pub by_repository_truncated: bool,
}

/// The feedback of a window, and of the one of the same length before it.
pub fn feedback_analytics(
    comments: &Vec<PostedComment>,
    reactions: &Vec<CommentReaction>,
    repos: &Vec<RepositoryRecord>,
    window: &AnalyticsWindow,
) -> (r: FeedbackAnalytics)
    requires
        window.bucket > 0,
    ensures
        is_totals(
            r.current,
            comments@,
            reactions@,
            window.repository_id,
            window.from as int,
            window.to as int,
        ),
        is_totals(
            r.previous,
            comments@,
            reactions@,
            window.repository_id,
            window.from - (window.to - window.from),
            window.from as int,
        ),
        is_series(r.series@, comments@, reactions@, *window),
        match window.repository_id {
            Some(_) => r.by_repository is None && !r.by_repository_truncated,
            None => r.by_repository is Some && exists|
                rows: Seq<PartView>,
                places: Seq<usize>,
            |
                #![trigger is_breakdown(parts(r.by_repository->0@), rows, places)]
                is_estate(rows, comments@, reactions@, repos@, *window) && is_breakdown(
                    parts(r.by_repository->0@),
                    rows,
                    places,
                ) && r.by_repository_truncated == (rows.len() > REPOSITORY_BREAKDOWN_LIMIT),
        },
{
    let from: i128 = window.from as i128;
    let to: i128 = window.to as i128;
    let current: FeedbackTotals = totals(comments, reactions, window.repository_id, from, to);
    let previous: FeedbackTotals = totals(
        comments,
        reactions,
        window.repository_id,
        from - (to - from),
        from,
    );
    let points: Vec<FeedbackSeriesPoint> = series(comments, reactions, window);
    if let Some(_) = window.repository_id {
        return FeedbackAnalytics {
            current,
            previous,
            series: points,
            by_repository: None,
            by_repository_truncated: false,
        };
    }
    let rows: Vec<RepositoryFeedback> = estate(comments, reactions, repos, window);
    let ghost all = parts(rows@);
    let mut selected: Vec<bool> = Vec::new();
    let mut keys: Vec<Key> = Vec::new();
    let mut i: usize = 0;
    while i < rows.len()
        invariant
            i <= rows@.len(),
            all == parts(rows@),
            selected@ =~= everywhere(all.len()).take(i as int),
            keys@ =~= by_rejection(all).take(i as int),
        decreases rows@.len() - i,
    {
        let row = &rows[i];
        assert(all[i as int] == row@);
        selected.push(true);
        keys.push(
            Key {
                major: -(row.down as i128),
                minor: -(row.up as i128),
                id: (row.repository_id as i128 + 0x8000_0000_0000_0000) as u128,
            },
        );
        i = i + 1;
    }
    assert(selected@ =~= everywhere(all.len()));
    assert(keys@ =~= by_rejection(all));
    let places: Vec<usize> = order::arrange(&selected, &keys);
    let mut listed: Vec<RepositoryFeedback> = Vec::new();
    while listed.len() < places.len() && listed.len() < REPOSITORY_BREAKDOWN_LIMIT
        invariant
            listed@.len() <= places@.len(),
            listed@.len() <= REPOSITORY_BREAKDOWN_LIMIT,
            all == parts(rows@),
            forall|a: int| 0 <= a < places@.len() ==> (#[trigger] places@[a]) < rows@.len(),
            forall|a: int|
                0 <= a < listed@.len() ==> #[trigger] parts(listed@)[a] == all[places@[a] as int],
        decreases places@.len() - listed@.len(),
    {
        let at: usize = places[listed.len()];
        let ghost before = listed@;
        let part: RepositoryFeedback = copy_part(&rows[at]);
        let ghost part_view = part@;
        listed.push(part);
        assert(parts(listed@) =~= parts(before).push(part_view));
    }
    let r = FeedbackAnalytics {
        current,
        previous,
        series: points,
        by_repository: Some(listed),
        by_repository_truncated: rows.len() > REPOSITORY_BREAKDOWN_LIMIT,
    };
    assert(window.repository_id is None);
    assert(is_breakdown(parts(r.by_repository->0@), all, places@));
    r
}

/// No comment is counted in a window and in the one before it.
pub proof fn law_windows_do_not_overlap(c: PostedComment, window: AnalyticsWindow, kind: Option<CommentKind>)
    ensures
        !(belongs(
            c,
            cohort_of(window.repository_id, kind, window.from as int, window.to as int),
        ) && belongs(
            c,
            cohort_of(
                window.repository_id,
                kind,
                window.from - (window.to - window.from),
                window.from as int,
            ),
        )),
{
}

proof fn lemma_votes_add_up(
    reactions: Seq<CommentReaction>,
    comments: Seq<PostedComment>,
    cohort: Cohort,
)
    ensures
        votes(reactions, comments, cohort, Vote::Up) + votes(
            reactions,
            comments,
            cohort,
            Vote::Down,
        ) + votes(reactions, comments, cohort, Vote::Other) == reactions.filter(
            |r: CommentReaction| stands_in(r, comments, cohort),
        ).len(),
    decreases reactions.len(),
{
    reveal(Seq::filter);
    if reactions.len() > 0 {
        lemma_votes_add_up(reactions.drop_last(), comments, cohort);
    }
}

/// Every reaction to an inline comment of a window is counted once: as approval, as rejection, or as
/// neither.
pub proof fn law_every_reaction_is_counted_once(
    t: FeedbackTotals,
    comments: Seq<PostedComment>,
    reactions: Seq<CommentReaction>,
    repository_id: Option<i64>,
    from: int,
    to: int,
)
    requires
        is_totals(t, comments, reactions, repository_id, from, to),
    ensures
        t.up + t.down + t.other == reactions.filter(
            |r: CommentReaction|
                stands_in(
                    r,
                    comments,
                    cohort_of(repository_id, Some(CommentKind::Inline), from, to),
                ),
        ).len(),
{
    lemma_votes_add_up(
        reactions,
        comments,
        cohort_of(repository_id, Some(CommentKind::Inline), from, to),
    );
}

} // verus!
