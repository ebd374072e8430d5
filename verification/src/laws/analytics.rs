//! What is counted of how people received what was posted.

use vstd::prelude::*;

use crate::db::analytics::{
    belongs, comment_ids, everywhere, feedback_analytics, is_breakdown, is_estate, is_series,
    is_totals, judged_ids, parts, reactors, stands_in, takes_part, AnalyticsWindow, Cohort,
    CommentKind, CommentReaction, FeedbackAnalytics, FeedbackSeriesPoint, FeedbackTotals, PartView,
    PostedComment, Vote,
};
use crate::db::repositories::RepositoryRecord;

verus! {

/// A comment is of a kind by its name: `inline` carries a finding, `reply` answers as a whole.
pub proof fn law_comment_kinds_by_name(name: &str, r: CommentKind)
    requires
        call_ensures(CommentKind::from_name, (name,), r),
    ensures
        r == CommentKind::Inline <==> name@ == "inline"@,
        name@ == "reply"@ ==> r == CommentKind::Reply,
        name@ != "inline"@ && name@ != "reply"@ ==> r == CommentKind::Other,
{
    reveal_strlit("inline");
    reveal_strlit("reply");
    assert("inline"@.len() != "reply"@.len());
}

/// A thumbs up approves, a thumbs down rejects, and anything else is no verdict.
pub proof fn law_votes_by_name(name: &str, r: Vote)
    requires
        call_ensures(Vote::from_name, (name,), r),
    ensures
        r == Vote::Up <==> name@ == "+1"@,
        r == Vote::Down <==> name@ == "-1"@,
{
    reveal_strlit("+1");
    reveal_strlit("-1");
    assert("+1"@[0] != "-1"@[0]);
}

/// Whether a comment of a kind was posted from a moment on and before another, for one repository where
/// one is asked for.
pub open spec fn is_posted_within(
    c: PostedComment,
    repository_id: Option<i64>,
    kind: CommentKind,
    from: int,
    to: int,
) -> bool {
    &&& c.kind == kind
    &&& from <= c.created_at
    &&& c.created_at < to
    &&& repository_id matches Some(id) ==> c.repository_id == id
}

/// Whether a reaction is on a comment of a kind that was posted within a time.
pub open spec fn is_reaction_within(
    r: CommentReaction,
    comments: Seq<PostedComment>,
    repository_id: Option<i64>,
    kind: CommentKind,
    from: int,
    to: int,
) -> bool {
    r.kind == kind && exists|i: int|
        0 <= i < comments.len() && is_posted_within(
            #[trigger] comments[i],
            repository_id,
            kind,
            from,
            to,
        ) && comments[i].platform_comment_id == r.platform_comment_id
}

proof fn lemma_stands_in(
    r: CommentReaction,
    comments: Seq<PostedComment>,
    repository_id: Option<i64>,
    kind: CommentKind,
    from: i128,
    to: i128,
)
    requires
        kind != CommentKind::Other,
    ensures
        stands_in(r, comments, Cohort { repository_id, kind: Some(kind), from, to })
            == is_reaction_within(r, comments, repository_id, kind, from as int, to as int),
        stands_in(r, comments, Cohort { repository_id, kind: None, from, to }) == (
        is_reaction_within(
            r,
            comments,
            repository_id,
            CommentKind::Inline,
            from as int,
            to as int,
        ) || is_reaction_within(
            r,
            comments,
            repository_id,
            CommentKind::Reply,
            from as int,
            to as int,
        )),
{
    let one = Cohort { repository_id, kind: Some(kind), from, to };
    let both = Cohort { repository_id, kind: None, from, to };
    assert forall|i: int| 0 <= i < comments.len() implies belongs(#[trigger] comments[i], one)
        == is_posted_within(comments[i], repository_id, kind, from as int, to as int) by {}
    assert forall|i: int| 0 <= i < comments.len() implies belongs(#[trigger] comments[i], both) == (
    is_posted_within(comments[i], repository_id, CommentKind::Inline, from as int, to as int)
        || is_posted_within(
        comments[i],
        repository_id,
        CommentKind::Reply,
        from as int,
        to as int,
    )) by {}
    if is_reaction_within(r, comments, repository_id, kind, from as int, to as int) {
        let i = choose|i: int|
            0 <= i < comments.len() && is_posted_within(
                #[trigger] comments[i],
                repository_id,
                kind,
                from as int,
                to as int,
            ) && comments[i].platform_comment_id == r.platform_comment_id;
        assert(belongs(comments[i], one));
    }
    if is_reaction_within(
        r,
        comments,
        repository_id,
        CommentKind::Inline,
        from as int,
        to as int,
    ) {
        let i = choose|i: int|
            0 <= i < comments.len() && is_posted_within(
                #[trigger] comments[i],
                repository_id,
                CommentKind::Inline,
                from as int,
                to as int,
            ) && comments[i].platform_comment_id == r.platform_comment_id;
        assert(belongs(comments[i], both));
    }
    if is_reaction_within(
        r,
        comments,
        repository_id,
        CommentKind::Reply,
        from as int,
        to as int,
    ) {
        let i = choose|i: int|
            0 <= i < comments.len() && is_posted_within(
                #[trigger] comments[i],
                repository_id,
                CommentKind::Reply,
                from as int,
                to as int,
            ) && comments[i].platform_comment_id == r.platform_comment_id;
        assert(belongs(comments[i], both));
    }
}

/// How much one more reaction adds to a count.
pub open spec fn one_where(b: bool) -> int {
    if b {
        1
    } else {
        0
    }
}

/// One more reaction raises the count it belongs to by one and no other: a verdict on a finding, on a
/// reply, or anything else said of a finding, where the comment was posted within the time.
pub proof fn law_reaction_counts_where_it_stands(
    t: FeedbackTotals,
    u: FeedbackTotals,
    comments: Seq<PostedComment>,
    reactions: Seq<CommentReaction>,
    r: CommentReaction,
    repository_id: Option<i64>,
    from: int,
    to: int,
)
    requires
        i128::MIN <= from <= i128::MAX,
        i128::MIN <= to <= i128::MAX,
        is_totals(t, comments, reactions, repository_id, from, to),
        is_totals(u, comments, reactions.push(r), repository_id, from, to),
    ensures
        ({
            let on_inline = is_reaction_within(
                r,
                comments,
                repository_id,
                CommentKind::Inline,
                from,
                to,
            );
            let on_reply = is_reaction_within(
                r,
                comments,
                repository_id,
                CommentKind::Reply,
                from,
                to,
            );
            &&& u.up == t.up + one_where(on_inline && r.vote == Vote::Up)
            &&& u.down == t.down + one_where(on_inline && r.vote == Vote::Down)
            &&& u.other == t.other + one_where(on_inline && r.vote == Vote::Other)
            &&& u.reply_up == t.reply_up + one_where(on_reply && r.vote == Vote::Up)
            &&& u.reply_down == t.reply_down + one_where(on_reply && r.vote == Vote::Down)
            &&& u.inline_comments == t.inline_comments
        }),
{
    reveal(Seq::filter);
    assert(reactions.push(r).drop_last() =~= reactions);
    lemma_stands_in(r, comments, repository_id, CommentKind::Inline, from as i128, to as i128);
    lemma_stands_in(r, comments, repository_id, CommentKind::Reply, from as i128, to as i128);
}

/// Without reactions nothing is counted but the comments, and there is no rate.
pub proof fn law_nothing_is_counted_without_reactions(
    t: FeedbackTotals,
    comments: Seq<PostedComment>,
    repository_id: Option<i64>,
    from: int,
    to: int,
)
    requires
        is_totals(t, comments, Seq::empty(), repository_id, from, to),
    ensures
        t.up == 0 && t.down == 0 && t.other == 0 && t.reply_up == 0 && t.reply_down == 0,
        t.approval_rate is None,
{
    reveal(Seq::filter);
}

/// The findings counted are the distinct inline comments posted within the time; those judged are the
/// ones of them that someone gave a thumbs up or down; the people counted are those who reacted in any
/// way to a finding or a reply.
pub proof fn law_comments_and_people_are_counted_once(
    t: FeedbackTotals,
    comments: Seq<PostedComment>,
    reactions: Seq<CommentReaction>,
    repository_id: Option<i64>,
    from: int,
    to: int,
)
    requires
        i128::MIN <= from <= i128::MAX,
        i128::MIN <= to <= i128::MAX,
        is_totals(t, comments, reactions, repository_id, from, to),
    ensures
        t.inline_comments == Set::new(
            |id: i64|
                exists|i: int|
                    0 <= i < comments.len() && is_posted_within(
                        #[trigger] comments[i],
                        repository_id,
                        CommentKind::Inline,
                        from,
                        to,
                    ) && comments[i].platform_comment_id == id,
        ).len(),
        t.reacted_inline == Set::new(
            |id: i64|
                exists|i: int|
                    0 <= i < comments.len() && is_posted_within(
                        #[trigger] comments[i],
                        repository_id,
                        CommentKind::Inline,
                        from,
                        to,
                    ) && comments[i].platform_comment_id == id && has_verdict(
                        reactions,
                        CommentKind::Inline,
                        id,
                    ),
        ).len(),
        t.reactors == Set::new(
            |name: Seq<char>|
                exists|j: int|
                    0 <= j < reactions.len() && (#[trigger] reactions[j]).reactor@ == name && (
                    is_reaction_within(
                        reactions[j],
                        comments,
                        repository_id,
                        CommentKind::Inline,
                        from,
                        to,
                    ) || is_reaction_within(
                        reactions[j],
                        comments,
                        repository_id,
                        CommentKind::Reply,
                        from,
                        to,
                    )),
        ).len(),
{
    let inline = Cohort {
        repository_id,
        kind: Some(CommentKind::Inline),
        from: from as i128,
        to: to as i128,
    };
    let all = Cohort { repository_id, kind: None, from: from as i128, to: to as i128 };
    assert forall|i: int| 0 <= i < comments.len() implies belongs(#[trigger] comments[i], inline)
        == is_posted_within(comments[i], repository_id, CommentKind::Inline, from, to) by {}
    let told = Set::new(
        |id: i64|
            exists|i: int|
                0 <= i < comments.len() && is_posted_within(
                    #[trigger] comments[i],
                    repository_id,
                    CommentKind::Inline,
                    from,
                    to,
                ) && comments[i].platform_comment_id == id,
    );
    assert(comment_ids(comments, inline) =~= told);
    assert forall|i: int|
        0 <= i < comments.len() && (#[trigger] comments[i]).kind
            == CommentKind::Inline implies crate::db::analytics::is_judged(reactions, comments[i])
        == has_verdict(reactions, CommentKind::Inline, comments[i].platform_comment_id) by {
        lemma_verdict(reactions, comments[i]);
    }
    let judged = Set::new(
        |id: i64|
            exists|i: int|
                0 <= i < comments.len() && is_posted_within(
                    #[trigger] comments[i],
                    repository_id,
                    CommentKind::Inline,
                    from,
                    to,
                ) && comments[i].platform_comment_id == id && has_verdict(
                    reactions,
                    CommentKind::Inline,
                    id,
                ),
    );
    assert(judged_ids(comments, reactions, inline) =~= judged);
    let people = Set::new(
        |name: Seq<char>|
            exists|j: int|
                0 <= j < reactions.len() && (#[trigger] reactions[j]).reactor@ == name && (
                is_reaction_within(
                    reactions[j],
                    comments,
                    repository_id,
                    CommentKind::Inline,
                    from,
                    to,
                ) || is_reaction_within(
                    reactions[j],
                    comments,
                    repository_id,
                    CommentKind::Reply,
                    from,
                    to,
                )),
    );
    assert forall|j: int| 0 <= j < reactions.len() implies stands_in(
        #[trigger] reactions[j],
        comments,
        all,
    ) == (is_reaction_within(
        reactions[j],
        comments,
        repository_id,
        CommentKind::Inline,
        from,
        to,
    ) || is_reaction_within(
        reactions[j],
        comments,
        repository_id,
        CommentKind::Reply,
        from,
        to,
    )) by {
        lemma_stands_in(
            reactions[j],
            comments,
            repository_id,
            CommentKind::Inline,
            from as i128,
            to as i128,
        );
    }
    assert(reactors(comments, reactions, all) =~= people);
}

/// Whether someone gave a thumbs up or down to a comment of a kind and number.
pub open spec fn has_verdict(reactions: Seq<CommentReaction>, kind: CommentKind, id: i64) -> bool {
    exists|j: int|
        0 <= j < reactions.len() && (#[trigger] reactions[j]).kind == kind
            && reactions[j].platform_comment_id == id && (reactions[j].vote == Vote::Up
            || reactions[j].vote == Vote::Down)
}

proof fn lemma_verdict(reactions: Seq<CommentReaction>, c: PostedComment)
    ensures
        crate::db::analytics::is_judged(reactions, c) == has_verdict(
            reactions,
            c.kind,
            c.platform_comment_id,
        ),
{
    if crate::db::analytics::is_judged(reactions, c) {
        let j = choose|j: int|
            0 <= j < reactions.len() && crate::db::analytics::stands_on(#[trigger] reactions[j], c)
                && reactions[j].vote != Vote::Other;
        assert(reactions[j].kind == c.kind);
    }
    if has_verdict(reactions, c.kind, c.platform_comment_id) {
        let j = choose|j: int|
            0 <= j < reactions.len() && (#[trigger] reactions[j]).kind == c.kind
                && reactions[j].platform_comment_id == c.platform_comment_id && (reactions[j].vote
                == Vote::Up || reactions[j].vote == Vote::Down);
        assert(crate::db::analytics::stands_on(reactions[j], c));
    }
}

/// The rate is the approvals of all verdicts on findings, and there is none without a verdict.
pub proof fn law_rate_is_approvals_of_verdicts(
    t: FeedbackTotals,
    comments: Seq<PostedComment>,
    reactions: Seq<CommentReaction>,
    repository_id: Option<i64>,
    from: int,
    to: int,
)
    requires
        is_totals(t, comments, reactions, repository_id, from, to),
    ensures
        t.approval_rate is Some <==> t.up + t.down > 0,
        t.approval_rate is Some ==> t.approval_rate->0.part == t.up && t.approval_rate->0.whole
            == t.up + t.down,
{
}

/// The totals shown are those of the window, and those compared with are of the time of the same length
/// just before it.
pub proof fn law_window_is_compared_with_the_one_before(
    comments: &Vec<PostedComment>,
    reactions: &Vec<CommentReaction>,
    repos: &Vec<RepositoryRecord>,
    window: &AnalyticsWindow,
    r: FeedbackAnalytics,
)
    requires
        call_ensures(feedback_analytics, (comments, reactions, repos, window), r),
    ensures
        is_totals(
            r.current,
            comments@,
            reactions@,
            window.repository_id,
            window.from as int,
            window.to as int,
        ),
        is_totals(
            r.previous,
            comments@,
            reactions@,
            window.repository_id,
            2 * window.from - window.to,
            window.from as int,
        ),
        window.repository_id is Some ==> r.by_repository is None && !r.by_repository_truncated,
        window.repository_id is None ==> r.by_repository is Some && exists|
            rows: Seq<PartView>,
            places: Seq<usize>,
        |
            #![trigger is_breakdown(parts(r.by_repository->0@), rows, places)]
            is_estate(rows, comments@, reactions@, repos@, *window) && is_breakdown(
                parts(r.by_repository->0@),
                rows,
                places,
            ) && (r.by_repository_truncated <==> rows.len() > 50),
{
    assert(window.from - (window.to - window.from) == 2 * window.from - window.to);
}

/// The series has a point for each bucket of the window, the first from where the window starts, each
/// from where the one before ends, the last up to where the window ends; a point counts the inline
/// comments posted in its bucket and the verdicts on them.
pub proof fn law_series_goes_bucket_by_bucket(
    s: Seq<FeedbackSeriesPoint>,
    comments: Seq<PostedComment>,
    reactions: Seq<CommentReaction>,
    window: AnalyticsWindow,
    k: int,
    t: FeedbackTotals,
)
    requires
        is_series(s, comments, reactions, window),
        window.bucket > 0,
        0 <= k < s.len(),
        is_totals(
            t,
            comments,
            reactions,
            window.repository_id,
            s[k].bucket_start as int,
            if k + 1 < s.len() {
                s[k + 1].bucket_start as int
            } else {
                window.to as int
            },
        ),
    ensures
        s[0].bucket_start == window.from,
        k > 0 ==> s[k].bucket_start == s[k - 1].bucket_start + window.bucket,
        s[k].bucket_start < window.to,
        k == s.len() - 1 ==> s[k].bucket_start + window.bucket >= window.to,
        s[k].inline_comments == t.inline_comments,
        s[k].up == t.up,
        s[k].down == t.down,
{
    let b = window.bucket as int;
    assert(0 * b == 0) by (nonlinear_arith);
    assert(crate::db::analytics::is_point(
        s[0],
        comments,
        reactions,
        window.repository_id,
        window.from + 0 * b,
        crate::db::analytics::bucket_end(window.from + 0 * b, b, window.to as int),
    ));
    assert((k + 1) * b == k * b + b) by (nonlinear_arith);
    if k > 0 {
        assert((k - 1) * b == k * b - b) by (nonlinear_arith);
        assert(s[k - 1].bucket_start == window.from + (k - 1) * b);
    }
    assert(s[k].bucket_start == window.from + k * b);
    if k + 1 < s.len() {
        assert(s[k + 1].bucket_start == window.from + (k + 1) * b);
        assert(window.from + (k + 1) * b < window.to);
    } else {
        assert(s.len() * b == (k + 1) * b);
    }
}

/// A window that holds no moment has no bucket, and any other has one at least.
pub proof fn law_empty_window_has_no_bucket(
    s: Seq<FeedbackSeriesPoint>,
    comments: Seq<PostedComment>,
    reactions: Seq<CommentReaction>,
    window: AnalyticsWindow,
)
    requires
        is_series(s, comments, reactions, window),
        window.bucket > 0,
    ensures
        s.len() == 0 <==> window.from >= window.to,
{
    let b = window.bucket as int;
    assert(0 * b == 0) by (nonlinear_arith);
    if s.len() > 0 {
        assert(crate::db::analytics::is_point(
            s[0],
            comments,
            reactions,
            window.repository_id,
            window.from + 0 * b,
            crate::db::analytics::bucket_end(window.from + 0 * b, b, window.to as int),
        ));
    }
}

/// A breakdown has a row for each known repository with an inline comment in the window, with the counts
/// of the window for that repository alone.
pub proof fn law_breakdown_has_each_repository_once(
    rows: Seq<PartView>,
    comments: Seq<PostedComment>,
    reactions: Seq<CommentReaction>,
    repos: Seq<RepositoryRecord>,
    window: AnalyticsWindow,
    a: int,
    t: FeedbackTotals,
    i: int,
    k: int,
)
    requires
        is_estate(rows, comments, reactions, repos, window),
        0 <= a < rows.len(),
        is_totals(
            t,
            comments,
            reactions,
            Some(rows[a].repository_id),
            window.from as int,
            window.to as int,
        ),
        0 <= i < comments.len(),
        0 <= k < repos.len(),
    ensures
        rows[a].inline_comments == t.inline_comments,
        rows[a].up == t.up,
        rows[a].down == t.down,
        rows[a].approval_rate == t.approval_rate,
        exists|j: int|
            0 <= j < repos.len() && (#[trigger] repos[j]).id == rows[a].repository_id
                && rows[a].owner == repos[j].owner@ && rows[a].name == repos[j].name@
                && rows[a].platform == repos[j].platform,
        exists|j: int|
            0 <= j < comments.len() && is_posted_within(
                #[trigger] comments[j],
                Some(rows[a].repository_id),
                CommentKind::Inline,
                window.from as int,
                window.to as int,
            ),
        is_posted_within(
            comments[i],
            None,
            CommentKind::Inline,
            window.from as int,
            window.to as int,
        ) && repos[k].id == comments[i].repository_id ==> exists|b: int|
            0 <= b < rows.len() && (#[trigger] rows[b]).repository_id == repos[k].id,
{
    assert(crate::db::analytics::is_part(rows[a], comments, reactions, repos, window));
    let j = choose|j: int| #[trigger]
        crate::db::repositories::is_repository_at(repos, rows[a].repository_id, j) && rows[a].owner
            == repos[j].owner@ && rows[a].name == repos[j].name@ && rows[a].platform
            == repos[j].platform;
    assert(repos[j].id == rows[a].repository_id);
    let cohort = Cohort {
        repository_id: None,
        kind: Some(CommentKind::Inline),
        from: window.from as i128,
        to: window.to as i128,
    };
    assert(takes_part(comments, window, rows[a].repository_id));
    let c = choose|c: int|
        0 <= c < comments.len() && belongs(#[trigger] comments[c], cohort)
            && comments[c].repository_id == rows[a].repository_id;
    assert(is_posted_within(
        comments[c],
        Some(rows[a].repository_id),
        CommentKind::Inline,
        window.from as int,
        window.to as int,
    ));
    if is_posted_within(
        comments[i],
        None,
        CommentKind::Inline,
        window.from as int,
        window.to as int,
    ) && repos[k].id == comments[i].repository_id {
        assert(belongs(comments[i], cohort));
        assert(takes_part(comments, window, repos[k].id));
        assert(crate::db::analytics::is_known(repos, repos[k].id));
    }
}

/// A breakdown lists fifty repositories at most: the most rejected first, of those the most approved,
/// and then by number; one is left out only for others that come before it.
pub proof fn law_breakdown_lists_the_most_rejected_first(
    out: Seq<PartView>,
    rows: Seq<PartView>,
    places: Seq<usize>,
    a: int,
    b: int,
)
    requires
        is_breakdown(out, rows, places),
        0 <= a < b < out.len(),
    ensures
        out.len() <= 50,
        out[a].down >= out[b].down,
        out[a].down == out[b].down ==> out[a].up >= out[b].up,
        out[a].down == out[b].down && out[a].up == out[b].up ==> out[a].repository_id
            <= out[b].repository_id,
{
    assert(everywhere(rows.len())[places[a] as int]);
    assert(everywhere(rows.len())[places[b] as int]);
    assert(out[a] == rows[places[a] as int]);
    assert(out[b] == rows[places[b] as int]);
}

/// A repository is in the breakdown, unless fifty come before it.
pub proof fn law_breakdown_leaves_out_only_the_rest(
    out: Seq<PartView>,
    rows: Seq<PartView>,
    places: Seq<usize>,
    i: int,
)
    requires
        is_breakdown(out, rows, places),
        0 <= i < rows.len(),
    ensures
        (exists|a: int| 0 <= a < out.len() && #[trigger] out[a] == rows[i]) || (out.len() == 50
            && forall|a: int| 0 <= a < out.len() ==> (#[trigger] out[a]).down >= rows[i].down),
{
    assert(everywhere(rows.len())[i]);
    let at = choose|a: int| 0 <= a < places.len() && #[trigger] places[a] == i;
    if at < out.len() {
        assert(out[at] == rows[i]);
    } else {
        assert forall|a: int| 0 <= a < out.len() implies (#[trigger] out[a]).down
            >= rows[i].down by {
            assert(everywhere(rows.len())[places[a] as int]);
            assert(places[at] == i);
        }
    }
}

} // verus!
