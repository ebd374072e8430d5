//! How posts are stored, delivered, tried again and let go, and how deliveries are let go.

use vstd::prelude::*;

use crate::db::outbox::{
    by_age, claim_outbox_batch, due, failed_once, given_up, holds_key, is_stale,
    load_pending_outbox_row, outbox_id_by_dedup_key, posted, posts, stale_count, stored, NewPost,
    OutboxRow, OutboxStatus, OutboxView,
};
use crate::db::webhook_deliveries;
use crate::db::webhook_deliveries::{
    batch_len, compacts, count_recent_mcp_runs, counts_for, is_seen, is_spent, spent, Delivery,
};
use crate::laws::kept::lemma_kept;
use crate::order::arranges;
use crate::text::opt_view;

verus! {

/// A post is stored as it was given, to be delivered at once.
pub proof fn law_post_is_stored_as_given(post: NewPost, id: i64, now: i64)
    ensures
        ({
            let p = stored(post, id, now);
            &&& p.id == id
            &&& p.platform == post.platform
            &&& p.task_id == post.task_id
            &&& p.installation_id == post.installation_id
            &&& p.owner == post.owner@
            &&& p.repo == post.repo@
            &&& p.kind == post.kind@
            &&& p.payload == post.payload
            &&& p.dedup_key == post.dedup_key@
            &&& p.status == OutboxStatus::Pending
            &&& p.attempts == 0
            &&& p.created_at == now
            &&& p.next_attempt_at == now
            &&& p.last_error is None && p.posted_at is None && p.platform_ref_id is None
            &&& due(seq![p], now)[0]
        }),
{
}

/// A post is known by its key alone: whatever else differs, a second one of the same key is a repeat.
pub proof fn law_post_is_known_by_its_key(table: Seq<OutboxView>, key: Seq<char>, p: OutboxView)
    ensures
        holds_key(table.push(p), key) <==> holds_key(table, key) || p.dedup_key == key,
        !holds_key(Seq::empty(), key),
{
    let longer = table.push(p);
    if holds_key(table, key) {
        let i = choose|i: int| 0 <= i < table.len() && (#[trigger] table[i]).dedup_key == key;
        assert(longer[i].dedup_key == key);
    }
    if p.dedup_key == key {
        assert(longer[table.len() as int].dedup_key == key);
    }
    if holds_key(longer, key) {
        let i = choose|i: int| 0 <= i < longer.len() && (#[trigger] longer[i]).dedup_key == key;
        if i < table.len() {
            assert(table[i].dedup_key == key);
        }
    }
}

/// What is handed out for delivery is pending and due, each post once, the oldest first and of one age
/// the lower id first, no more than asked for; a due post is left out only for older ones.
pub proof fn law_oldest_due_posts_are_delivered(
    rows: &Vec<OutboxRow>,
    limit: usize,
    now: i64,
    r: Vec<usize>,
    i: int,
)
    requires
        call_ensures(claim_outbox_batch, (rows, limit, now), r),
        0 <= i < rows@.len(),
    ensures
        r@.len() <= limit,
        r@.no_duplicates(),
        forall|a: int|
            0 <= a < r@.len() ==> (#[trigger] r@[a]) < rows@.len() && rows@[r@[a] as int]@.status
                == OutboxStatus::Pending && rows@[r@[a] as int]@.next_attempt_at <= now,
        forall|a: int, b: int|
            0 <= a < b < r@.len() ==> no_younger(
                rows@[(#[trigger] r@[a]) as int]@,
                rows@[(#[trigger] r@[b]) as int]@,
            ),
        rows@[i]@.status == OutboxStatus::Pending && rows@[i]@.next_attempt_at <= now ==> (
        exists|a: int| 0 <= a < r@.len() && #[trigger] r@[a] == i) || (r@.len() == limit && forall|
            a: int,
        |
            0 <= a < r@.len() ==> no_younger(rows@[(#[trigger] r@[a]) as int]@, rows@[i]@)),
{
    let table = posts(rows@);
    let all = choose|all: Seq<usize>| #[trigger]
        arranges(all, due(table, now), by_age(table)) && r@ == all.take(
            if all.len() <= limit {
                all.len() as int
            } else {
                limit as int
            },
        );
    assert forall|a: int| 0 <= a < r@.len() implies (#[trigger] r@[a]) < rows@.len()
        && rows@[r@[a] as int]@.status == OutboxStatus::Pending
        && rows@[r@[a] as int]@.next_attempt_at <= now by {
        assert(all[a] == r@[a]);
        assert(due(table, now)[all[a] as int]);
        assert(table[all[a] as int] == rows@[all[a] as int]@);
    }
    assert forall|a: int, b: int| 0 <= a < b < r@.len() implies no_younger(
        rows@[(#[trigger] r@[a]) as int]@,
        rows@[(#[trigger] r@[b]) as int]@,
    ) by {
        assert(all[a] == r@[a] && all[b] == r@[b]);
        assert(table[all[a] as int] == rows@[all[a] as int]@);
        assert(table[all[b] as int] == rows@[all[b] as int]@);
    }
    if rows@[i]@.status == OutboxStatus::Pending && rows@[i]@.next_attempt_at <= now {
        assert(table[i] == rows@[i]@);
        assert(due(table, now)[i]);
        let at = choose|a: int| 0 <= a < all.len() && #[trigger] all[a] == i;
        if at < r@.len() {
            assert(r@[at] == i);
        } else {
            assert forall|a: int| 0 <= a < r@.len() implies no_younger(
                rows@[(#[trigger] r@[a]) as int]@,
                rows@[i]@,
            ) by {
                assert(all[a] == r@[a] && all[at] == i);
                assert(table[all[a] as int] == rows@[all[a] as int]@);
            }
        }
    }
}

/// Whether a post was stored no later than another, of one moment with no greater id.
pub open spec fn no_younger(a: OutboxView, b: OutboxView) -> bool {
    a.created_at < b.created_at || (a.created_at == b.created_at && a.id <= b.id)
}

/// Whether two posts are the same but for what a delivery changes.
pub open spec fn is_same_post(a: OutboxView, b: OutboxView) -> bool {
    &&& a.id == b.id
    &&& a.platform == b.platform
    &&& a.task_id == b.task_id
    &&& a.installation_id == b.installation_id
    &&& a.owner == b.owner
    &&& a.repo == b.repo
    &&& a.kind == b.kind
    &&& a.payload == b.payload
    &&& a.dedup_key == b.dedup_key
    &&& a.created_at == b.created_at
}

/// After its first, second, third, fourth and fifth failure a post waits one, four, nine, sixteen and
/// twenty-five minutes; the sixth failure is the last.
pub proof fn law_failed_delivery_waits_longer_each_time(p: OutboxView, error: Seq<char>, now: i64)
    requires
        0 <= p.attempts < 6,
    ensures
        ({
            let f = failed_once(p, error, now);
            &&& is_same_post(f, p)
            &&& f.posted_at == p.posted_at && f.platform_ref_id == p.platform_ref_id
            &&& f.attempts == p.attempts + 1
            &&& f.last_error == Some(error)
            &&& f.status == (if p.attempts == 5 {
                OutboxStatus::Failed
            } else {
                OutboxStatus::Pending
            })
            &&& p.attempts == 0 ==> f.next_attempt_at == now + 60_000_000
            &&& p.attempts == 1 ==> f.next_attempt_at == now + 240_000_000
            &&& p.attempts == 2 ==> f.next_attempt_at == now + 540_000_000
            &&& p.attempts == 3 ==> f.next_attempt_at == now + 960_000_000
            &&& p.attempts == 4 ==> f.next_attempt_at == now + 1_500_000_000
        }),
{
    let tries = p.attempts + 1;
    assert(tries == 1 ==> tries * tries == 1) by (nonlinear_arith);
    assert(tries == 2 ==> tries * tries == 4) by (nonlinear_arith);
    assert(tries == 3 ==> tries * tries == 9) by (nonlinear_arith);
    assert(tries == 4 ==> tries * tries == 16) by (nonlinear_arith);
    assert(tries == 5 ==> tries * tries == 25) by (nonlinear_arith);
}

/// Every failed delivery counts, and from the sixth on none is tried again.
pub proof fn law_sixth_failure_is_the_last(p: OutboxView, error: Seq<char>, now: i64, later: i64)
    requires
        p.attempts < i32::MAX,
    ensures
        ({
            let f = failed_once(p, error, now);
            &&& f.attempts == p.attempts + 1
            &&& f.status == OutboxStatus::Failed <==> p.attempts + 1 >= 6
            &&& p.attempts + 1 >= 6 ==> !due(seq![f], later)[0]
        }),
{
}

/// A delivered post keeps what it is and says when it was delivered and what it became.
pub proof fn law_delivery_is_recorded(p: OutboxView, ref_id: Option<i64>, now: i64)
    ensures
        ({
            let d = posted(p, ref_id, now);
            &&& is_same_post(d, p)
            &&& d.status == OutboxStatus::Posted
            &&& d.posted_at == Some(now)
            &&& d.platform_ref_id == ref_id
            &&& d.attempts == p.attempts && d.last_error == p.last_error && d.next_attempt_at
                == p.next_attempt_at
        }),
{
}

/// A pending post can be given up at once, which counts as a try and keeps the reason; a settled post
/// cannot.
pub proof fn law_only_a_pending_post_is_given_up(p: OutboxView, error: Seq<char>)
    requires
        p.attempts < i32::MAX,
    ensures
        ({
            let g = given_up(p, error);
            &&& is_same_post(g, p)
            &&& p.status == OutboxStatus::Pending ==> g.status == OutboxStatus::Failed
                && g.last_error == Some(error) && g.attempts == p.attempts + 1
            &&& p.status == OutboxStatus::Posted ==> g == p
            &&& p.status == OutboxStatus::Failed ==> g == p
        }),
{
}

/// A post is found by its id while it is pending, and no longer.
pub proof fn law_pending_post_is_found_by_its_id(
    rows: &Vec<OutboxRow>,
    id: i64,
    r: Option<usize>,
    i: int,
)
    requires
        call_ensures(load_pending_outbox_row, (rows, id), r),
        0 <= i < rows@.len(),
    ensures
        rows@[i].id == id && rows@[i].status == OutboxStatus::Pending ==> r is Some,
        r is Some ==> r->0 < rows@.len() && rows@[r->0 as int].id == id && rows@[r->0 as int].status
            == OutboxStatus::Pending,
{
}

/// The id found under a key is that of a post stored under it, and one is found where there is one.
pub proof fn law_post_id_is_found_by_its_key(
    rows: &Vec<OutboxRow>,
    key: &str,
    r: Option<i64>,
    i: int,
)
    requires
        call_ensures(outbox_id_by_dedup_key, (rows, key), r),
        0 <= i < rows@.len(),
    ensures
        rows@[i]@.dedup_key == key@ ==> r is Some,
        r is Some ==> exists|j: int|
            0 <= j < rows@.len() && (#[trigger] rows@[j])@.dedup_key == key@ && rows@[j]@.id == r->0,
{
    if rows@[i]@.dedup_key == key@ {
        assert(posts(rows@)[i].dedup_key == key@);
    }
    if r is Some {
        let j = choose|j: int|
            0 <= j < rows@.len() && (#[trigger] posts(rows@)[j]).dedup_key == key@ && posts(
                rows@,
            )[j].id == r->0;
        assert(rows@[j]@.dedup_key == key@);
    }
}

/// What pruning leaves: every pending post; the delivered ones whose delivery is no older than their
/// days; the failed ones that were stored no longer ago than theirs; and all of a kind whose days are
/// not positive.
pub proof fn law_pruning_takes_what_is_settled_and_old(
    table: Seq<OutboxView>,
    posted_days: i64,
    failed_days: i64,
    now: i64,
    p: OutboxView,
)
    ensures
        table.filter(|p: OutboxView| !is_stale(p, posted_days, failed_days, now)).contains(p)
            <==> table.contains(p) && match p.status {
            OutboxStatus::Pending => true,
            OutboxStatus::Posted => posted_days <= 0 || p.posted_at is None || p.posted_at->0 >= now
                - posted_days * 86_400_000_000,
            OutboxStatus::Failed => failed_days <= 0 || p.created_at >= now - failed_days
                * 86_400_000_000,
        },
{
    lemma_kept(table, |p: OutboxView| !is_stale(p, posted_days, failed_days, now), p);
}

/// Each pruned post is counted once, under the status it had.
pub proof fn law_pruned_posts_are_counted(
    table: Seq<OutboxView>,
    p: OutboxView,
    posted_days: i64,
    failed_days: i64,
    now: i64,
)
    ensures
        stale_count(table.push(p), OutboxStatus::Posted, posted_days, failed_days, now)
            == stale_count(table, OutboxStatus::Posted, posted_days, failed_days, now) + (
        if p.status == OutboxStatus::Posted && posted_days > 0 && p.posted_at is Some
            && p.posted_at->0 < now - posted_days * 86_400_000_000 {
            1nat
        } else {
            0nat
        }),
        stale_count(table.push(p), OutboxStatus::Failed, posted_days, failed_days, now)
            == stale_count(table, OutboxStatus::Failed, posted_days, failed_days, now) + (
        if p.status == OutboxStatus::Failed && failed_days > 0 && p.created_at < now - failed_days
            * 86_400_000_000 {
            1nat
        } else {
            0nat
        }),
        stale_count(Seq::empty(), OutboxStatus::Posted, posted_days, failed_days, now) == 0,
        stale_count(Seq::empty(), OutboxStatus::Failed, posted_days, failed_days, now) == 0,
{
    reveal(Seq::filter);
    assert(table.push(p).drop_last() =~= table);
}

/// A delivery is known by its id alone.
pub proof fn law_delivery_is_known_by_its_id(table: Seq<Delivery>, d: Delivery, id: Seq<char>)
    ensures
        is_seen(table.push(d), id) <==> is_seen(table, id) || d.delivery_id@ == id,
        !is_seen(Seq::empty(), id),
{
    let longer = table.push(d);
    if is_seen(table, id) {
        let i = choose|i: int| 0 <= i < table.len() && (#[trigger] table[i]).delivery_id@ == id;
        assert(longer[i].delivery_id@ == id);
    }
    if d.delivery_id@ == id {
        assert(longer[table.len() as int].delivery_id@ == id);
    }
    if is_seen(longer, id) {
        let i = choose|i: int| 0 <= i < longer.len() && (#[trigger] longer[i]).delivery_id@ == id;
        if i < table.len() {
            assert(table[i].delivery_id@ == id);
        }
    }
}

/// A payload is let go once the delivery is older than its days, unless there is none to let go or a run
/// that an agent asked for is recorded by it.
pub proof fn law_old_payload_is_let_go(d: Delivery, days: i64, now: i64)
    ensures
        is_spent(d, days, now) <==> d.received_at < now - days * 86_400_000_000
            && d.event_name@ != "mcp.review"@ && !(d.payload is Object && d.payload->Object_0@.len()
            == 0),
{
}

/// Compacting keeps every delivery with all but its payload; of the spent ones it takes the oldest, up to
/// a batch, and it touches no other.
pub proof fn law_compaction_takes_the_oldest_payloads(
    before: Seq<Delivery>,
    after: Seq<Delivery>,
    all: Seq<usize>,
    days: i64,
    batch: i64,
    now: i64,
    i: int,
    j: int,
)
    requires
        batch > 0,
        before.len() <= usize::MAX,
        arranges(all, spent(before, days, now), webhook_deliveries::by_age(before)),
        compacts(before, after, all.take(batch_len(all.len(), batch))),
        0 <= i < before.len(),
        0 <= j < before.len(),
    ensures
        after.len() == before.len(),
        batch_len(all.len(), batch) <= batch,
        batch_len(all.len(), batch) <= all.len(),
        batch_len(all.len(), batch) < all.len() ==> batch_len(all.len(), batch) == batch,
        after[i].delivery_id == before[i].delivery_id,
        after[i].platform == before[i].platform,
        after[i].event_name == before[i].event_name,
        after[i].caller == before[i].caller,
        after[i].received_at == before[i].received_at,
        !is_spent(before[i], days, now) ==> after[i] == before[i],
        is_spent(before[i], days, now) ==> after[i] == before[i] || (after[i].payload is Object
            && after[i].payload->Object_0@.len() == 0),
        is_spent(before[i], days, now) && all.len() <= batch ==> after[i].payload is Object
            && after[i].payload->Object_0@.len() == 0,
        is_spent(before[i], days, now) && is_spent(before[j], days, now) && before[i].received_at
            < before[j].received_at && after[j] != before[j] ==> after[i].payload is Object
            && after[i].payload->Object_0@.len() == 0,
{
    let taken = all.take(batch_len(all.len(), batch));
    let chosen = spent(before, days, now);
    if taken.contains(i as usize) {
        let a = choose|a: int| 0 <= a < taken.len() && taken[a] == i as usize;
        assert(all[a] == i as usize);
        assert(chosen[all[a] as int]);
    }
    if is_spent(before[i], days, now) {
        assert(chosen[i]);
        let at = choose|a: int| 0 <= a < all.len() && #[trigger] all[a] == i;
        if at < taken.len() {
            assert(taken[at] == i as usize);
            assert(taken.contains(i as usize));
        } else if is_spent(before[j], days, now) && before[i].received_at < before[j].received_at
            && after[j] != before[j] {
            assert(taken.contains(j as usize));
            let b = choose|b: int| 0 <= b < taken.len() && taken[b] == j as usize;
            assert(all[b] == j as usize);
            assert(all[at] == i);
            assert(b < at);
        }
    }
}

/// A run counts against a caller's quota where that caller asked for it through the agent interface
/// within the window.
pub proof fn law_quota_counts_a_callers_recent_runs(
    table: Seq<Delivery>,
    d: Delivery,
    caller: Seq<char>,
    window_secs: i64,
    now: i64,
)
    ensures
        table.push(d).filter(|d: Delivery| counts_for(d, caller, window_secs, now)).len()
            == table.filter(|d: Delivery| counts_for(d, caller, window_secs, now)).len() + (
        if d.event_name@ == "mcp.review"@ && opt_view(d.caller) == Some(caller) && d.received_at
            > now - window_secs * 1_000_000 {
            1nat
        } else {
            0nat
        }),
{
    reveal(Seq::filter);
    assert(table.push(d).drop_last() =~= table);
}

/// Where every delivery counts the count is their number, and where none does it is zero.
pub proof fn law_quota_count_is_between_none_and_all(
    table: &Vec<Delivery>,
    caller: &str,
    window_secs: i64,
    now: i64,
    r: usize,
)
    requires
        call_ensures(count_recent_mcp_runs, (table, caller, window_secs, now), r),
    ensures
        r <= table@.len(),
        (forall|i: int|
            0 <= i < table@.len() ==> !((#[trigger] table@[i]).event_name@ == "mcp.review"@
                && opt_view(table@[i].caller) == Some(caller@))) ==> r == 0,
{
    let counted = |d: Delivery| counts_for(d, caller@, window_secs, now);
    table@.lemma_filter_len(counted);
    if r > 0 {
        let kept = table@.filter(counted);
        lemma_kept(table@, counted, kept[0]);
        assert(kept.contains(kept[0]));
        let i = choose|i: int| 0 <= i < table@.len() && table@[i] == kept[0];
        assert(counts_for(table@[i], caller@, window_secs, now));
    }
}

} // verus!
