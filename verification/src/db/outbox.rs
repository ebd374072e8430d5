//! The outbox: every post to a platform is stored here first and delivered from here.
//!
//! A stored post is pending until it is settled, as posted or as failed. The same post stored twice is
//! one post; a failed delivery is tried again after a while that grows, and given up after a few tries.

use vstd::prelude::*;

use crate::db::clock::{DAY, MINUTE};
use crate::json::Json;
use crate::order;
use crate::order::{arranges, Key};
use crate::platform::Platform;
use crate::text;
use crate::text::opt_view;

verus! {

/// The channel that wakes whoever delivers.
pub const OUTBOX_CHANNEL: &'static str = "outbox";

/// The deliveries that are tried before a post is given up.
pub const OUTBOX_MAX_ATTEMPTS: i32 = 6;

/// What became of a stored post.
#[derive(Clone, Copy, Debug, PartialEq, Eq, Structural)]
pub enum OutboxStatus {
    Pending,
    Posted,
    /// Given up.
    Failed,
}

/// A stored post.
#[derive(Debug)]
pub struct OutboxRow {
    pub id: i64,
    pub platform: Platform,
    pub task_id: Option<u128>,
    pub installation_id: i64,
    pub owner: String,
    pub repo: String,
    pub kind: String,
    pub payload: Json,
    pub dedup_key: String,
    pub status: OutboxStatus,
    pub attempts: i32,
    pub last_error: Option<String>,
    pub created_at: i64,
    pub posted_at: Option<i64>,
    pub next_attempt_at: i128,
    /// What was posted, on its platform.
    pub platform_ref_id: Option<i64>,
}

/// The mathematical value of an [`OutboxRow`].
#[verifier::ext_equal]
pub struct OutboxView {
    pub id: i64,
    pub platform: Platform,
    pub task_id: Option<u128>,
    pub installation_id: i64,
    pub owner: Seq<char>,
    pub repo: Seq<char>,
    pub kind: Seq<char>,
    pub payload: Json,
    pub dedup_key: Seq<char>,
    pub status: OutboxStatus,
    pub attempts: i32,
    pub last_error: Option<Seq<char>>,
    pub created_at: i64,
    pub posted_at: Option<i64>,
    pub next_attempt_at: i128,
    pub platform_ref_id: Option<i64>,
}

impl View for OutboxRow {
    type V = OutboxView;

    open spec fn view(&self) -> OutboxView {
        OutboxView {
            id: self.id,
            platform: self.platform,
            task_id: self.task_id,
            installation_id: self.installation_id,
            owner: self.owner@,
            repo: self.repo@,
            kind: self.kind@,
            payload: self.payload,
            dedup_key: self.dedup_key@,
            status: self.status,
            attempts: self.attempts,
            last_error: opt_view(self.last_error),
            created_at: self.created_at,
            posted_at: self.posted_at,
            next_attempt_at: self.next_attempt_at,
            platform_ref_id: self.platform_ref_id,
        }
    }
}

/// The values of a table of posts.
pub open spec fn posts(rows: Seq<OutboxRow>) -> Seq<OutboxView> {
    Seq::new(rows.len(), |i: int| rows[i]@)
}

/// Whether a table holds a post under a key.
pub open spec fn holds_key(table: Seq<OutboxView>, dedup_key: Seq<char>) -> bool {
    exists|i: int| 0 <= i < table.len() && (#[trigger] table[i]).dedup_key == dedup_key
}

/// No two posts of a table are stored under one key.
pub open spec fn keys_differ(table: Seq<OutboxView>) -> bool {
    forall|i: int, j: int|
        0 <= i < j < table.len() ==> (#[trigger] table[i]).dedup_key != (
        #[trigger] table[j]).dedup_key
}

/// A post to be stored.
#[derive(Debug)]
pub struct NewPost {
    pub platform: Platform,
    pub task_id: Option<u128>,
    pub installation_id: i64,
    pub owner: String,
    pub repo: String,
    pub kind: String,
    pub payload: Json,
    pub dedup_key: String,
}

/// A post as it is first stored: pending, due at once.
pub open spec fn stored(post: NewPost, id: i64, now: i64) -> OutboxView {
    OutboxView {
        id,
        platform: post.platform,
        task_id: post.task_id,
        installation_id: post.installation_id,
        owner: post.owner@,
        repo: post.repo@,
        kind: post.kind@,
        payload: post.payload,
        dedup_key: post.dedup_key@,
        status: OutboxStatus::Pending,
        attempts: 0,
        last_error: None,
        created_at: now,
        posted_at: None,
        next_attempt_at: now as i128,
        platform_ref_id: None,
    }
}

/// Stores a post under `fresh_id`, unless one is stored under its key already; returns whether it was.
pub fn enqueue_outbox_post(rows: &mut Vec<OutboxRow>, post: NewPost, fresh_id: i64, now: i64) -> (r:
    bool)
    ensures
        r == !holds_key(posts(old(rows)@), post.dedup_key@),
        posts(final(rows)@) == (if r {
            posts(old(rows)@).push(stored(post, fresh_id, now))
        } else {
            posts(old(rows)@)
        }),
{
    let ghost before = posts(rows@);
    if outbox_id_by_dedup_key(rows, post.dedup_key.as_str()).is_some() {
        return false;
    }
    let row = OutboxRow {
        id: fresh_id,
        platform: post.platform,
        task_id: post.task_id,
        installation_id: post.installation_id,
        owner: post.owner,
        repo: post.repo,
        kind: post.kind,
        payload: post.payload,
        dedup_key: post.dedup_key,
        status: OutboxStatus::Pending,
        attempts: 0,
        last_error: None,
        created_at: now,
        posted_at: None,
        next_attempt_at: now as i128,
        platform_ref_id: None,
    };
    let ghost row_view = row@;
    rows.push(row);
    assert(posts(rows@) =~= before.push(row_view));
    true
}

/// Storing keeps keys apart, and a post stored twice is stored once.
pub proof fn law_enqueue_is_idempotent(table: Seq<OutboxView>, post: NewPost, id: i64, now: i64)
    requires
        keys_differ(table),
        !holds_key(table, post.dedup_key@),
    ensures
        keys_differ(table.push(stored(post, id, now))),
        holds_key(table.push(stored(post, id, now)), post.dedup_key@),
{
    let after = table.push(stored(post, id, now));
    assert(after[table.len() as int].dedup_key == post.dedup_key@);
    assert forall|i: int, j: int| 0 <= i < j < after.len() implies (#[trigger] after[i]).dedup_key
        != (#[trigger] after[j]).dedup_key by {
        assert(after[i] == table[i]);
        if j < table.len() {
            assert(after[j] == table[j]);
        }
    }
}

/// Which posts are due.
pub open spec fn due(table: Seq<OutboxView>, now: i64) -> Seq<bool> {
    Seq::new(
        table.len(),
        |i: int| table[i].status == OutboxStatus::Pending && table[i].next_attempt_at <= now,
    )
}

/// Posts by age, then by id.
pub open spec fn by_age(table: Seq<OutboxView>) -> Seq<Key> {
    Seq::new(
        table.len(),
        |i: int| Key { major: table[i].created_at as i128, minor: table[i].id as i128, id: 0 },
    )
}

/// The places of the posts to deliver next: those that are due, oldest first, up to a limit.
pub fn claim_outbox_batch(rows: &Vec<OutboxRow>, limit: usize, now: i64) -> (r: Vec<usize>)
    ensures
        exists|all: Seq<usize>| #[trigger]
            arranges(all, due(posts(rows@), now), by_age(posts(rows@))) && r@ == all.take(
                if all.len() <= limit {
                    all.len() as int
                } else {
                    limit as int
                },
            ),
{
    let ghost table = posts(rows@);
    let mut selected: Vec<bool> = Vec::new();
    let mut keys: Vec<Key> = Vec::new();
    let mut i: usize = 0;
    while i < rows.len()
        invariant
            i <= rows@.len(),
            table == posts(rows@),
            selected@ =~= due(table, now).take(i as int),
            keys@ =~= by_age(table).take(i as int),
        decreases rows@.len() - i,
    {
        let row = &rows[i];
        selected.push(row.status == OutboxStatus::Pending && row.next_attempt_at <= now as i128);
        keys.push(Key { major: row.created_at as i128, minor: row.id as i128, id: 0 });
        i = i + 1;
    }
    assert(selected@ =~= due(table, now));
    assert(keys@ =~= by_age(table));
    let mut out: Vec<usize> = order::arrange(&selected, &keys);
    let ghost all = out@;
    if limit < out.len() {
        out.truncate(limit);
    }
    assert(arranges(all, selected@, keys@));
    assert(out@ =~= all.take(
        if all.len() <= limit {
            all.len() as int
        } else {
            limit as int
        },
    ));
    out
}

/// A delivered post.
pub open spec fn posted(p: OutboxView, platform_ref_id: Option<i64>, now: i64) -> OutboxView {
    OutboxView {
        status: OutboxStatus::Posted,
        posted_at: Some(now),
        platform_ref_id,
        ..p
    }
}

/// Records a delivery, with what was posted.
pub fn mark_outbox_posted(row: &mut OutboxRow, platform_ref_id: Option<i64>, now: i64)
    ensures
        final(row)@ == posted(old(row)@, platform_ref_id, now),
{
    row.status = OutboxStatus::Posted;
    row.posted_at = Some(now);
    row.platform_ref_id = platform_ref_id;
}

/// A post after a failed delivery: due again after as many minutes as the square of its tries, or given
/// up.
pub open spec fn failed_once(p: OutboxView, error: Seq<char>, now: i64) -> OutboxView {
    let tries = p.attempts + 1;
    OutboxView {
        attempts: tries as i32,
        last_error: Some(error),
        status: if tries >= OUTBOX_MAX_ATTEMPTS {
            OutboxStatus::Failed
        } else {
            OutboxStatus::Pending
        },
        next_attempt_at: (now + tries * tries * MINUTE) as i128,
        ..p
    }
}

/// Records a failed delivery.
pub fn mark_outbox_failed(row: &mut OutboxRow, error: &str, now: i64)
    requires
        old(row)@.attempts < i32::MAX,
    ensures
        final(row)@ == failed_once(old(row)@, error@, now),
{
    let tries: i32 = row.attempts + 1;
    let wide: i128 = tries as i128;
    assert(0 <= wide * wide <= 0x7fff_ffff * 0x7fff_ffff) by (nonlinear_arith)
        requires
            -0x7fff_ffff <= wide <= 0x7fff_ffff,
    ;
    row.next_attempt_at = now as i128 + wide * wide * MINUTE;
    row.attempts = tries;
    row.last_error = Some(error.to_owned());
    row.status = if tries >= OUTBOX_MAX_ATTEMPTS {
        OutboxStatus::Failed
    } else {
        OutboxStatus::Pending
    };
}

/// The place of a post that is still pending.
pub fn load_pending_outbox_row(rows: &Vec<OutboxRow>, id: i64) -> (r: Option<usize>)
    ensures
        match r {
            Some(i) => i < rows@.len() && rows@[i as int].id == id && rows@[i as int].status
                == OutboxStatus::Pending,
            None => forall|j: int|
                0 <= j < rows@.len() ==> !((#[trigger] rows@[j]).id == id && rows@[j].status
                    == OutboxStatus::Pending),
        },
{
    let mut i: usize = 0;
    while i < rows.len()
        invariant
            i <= rows@.len(),
            forall|j: int|
                0 <= j < i ==> !((#[trigger] rows@[j]).id == id && rows@[j].status
                    == OutboxStatus::Pending),
        decreases rows@.len() - i,
    {
        if rows[i].id == id && rows[i].status == OutboxStatus::Pending {
            return Some(i);
        }
        i = i + 1;
    }
    None
}

/// The id of the post stored under a key.
pub fn outbox_id_by_dedup_key(rows: &Vec<OutboxRow>, dedup_key: &str) -> (r: Option<i64>)
    ensures
        match r {
            Some(id) => exists|i: int|
                0 <= i < rows@.len() && (#[trigger] posts(rows@)[i]).dedup_key == dedup_key@
                    && posts(rows@)[i].id == id,
            None => !holds_key(posts(rows@), dedup_key@),
        },
{
    let ghost table = posts(rows@);
    let mut i: usize = 0;
    while i < rows.len()
        invariant
            i <= rows@.len(),
            table == posts(rows@),
            forall|j: int| 0 <= j < i ==> (#[trigger] table[j]).dedup_key != dedup_key@,
        decreases rows@.len() - i,
    {
        assert(table[i as int] == rows@[i as int]@);
        if text::same(rows[i].dedup_key.as_str(), dedup_key) {
            assert(posts(rows@)[i as int].dedup_key == dedup_key@);
            return Some(rows[i].id);
        }
        i = i + 1;
    }
    None
}

/// A post that is given up at once, where it is still pending; a settled one stays as it is.
pub open spec fn given_up(p: OutboxView, error: Seq<char>) -> OutboxView {
    if p.status == OutboxStatus::Pending {
        OutboxView {
            attempts: (p.attempts + 1) as i32,
            last_error: Some(error),
            status: OutboxStatus::Failed,
            ..p
        }
    } else {
        p
    }
}

/// Gives a post up that is still pending.
pub fn mark_outbox_dead_letter(row: &mut OutboxRow, error: &str)
    requires
        old(row)@.attempts < i32::MAX,
    ensures
        final(row)@ == given_up(old(row)@, error@),
{
    if row.status == OutboxStatus::Pending {
        row.attempts = row.attempts + 1;
        row.last_error = Some(error.to_owned());
        row.status = OutboxStatus::Failed;
    }
}

/// A post that was delivered is never delivered again, and giving it up afterwards changes nothing.
pub proof fn law_posted_stays_posted(
    p: OutboxView,
    platform_ref_id: Option<i64>,
    error: Seq<char>,
    now: i64,
    later: i64,
)
    ensures
        given_up(posted(p, platform_ref_id, now), error) == posted(p, platform_ref_id, now),
        !due(seq![posted(p, platform_ref_id, now)], later)[0],
{
}

/// A post is given up with the last of its tries, and not before; until then it waits out its backoff.
pub proof fn law_retries_are_bounded(p: OutboxView, error: Seq<char>, now: i64, later: i64)
    requires
        0 <= p.attempts < OUTBOX_MAX_ATTEMPTS,
    ensures
        failed_once(p, error, now).attempts == p.attempts + 1,
        failed_once(p, error, now).status == OutboxStatus::Failed <==> p.attempts + 1
            == OUTBOX_MAX_ATTEMPTS,
        later < now + (p.attempts + 1) * (p.attempts + 1) * MINUTE ==> !due(
            seq![failed_once(p, error, now)],
            later,
        )[0],
{
    let tries = p.attempts + 1;
    assert(0 <= tries * tries <= 36) by (nonlinear_arith)
        requires
            0 <= tries <= 6,
    ;
}

/// Whether a post is past its days: a posted one by when it was delivered, a failed one by when it was
/// stored, a pending one never. Days that are not positive keep everything.
pub open spec fn is_stale(p: OutboxView, posted_days: i64, failed_days: i64, now: i64) -> bool {
    match p.status {
        OutboxStatus::Posted => posted_days > 0 && p.posted_at is Some && p.posted_at->0 < now
            - posted_days * DAY,
        OutboxStatus::Failed => failed_days > 0 && p.created_at < now - failed_days * DAY,
        OutboxStatus::Pending => false,
    }
}

/// How many posts of a status are past their days.
pub open spec fn stale_count(
    table: Seq<OutboxView>,
    status: OutboxStatus,
    posted_days: i64,
    failed_days: i64,
    now: i64,
) -> nat {
    table.filter(
        |p: OutboxView| p.status == status && is_stale(p, posted_days, failed_days, now),
    ).len()
}

fn stale(row: &OutboxRow, posted_days: i64, failed_days: i64, now: i64) -> (r: bool)
    ensures
        r == is_stale(row@, posted_days, failed_days, now),
{
    match row.status {
        OutboxStatus::Posted => match row.posted_at {
            Some(at) => posted_days > 0 && (at as i128) < now as i128 - posted_days as i128 * DAY,
            None => false,
        },
        OutboxStatus::Failed => failed_days > 0 && (row.created_at as i128) < now as i128
            - failed_days as i128 * DAY,
        OutboxStatus::Pending => false,
    }
}

/// Deletes the settled posts that are past their days; how many posted and how many failed ones.
pub fn prune_outbox(rows: &mut Vec<OutboxRow>, posted_days: i64, failed_days: i64, now: i64) -> (r: (
    usize,
    usize,
))
    ensures
        posts(final(rows)@) == posts(old(rows)@).filter(
            |p: OutboxView| !is_stale(p, posted_days, failed_days, now),
        ),
        r.0 == stale_count(
            posts(old(rows)@),
            OutboxStatus::Posted,
            posted_days,
            failed_days,
            now,
        ),
        r.1 == stale_count(
            posts(old(rows)@),
            OutboxStatus::Failed,
            posted_days,
            failed_days,
            now,
        ),
{
    let ghost before = posts(rows@);
    let ghost all = rows@;
    let ghost kept = |p: OutboxView| !is_stale(p, posted_days, failed_days, now);
    let ghost gone_posted = |p: OutboxView|
        p.status == OutboxStatus::Posted && is_stale(p, posted_days, failed_days, now);
    let ghost gone_failed = |p: OutboxView|
        p.status == OutboxStatus::Failed && is_stale(p, posted_days, failed_days, now);
    let mut rest: Vec<OutboxRow> = Vec::new();
    std::mem::swap(&mut rest, rows);
    let mut out: Vec<OutboxRow> = Vec::new();
    let mut posted_gone: usize = 0;
    let mut failed_gone: usize = 0;
    let ghost mut i: int = 0;
    let total: usize = rest.len();
    proof {
        reveal(Seq::filter);
        assert(before.take(0) =~= Seq::empty());
        assert(posts(out@) =~= Seq::empty());
        assert(rest@ =~= all.skip(0));
    }
    while rest.len() > 0
        invariant
            0 <= i <= all.len(),
            total == all.len(),
            before == posts(all),
            rest@ == all.skip(i),
            kept == (|p: OutboxView| !is_stale(p, posted_days, failed_days, now)),
            gone_posted == (|p: OutboxView|
                p.status == OutboxStatus::Posted && is_stale(p, posted_days, failed_days, now)),
            gone_failed == (|p: OutboxView|
                p.status == OutboxStatus::Failed && is_stale(p, posted_days, failed_days, now)),
            posts(out@) == before.take(i).filter(kept),
            posted_gone == before.take(i).filter(gone_posted).len(),
            failed_gone == before.take(i).filter(gone_failed).len(),
            posted_gone <= i,
            failed_gone <= i,
        decreases rest@.len(),
    {
        let row: OutboxRow = rest.remove(0);
        proof {
            reveal(Seq::filter);
            assert(row == all[i]);
            assert(rest@ =~= all.skip(i + 1));
            assert(before.take(i + 1).drop_last() =~= before.take(i));
            assert(before.take(i + 1).last() == row@);
        }
        let ghost out_before = out@;
        if stale(&row, posted_days, failed_days, now) {
            match row.status {
                OutboxStatus::Posted => {
                    posted_gone = posted_gone + 1;
                },
                OutboxStatus::Failed => {
                    failed_gone = failed_gone + 1;
                },
                OutboxStatus::Pending => {},
            }
        } else {
            out.push(row);
            assert(posts(out@) =~= posts(out_before).push(row@));
        }
        proof {
            i = i + 1;
        }
    }
    assert(before.take(i) =~= before);
    std::mem::swap(&mut out, rows);
    (posted_gone, failed_gone)
}

/// Pruning never loses a post that is still to be delivered.
pub proof fn law_prune_keeps_pending(
    p: OutboxView,
    posted_days: i64,
    failed_days: i64,
    now: i64,
)
    ensures
        p.status == OutboxStatus::Pending ==> !is_stale(p, posted_days, failed_days, now),
        posted_days <= 0 && failed_days <= 0 ==> !is_stale(p, posted_days, failed_days, now),
{
}

} // verus!
