//! Webhook registrations and their delivery.
//!
//! The event log of a task is the queue; each registration carries its own cursor into it. A worker
//! claims a registration with work due under a lease, delivers the events past the cursor one by one,
//! and advances the cursor, backs off, or switches the registration off. The clock is an argument:
//! instants are microseconds.

use vstd::prelude::*;

use crate::a2a::events::LoggedEvent;
use crate::a2a::model::{state_from_wire, state_of_wire, terminal};
use crate::db::clock::DAY;
use crate::order;
use crate::order::{arranges, is_first, Key};
use crate::text;
use crate::text::opt_view;

verus! {

/// Whether a registration is delivered to.
#[derive(Clone, Copy, Debug, PartialEq, Eq, Structural)]
pub enum PushState {
    Active,
    /// Switched off after too many failures.
    Disabled,
}

/// A webhook registration.
#[derive(Debug)]
pub struct PushConfigRow {
    pub config_id: u128,
    pub a2a_task_id: u128,
    pub url: String,
    /// The caller's token, encrypted.
    pub token_enc: Option<Vec<u8>>,
    /// The last event delivered.
    pub delivered_seq: i64,
    /// Consecutive failures.
    pub attempts: i32,
    pub state: PushState,
    pub created_by: String,
    pub created_at: i128,
    pub next_attempt_at: i128,
    pub lease_owner: Option<String>,
    pub lease_expires_at: Option<i128>,
}

/// The mathematical value of a [`PushConfigRow`].
#[verifier::ext_equal]
pub struct PushConfigView {
    pub config_id: u128,
    pub a2a_task_id: u128,
    pub url: Seq<char>,
    pub token_enc: Option<Seq<u8>>,
    pub delivered_seq: i64,
    pub attempts: i32,
    pub state: PushState,
    pub created_by: Seq<char>,
    pub created_at: i128,
    pub next_attempt_at: i128,
    pub lease_owner: Option<Seq<char>>,
    pub lease_expires_at: Option<i128>,
}

/// The bytes of an optional byte string.
pub open spec fn opt_bytes(v: Option<Vec<u8>>) -> Option<Seq<u8>> {
    match v {
        Some(v) => Some(v@),
        None => None,
    }
}

impl View for PushConfigRow {
    type V = PushConfigView;

    open spec fn view(&self) -> PushConfigView {
        PushConfigView {
            config_id: self.config_id,
            a2a_task_id: self.a2a_task_id,
            url: self.url@,
            token_enc: opt_bytes(self.token_enc),
            delivered_seq: self.delivered_seq,
            attempts: self.attempts,
            state: self.state,
            created_by: self.created_by@,
            created_at: self.created_at,
            next_attempt_at: self.next_attempt_at,
            lease_owner: opt_view(self.lease_owner),
            lease_expires_at: self.lease_expires_at,
        }
    }
}

/// The values of a table of registrations.
pub open spec fn configs(rows: Seq<PushConfigRow>) -> Seq<PushConfigView> {
    Seq::new(rows.len(), |i: int| rows[i]@)
}

/// A registration as it is first stored: nothing delivered, no failure, due at once.
pub open spec fn fresh_config(
    config_id: u128,
    a2a_task_id: u128,
    url: Seq<char>,
    token_enc: Option<Seq<u8>>,
    created_by: Seq<char>,
    now: i64,
) -> PushConfigView {
    PushConfigView {
        config_id,
        a2a_task_id,
        url,
        token_enc,
        delivered_seq: 0,
        attempts: 0,
        state: PushState::Active,
        created_by,
        created_at: now as i128,
        next_attempt_at: now as i128,
        lease_owner: None,
        lease_expires_at: None,
    }
}

/// The row of a new registration.
pub fn insert_push_config(
    config_id: u128,
    a2a_task_id: u128,
    url: &str,
    token_enc: Option<Vec<u8>>,
    created_by: &str,
    now: i64,
) -> (r: PushConfigRow)
    ensures
        r@ == fresh_config(
            config_id,
            a2a_task_id,
            url@,
            opt_bytes(token_enc),
            created_by@,
            now,
        ),
{
    PushConfigRow {
        config_id,
        a2a_task_id,
        url: url.to_owned(),
        token_enc,
        delivered_seq: 0,
        attempts: 0,
        state: PushState::Active,
        created_by: created_by.to_owned(),
        created_at: now as i128,
        next_attempt_at: now as i128,
        lease_owner: None,
        lease_expires_at: None,
    }
}

/// The place of a registration; of several with one id, the lowest.
pub fn get_push_config(rows: &Vec<PushConfigRow>, config_id: u128) -> (r: Option<usize>)
    ensures
        match r {
            Some(i) => i < rows@.len() && rows@[i as int].config_id == config_id && forall|j: int|
                0 <= j < i ==> (#[trigger] rows@[j]).config_id != config_id,
            None => forall|j: int|
                0 <= j < rows@.len() ==> (#[trigger] rows@[j]).config_id != config_id,
        },
{
    let mut i: usize = 0;
    while i < rows.len()
        invariant
            i <= rows@.len(),
            forall|j: int| 0 <= j < i ==> (#[trigger] rows@[j]).config_id != config_id,
        decreases rows@.len() - i,
    {
        if rows[i].config_id == config_id {
            return Some(i);
        }
        i = i + 1;
    }
    None
}

/// Which registrations are on a task.
pub open spec fn on_task(rows: Seq<PushConfigView>, a2a_task_id: u128) -> Seq<bool> {
    Seq::new(rows.len(), |i: int| rows[i].a2a_task_id == a2a_task_id)
}

/// Registrations by age, then by id.
pub open spec fn by_age(rows: Seq<PushConfigView>) -> Seq<Key> {
    Seq::new(
        rows.len(),
        |i: int| Key { major: rows[i].created_at, minor: 0, id: rows[i].config_id },
    )
}

/// The places of a task's registrations, oldest first.
pub fn list_push_configs_for_task(rows: &Vec<PushConfigRow>, a2a_task_id: u128) -> (r: Vec<usize>)
    ensures
        arranges(r@, on_task(configs(rows@), a2a_task_id), by_age(configs(rows@))),
{
    let mut selected: Vec<bool> = Vec::new();
    let mut keys: Vec<Key> = Vec::new();
    let mut i: usize = 0;
    while i < rows.len()
        invariant
            i <= rows@.len(),
            selected@ =~= on_task(configs(rows@), a2a_task_id).take(i as int),
            keys@ =~= by_age(configs(rows@)).take(i as int),
        decreases rows@.len() - i,
    {
        selected.push(rows[i].a2a_task_id == a2a_task_id);
        keys.push(Key { major: rows[i].created_at, minor: 0, id: rows[i].config_id });
        i = i + 1;
    }
    assert(selected@ =~= on_task(configs(rows@), a2a_task_id));
    assert(keys@ =~= by_age(configs(rows@)));
    order::arrange(&selected, &keys)
}

/// The registrations without those of one id on one task.
pub open spec fn without(rows: Seq<PushConfigView>, config_id: u128, a2a_task_id: u128) -> Seq<
    PushConfigView,
> {
    rows.filter(
        |c: PushConfigView| !(c.config_id == config_id && c.a2a_task_id == a2a_task_id),
    )
}

/// Deletes a registration of a task; `false` where the id is unknown or on another task.
pub fn delete_push_config(
    rows: &mut Vec<PushConfigRow>,
    config_id: u128,
    a2a_task_id: u128,
) -> (r: bool)
    ensures
        configs(final(rows)@) == without(configs(old(rows)@), config_id, a2a_task_id),
        r == exists|i: int|
            0 <= i < old(rows)@.len() && (#[trigger] old(rows)@[i]).config_id == config_id
                && old(rows)@[i].a2a_task_id == a2a_task_id,
{
    let ghost before = configs(rows@);
    let ghost all = rows@;
    let ghost kept = |c: PushConfigView|
        !(c.config_id == config_id && c.a2a_task_id == a2a_task_id);
    let mut rest: Vec<PushConfigRow> = Vec::new();
    std::mem::swap(&mut rest, rows);
    let mut deleted: bool = false;
    let mut out: Vec<PushConfigRow> = Vec::new();
    let ghost mut i: int = 0;
    proof {
        reveal(Seq::filter);
        assert(before.take(0) =~= Seq::empty());
        assert(configs(out@) =~= Seq::empty());
        assert(rest@ =~= all.skip(0));
    }
    while rest.len() > 0
        invariant
            0 <= i <= all.len(),
            before == configs(all),
            rest@ == all.skip(i),
            kept == (|c: PushConfigView|
                !(c.config_id == config_id && c.a2a_task_id == a2a_task_id)),
            configs(out@) == before.take(i).filter(kept),
            deleted == exists|j: int|
                0 <= j < i && (#[trigger] all[j]).config_id == config_id && all[j].a2a_task_id
                    == a2a_task_id,
        decreases rest@.len(),
    {
        let row: PushConfigRow = rest.remove(0);
        proof {
            reveal(Seq::filter);
            assert(row == all[i]);
            assert(rest@ =~= all.skip(i + 1));
            assert(before.take(i + 1).drop_last() =~= before.take(i));
            assert(before.take(i + 1).last() == row@);
        }
        let ghost out_before = out@;
        if row.config_id == config_id && row.a2a_task_id == a2a_task_id {
            deleted = true;
            assert(all[i].config_id == config_id);
        } else {
            out.push(row);
            assert(configs(out@) =~= configs(out_before).push(row@));
        }
        proof {
            i = i + 1;
        }
    }
    assert(before.take(i) =~= before);
    std::mem::swap(&mut out, rows);
    deleted
}

/// How many active registrations a caller has on a task.
pub open spec fn active_for(
    rows: Seq<PushConfigView>,
    a2a_task_id: u128,
    created_by: Seq<char>,
) -> nat {
    rows.filter(
        |c: PushConfigView|
            c.a2a_task_id == a2a_task_id && c.created_by == created_by && c.state
                == PushState::Active,
    ).len()
}

/// Counts a caller's active registrations on a task. Those switched off do not count, and neither do
/// another caller's.
pub fn count_active_push_configs_for_caller(
    rows: &Vec<PushConfigRow>,
    a2a_task_id: u128,
    created_by: &str,
) -> (r: usize)
    ensures
        r == active_for(configs(rows@), a2a_task_id, created_by@),
{
    let ghost all = configs(rows@);
    let ghost p = |c: PushConfigView|
        c.a2a_task_id == a2a_task_id && c.created_by == created_by@ && c.state
            == PushState::Active;
    let mut n: usize = 0;
    let mut i: usize = 0;
    proof {
        reveal(Seq::filter);
        assert(all.take(0) =~= Seq::empty());
    }
    while i < rows.len()
        invariant
            n <= i <= rows@.len(),
            all == configs(rows@),
            p == (|c: PushConfigView|
                c.a2a_task_id == a2a_task_id && c.created_by == created_by@ && c.state
                    == PushState::Active),
            n == all.take(i as int).filter(p).len(),
        decreases rows@.len() - i,
    {
        proof {
            reveal(Seq::filter);
            assert(all.take(i + 1).drop_last() =~= all.take(i as int));
            assert(all.take(i + 1).last() == rows@[i as int]@);
        }
        let row = &rows[i];
        if row.a2a_task_id == a2a_task_id && text::same(row.created_by.as_str(), created_by)
            && row.state == PushState::Active {
            n = n + 1;
        }
        i = i + 1;
    }
    assert(all.take(i as int) =~= all);
    n
}

/// Whether `n` is the last event logged for a task: zero for an empty log.
pub open spec fn is_newest<P>(events: Seq<LoggedEvent<P>>, n: i64) -> bool {
    if events.len() == 0 {
        n == 0
    } else {
        &&& exists|i: int| 0 <= i < events.len() && (#[trigger] events[i]).seq == n
        &&& forall|i: int| 0 <= i < events.len() ==> (#[trigger] events[i]).seq <= n
    }
}

/// The last event logged for a task, or zero.
pub fn newest_event<P>(events: &Vec<LoggedEvent<P>>) -> (r: i64)
    ensures
        is_newest(events@, r),
{
    if events.len() == 0 {
        return 0;
    }
    let mut best: usize = 0;
    let mut j: usize = 1;
    while j < events.len()
        invariant
            best < j <= events@.len(),
            forall|k: int| 0 <= k < j ==> (#[trigger] events@[k]).seq <= events@[best as int].seq,
        decreases events@.len() - j,
    {
        if events[j].seq > events[best].seq {
            best = j;
        }
        j = j + 1;
    }
    events[best].seq
}

/// Whether a registration may be claimed: active, past its backoff, under no live lease, and behind its
/// task's log.
pub open spec fn is_due(c: PushConfigView, newest: int, now: i64) -> bool {
    &&& c.state == PushState::Active
    &&& c.next_attempt_at <= now
    &&& c.lease_expires_at is None || c.lease_expires_at->0 < now
    &&& c.delivered_seq < newest
}

/// Which registrations may be claimed. `newest` holds, place by place, the last event logged for the
/// task of each.
pub open spec fn due(rows: Seq<PushConfigView>, newest: Seq<i64>, now: i64) -> Seq<bool> {
    Seq::new(rows.len(), |i: int| is_due(rows[i], newest[i] as int, now))
}

/// Registrations by when they are due, then by id.
pub open spec fn by_due_time(rows: Seq<PushConfigView>) -> Seq<Key> {
    Seq::new(
        rows.len(),
        |i: int| Key { major: rows[i].next_attempt_at, minor: 0, id: rows[i].config_id },
    )
}

/// A registration under a lease.
pub open spec fn leased(c: PushConfigView, owner: Seq<char>, lease: u64, now: i64) -> PushConfigView {
    PushConfigView {
        lease_owner: Some(owner),
        lease_expires_at: Some((now + lease) as i128),
        ..c
    }
}

/// Claims the registration that is due first and takes a lease on it; `None` where nothing is due.
pub fn claim_next_push_config(
    rows: &mut Vec<PushConfigRow>,
    newest: &Vec<i64>,
    owner: &str,
    lease: u64,
    now: i64,
) -> (r: Option<usize>)
    requires
        newest@.len() == old(rows)@.len(),
    ensures
        match r {
            Some(i) => {
                &&& is_first(
                    i as int,
                    due(configs(old(rows)@), newest@, now),
                    by_due_time(configs(old(rows)@)),
                )
                &&& configs(final(rows)@) == configs(old(rows)@).update(
                    i as int,
                    leased(configs(old(rows)@)[i as int], owner@, lease, now),
                )
            },
            None => {
                &&& configs(final(rows)@) == configs(old(rows)@)
                &&& forall|j: int|
                    0 <= j < old(rows)@.len() ==> !#[trigger] due(
                        configs(old(rows)@),
                        newest@,
                        now,
                    )[j]
            },
        },
{
    let ghost all = configs(rows@);
    let mut selected: Vec<bool> = Vec::new();
    let mut keys: Vec<Key> = Vec::new();
    let mut i: usize = 0;
    while i < rows.len()
        invariant
            i <= rows@.len(),
            newest@.len() == rows@.len(),
            all == configs(rows@),
            selected@ =~= due(all, newest@, now).take(i as int),
            keys@ =~= by_due_time(all).take(i as int),
        decreases rows@.len() - i,
    {
        let row = &rows[i];
        let lease_over: bool = match row.lease_expires_at {
            Some(at) => at < now as i128,
            None => true,
        };
        selected.push(
            row.state == PushState::Active && row.next_attempt_at <= now as i128 && lease_over
                && row.delivered_seq < newest[i],
        );
        keys.push(Key { major: row.next_attempt_at, minor: 0, id: row.config_id });
        i = i + 1;
    }
    assert(selected@ =~= due(all, newest@, now));
    assert(keys@ =~= by_due_time(all));
    match order::first(&selected, &keys) {
        Some(i) => {
            let until: i128 = now as i128 + lease as i128;
            rows[i].lease_owner = Some(owner.to_owned());
            rows[i].lease_expires_at = Some(until);
            assert(configs(rows@) =~= all.update(
                i as int,
                leased(all[i as int], owner@, lease, now),
            ));
            Some(i)
        },
        None => None,
    }
}

/// What a claimed registration is delivered with.
#[derive(Debug)]
pub struct ClaimedPushConfig {
    pub config_id: u128,
    pub a2a_task_id: u128,
    pub url: String,
    pub token_enc: Option<Vec<u8>>,
    pub delivered_seq: i64,
}

/// What a registration is delivered with.
pub fn claimed_push_config(row: &PushConfigRow) -> (r: ClaimedPushConfig)
    ensures
        r.config_id == row@.config_id,
        r.a2a_task_id == row@.a2a_task_id,
        r.url@ == row@.url,
        opt_bytes(r.token_enc) == row@.token_enc,
        r.delivered_seq == row@.delivered_seq,
{
    let token_enc: Option<Vec<u8>> = match &row.token_enc {
        Some(bytes) => {
            let copy: Vec<u8> = bytes.clone();
            assert(copy@ =~= bytes@);
            Some(copy)
        },
        None => None,
    };
    ClaimedPushConfig {
        config_id: row.config_id,
        a2a_task_id: row.a2a_task_id,
        url: row.url.clone(),
        token_enc,
        delivered_seq: row.delivered_seq,
    }
}

/// Whether `i` is the place of the event to deliver next: the lowest past the cursor.
pub open spec fn is_next_event<P>(events: Seq<LoggedEvent<P>>, after: i64, i: int) -> bool {
    &&& 0 <= i < events.len()
    &&& events[i].seq > after
    &&& forall|j: int|
        0 <= j < events.len() && (#[trigger] events[j]).seq > after ==> events[i].seq
            <= events[j].seq
}

/// The place of the event to deliver next, or `None` where the registration is caught up.
pub fn next_push_event<P>(events: &Vec<LoggedEvent<P>>, after: i64) -> (r: Option<usize>)
    ensures
        match r {
            Some(i) => is_next_event(events@, after, i as int),
            None => forall|j: int| 0 <= j < events@.len() ==> (#[trigger] events@[j]).seq <= after,
        },
{
    let mut best: Option<usize> = None;
    let mut j: usize = 0;
    while j < events.len()
        invariant
            j <= events@.len(),
            match best {
                Some(i) => i < j && events@[i as int].seq > after && forall|k: int|
                    0 <= k < j && (#[trigger] events@[k]).seq > after ==> events@[i as int].seq
                        <= events@[k].seq,
                None => forall|k: int| 0 <= k < j ==> (#[trigger] events@[k]).seq <= after,
            },
        decreases events@.len() - j,
    {
        if events[j].seq > after {
            match best {
                Some(i) => {
                    if events[j].seq < events[i].seq {
                        best = Some(j);
                    }
                },
                None => {
                    best = Some(j);
                },
            }
        }
        j = j + 1;
    }
    best
}

/// A registration after an event was delivered: the cursor moves on, failures and backoff are forgotten
/// and the lease is renewed. A cursor that stands there already, or further on, is left alone, and so
/// is everything else.
pub open spec fn delivered(c: PushConfigView, seq: i64, lease: u64, now: i64) -> PushConfigView {
    if c.delivered_seq < seq {
        PushConfigView {
            delivered_seq: seq,
            attempts: 0,
            next_attempt_at: now as i128,
            lease_expires_at: Some((now + lease) as i128),
            ..c
        }
    } else {
        c
    }
}

/// Advances a cursor after a delivery.
pub fn advance_push_delivered(row: &mut PushConfigRow, seq: i64, lease: u64, now: i64)
    ensures
        final(row)@ == delivered(old(row)@, seq, lease, now),
{
    if row.delivered_seq < seq {
        row.delivered_seq = seq;
        row.attempts = 0;
        row.next_attempt_at = now as i128;
        row.lease_expires_at = Some(now as i128 + lease as i128);
    }
}

/// Gives a caught-up registration's lease back.
pub fn release_push_config(row: &mut PushConfigRow)
    ensures
        final(row)@ == (PushConfigView { lease_owner: None, lease_expires_at: None, ..old(row)@ }),
{
    row.lease_owner = None;
    row.lease_expires_at = None;
}

/// Counts a failure, keeping the lease; the new count is returned.
pub fn bump_push_attempts(row: &mut PushConfigRow) -> (r: i32)
    requires
        old(row)@.attempts < i32::MAX,
    ensures
        r == old(row)@.attempts + 1,
        final(row)@ == (PushConfigView { attempts: r, ..old(row)@ }),
{
    row.attempts = row.attempts + 1;
    row.attempts
}

/// A registration after a failure: due again after the backoff, its lease given back, and switched off
/// where asked.
pub open spec fn retried(c: PushConfigView, backoff: u64, disable: bool, now: i64) -> PushConfigView {
    PushConfigView {
        next_attempt_at: (now + backoff) as i128,
        state: if disable {
            PushState::Disabled
        } else {
            c.state
        },
        lease_owner: None,
        lease_expires_at: None,
        ..c
    }
}

/// Schedules the next attempt after a failure.
pub fn schedule_push_retry(row: &mut PushConfigRow, backoff: u64, disable: bool, now: i64)
    ensures
        final(row)@ == retried(old(row)@, backoff, disable, now),
{
    row.next_attempt_at = now as i128 + backoff as i128;
    if disable {
        row.state = PushState::Disabled;
    }
    row.lease_owner = None;
    row.lease_expires_at = None;
}

/// A stored task as the retention sweep sees it.
#[derive(Debug)]
pub struct RetainedTask {
    pub a2a_task_id: u128,
    pub created_at: i128,
    /// The wire name of the state last stored.
    pub state: String,
    /// Whether its log holds a final event.
    pub has_final: bool,
}

/// Whether a task is over: its log is closed, or the state last stored is a terminal one.
pub open spec fn is_over(t: RetainedTask) -> bool {
    t.has_final || terminal(state_of_wire(t.state@))
}

/// Which tasks are over and older than so many days.
pub open spec fn sweepable(tasks: Seq<RetainedTask>, ttl_days: i64, now: i64) -> Seq<bool> {
    Seq::new(
        tasks.len(),
        |i: int| tasks[i].created_at < now - ttl_days * DAY && is_over(tasks[i]),
    )
}

/// Stored tasks by age, then by id.
pub open spec fn tasks_by_age(tasks: Seq<RetainedTask>) -> Seq<Key> {
    Seq::new(
        tasks.len(),
        |i: int| Key { major: tasks[i].created_at, minor: 0, id: tasks[i].a2a_task_id },
    )
}

/// Whether `out` is what a sweep deletes: the oldest of the tasks that are over and past their days, no
/// more than a batch; nothing at all where the days or the batch are not positive.
pub open spec fn is_sweep(
    out: Seq<usize>,
    tasks: Seq<RetainedTask>,
    ttl_days: i64,
    batch: i64,
    now: i64,
) -> bool {
    if ttl_days <= 0 || batch <= 0 {
        out.len() == 0
    } else {
        exists|all: Seq<usize>| #[trigger]
            arranges(all, sweepable(tasks, ttl_days, now), tasks_by_age(tasks)) && out
                == all.take(if all.len() <= batch { all.len() as int } else { batch as int })
    }
}

/// The places of the stored tasks to delete: tasks that are over and older than `ttl_days`, oldest
/// first, at most `batch` of them.
pub fn sweep_terminal_a2a_tasks(
    tasks: &Vec<RetainedTask>,
    ttl_days: i64,
    batch: i64,
    now: i64,
) -> (r: Vec<usize>)
    ensures
        is_sweep(r@, tasks@, ttl_days, batch, now),
{
    if ttl_days <= 0 || batch <= 0 {
        return Vec::new();
    }
    let cutoff: i128 = now as i128 - ttl_days as i128 * DAY;
    let mut selected: Vec<bool> = Vec::new();
    let mut keys: Vec<Key> = Vec::new();
    let mut i: usize = 0;
    while i < tasks.len()
        invariant
            i <= tasks@.len(),
            cutoff == now - ttl_days * DAY,
            selected@ =~= sweepable(tasks@, ttl_days, now).take(i as int),
            keys@ =~= tasks_by_age(tasks@).take(i as int),
        decreases tasks@.len() - i,
    {
        let task = &tasks[i];
        selected.push(
            task.created_at < cutoff && (task.has_final || state_from_wire(
                task.state.as_str(),
            ).is_terminal()),
        );
        keys.push(Key { major: task.created_at, minor: 0, id: task.a2a_task_id });
        i = i + 1;
    }
    assert(selected@ =~= sweepable(tasks@, ttl_days, now));
    assert(keys@ =~= tasks_by_age(tasks@));
    let mut out: Vec<usize> = order::arrange(&selected, &keys);
    let ghost all = out@;
    if (batch as u64) < out.len() as u64 {
        out.truncate(batch as usize);
    }
    assert(out@ =~= all.take(if all.len() <= batch { all.len() as int } else { batch as int }));
    out
}

/// A sweep never takes a task that still runs, whatever its age, and never one within its days.
pub proof fn law_sweep_spares_live_tasks(
    out: Seq<usize>,
    tasks: Seq<RetainedTask>,
    ttl_days: i64,
    batch: i64,
    now: i64,
)
    requires
        is_sweep(out, tasks, ttl_days, batch, now),
    ensures
        forall|a: int|
            0 <= a < out.len() ==> (#[trigger] out[a]) < tasks.len() && is_over(
                tasks[out[a] as int],
            ) && tasks[out[a] as int].created_at < now - ttl_days * DAY,
        batch > 0 ==> out.len() <= batch,
{
    if ttl_days > 0 && batch > 0 {
        let all = choose|all: Seq<usize>| #[trigger]
            arranges(all, sweepable(tasks, ttl_days, now), tasks_by_age(tasks)) && out
                == all.take(if all.len() <= batch { all.len() as int } else { batch as int });
        assert forall|a: int| 0 <= a < out.len() implies (#[trigger] out[a]) < tasks.len()
            && is_over(tasks[out[a] as int]) && tasks[out[a] as int].created_at < now - ttl_days
            * DAY by {
            assert(out[a] == all[a]);
            assert(sweepable(tasks, ttl_days, now)[all[a] as int]);
        }
    }
}

/// A delivery cursor never moves back, whichever worker writes, however late.
pub proof fn law_cursor_never_rewinds(c: PushConfigView, seq: i64, lease: u64, now: i64)
    ensures
        delivered(c, seq, lease, now).delivered_seq >= c.delivered_seq,
        delivered(c, seq, lease, now).delivered_seq >= seq,
        seq <= c.delivered_seq ==> delivered(c, seq, lease, now) == c,
{
}

/// A claimed registration cannot be claimed again while its lease lives.
pub proof fn law_lease_excludes_other_workers(
    c: PushConfigView,
    owner: Seq<char>,
    lease: u64,
    now: i64,
    later: i64,
    newest: int,
)
    requires
        later <= now + lease,
    ensures
        !is_due(leased(c, owner, lease, now), newest, later),
{
}

/// A registration that was switched off is never claimed, whatever is logged for its task.
pub proof fn law_disabled_is_never_claimed(c: PushConfigView, backoff: u64, now: i64, later: i64, newest: int)
    ensures
        !is_due(retried(c, backoff, true, now), newest, later),
{
}

/// A retry is not claimed before its backoff is over.
pub proof fn law_retry_waits_for_backoff(
    c: PushConfigView,
    backoff: u64,
    disable: bool,
    now: i64,
    later: i64,
    newest: int,
)
    requires
        later < now + backoff,
    ensures
        !is_due(retried(c, backoff, disable, now), newest, later),
{
}

} // verus!
