//! Webhook deliveries: each is handled once, and its payload is let go after a while.

use vstd::prelude::*;

use crate::db::clock::{DAY, SECOND};
use crate::json::Json;
use crate::order;
use crate::order::{arranges, Key};
use crate::platform::Platform;
use crate::text;
use crate::text::opt_view;

verus! {

/// The event under which runs that an agent asked for are recorded.
pub const MCP_REVIEW_EVENT: &'static str = "mcp.review";

/// A delivery.
#[derive(Debug)]
pub struct Delivery {
    pub platform: Platform,
    pub delivery_id: String,
    pub event_name: String,
    /// Who asked, for a run that an agent asked for.
    pub caller: Option<String>,
    pub payload: Json,
    pub received_at: i64,
}

/// Whether a delivery was seen.
pub open spec fn is_seen(table: Seq<Delivery>, delivery_id: Seq<char>) -> bool {
    exists|i: int| 0 <= i < table.len() && (#[trigger] table[i]).delivery_id@ == delivery_id
}

/// Records a delivery; `false`, and nothing changed, for one that was seen.
pub fn record_delivery(table: &mut Vec<Delivery>, delivery: Delivery) -> (r: bool)
    ensures
        r == !is_seen(old(table)@, delivery.delivery_id@),
        final(table)@ == (if r {
            old(table)@.push(delivery)
        } else {
            old(table)@
        }),
{
    let mut i: usize = 0;
    while i < table.len()
        invariant
            i <= table@.len(),
            table@ == old(table)@,
            forall|j: int|
                0 <= j < i ==> (#[trigger] table@[j]).delivery_id@ != delivery.delivery_id@,
        decreases table@.len() - i,
    {
        if text::same(table[i].delivery_id.as_str(), delivery.delivery_id.as_str()) {
            assert(table@[i as int].delivery_id@ == delivery.delivery_id@);
            return false;
        }
        i = i + 1;
    }
    table.push(delivery);
    true
}

/// A delivery that comes twice is handled once.
pub proof fn law_delivery_is_handled_once(table: Seq<Delivery>, delivery: Delivery)
    ensures
        is_seen(table.push(delivery), delivery.delivery_id@),
{
    assert(table.push(delivery)[table.len() as int].delivery_id@ == delivery.delivery_id@);
}

/// Whether a payload is the empty object.
pub open spec fn is_empty_object(payload: Json) -> bool {
    match payload {
        Json::Object(members) => members@.len() == 0,
        _ => false,
    }
}

/// Whether a delivery's payload may be let go: it has one, it is past its days, and the delivery is not
/// one that counts against a caller's quota.
pub open spec fn is_spent(d: Delivery, retention_days: i64, now: i64) -> bool {
    &&& !is_empty_object(d.payload)
    &&& d.event_name@ != MCP_REVIEW_EVENT@
    &&& d.received_at < now - retention_days * DAY
}

/// Which payloads may be let go.
pub open spec fn spent(table: Seq<Delivery>, retention_days: i64, now: i64) -> Seq<bool> {
    Seq::new(table.len(), |i: int| is_spent(table[i], retention_days, now))
}

/// Deliveries by age, then by place.
pub open spec fn by_age(table: Seq<Delivery>) -> Seq<Key> {
    Seq::new(
        table.len(),
        |i: int| Key { major: table[i].received_at as i128, minor: 0, id: i as u128 },
    )
}

/// Whether a delivery is another with its payload let go.
pub open spec fn is_compacted(after: Delivery, before: Delivery) -> bool {
    &&& is_empty_object(after.payload)
    &&& after.platform == before.platform
    &&& after.delivery_id == before.delivery_id
    &&& after.event_name == before.event_name
    &&& after.caller == before.caller
    &&& after.received_at == before.received_at
}

/// Whether `after` is a table with the payloads at some places let go. Every delivery is kept.
pub open spec fn compacts(before: Seq<Delivery>, after: Seq<Delivery>, places: Seq<usize>) -> bool {
    &&& after.len() == before.len()
    &&& forall|i: int|
        0 <= i < before.len() ==> if places.contains(i as usize) {
            is_compacted(#[trigger] after[i], before[i])
        } else {
            after[i] == before[i]
        }
}

/// How many of a batch there are.
pub open spec fn batch_len(n: nat, batch: i64) -> int {
    if n <= batch {
        n as int
    } else {
        batch as int
    }
}

/// Lets the oldest spent payloads go, at most a batch of them; how many. Nothing happens where the days
/// or the batch are not positive.
pub fn compact_webhook_payloads(
    table: &mut Vec<Delivery>,
    retention_days: i64,
    batch: i64,
    now: i64,
) -> (r: usize)
    ensures
        if retention_days <= 0 || batch <= 0 {
            r == 0 && final(table)@ == old(table)@
        } else {
            exists|all: Seq<usize>| #[trigger]
                arranges(all, spent(old(table)@, retention_days, now), by_age(old(table)@)) && r
                    == batch_len(all.len(), batch) && compacts(
                    old(table)@,
                    final(table)@,
                    all.take(r as int),
                )
        },
{
    if retention_days <= 0 || batch <= 0 {
        return 0;
    }
    let ghost before = table@;
    let rows: usize = table.len();
    let cutoff: i128 = now as i128 - retention_days as i128 * DAY;
    let mut selected: Vec<bool> = Vec::new();
    let mut keys: Vec<Key> = Vec::new();
    let mut i: usize = 0;
    while i < table.len()
        invariant
            i <= table@.len(),
            table@ == before,
            cutoff == now - retention_days * DAY,
            selected@ =~= spent(before, retention_days, now).take(i as int),
            keys@ =~= by_age(before).take(i as int),
        decreases table@.len() - i,
    {
        let d = &table[i];
        let empty: bool = match &d.payload {
            Json::Object(members) => members.len() == 0,
            _ => false,
        };
        selected.push(
            !empty && (d.received_at as i128) < cutoff && !text::same(
                d.event_name.as_str(),
                MCP_REVIEW_EVENT,
            ),
        );
        keys.push(Key { major: d.received_at as i128, minor: 0, id: i as u128 });
        i = i + 1;
    }
    assert(selected@ =~= spent(before, retention_days, now));
    assert(keys@ =~= by_age(before));
    let places: Vec<usize> = order::arrange(&selected, &keys);
    let n: usize = if (batch as u64) < places.len() as u64 {
        batch as usize
    } else {
        places.len()
    };
    assert(places@.take(0) =~= Seq::empty());
    let mut a: usize = 0;
    while a < n
        invariant
            a <= n <= places@.len(),
            table@.len() == before.len(),
            before.len() == rows,
            arranges(places@, selected@, keys@),
            selected@.len() == before.len(),
            compacts(before, table@, places@.take(a as int)),
        decreases n - a,
    {
        let at: usize = places[a];
        let ghost held = table@;
        table[at].payload = Json::Object(Vec::new());
        proof {
            let now_places = places@.take(a + 1);
            let old_places = places@.take(a as int);
            assert(now_places =~= old_places.push(at));
            assert forall|k: int| 0 <= k < before.len() implies if now_places.contains(
                k as usize,
            ) {
                is_compacted(#[trigger] table@[k], before[k])
            } else {
                table@[k] == before[k]
            } by {
                if k == at {
                    assert(now_places[a as int] == k as usize);
                    if old_places.contains(k as usize) {
                        assert(is_compacted(held[k], before[k]));
                    } else {
                        assert(held[k] == before[k]);
                    }
                } else {
                    assert(table@[k] == held[k]);
                    if now_places.contains(k as usize) {
                        let b = choose|b: int|
                            0 <= b < now_places.len() && now_places[b] == k as usize;
                        assert(b < a);
                        assert(old_places[b] == k as usize);
                        assert(old_places.contains(k as usize));
                    } else {
                        assert forall|b: int| 0 <= b < old_places.len() implies old_places[b]
                            != k as usize by {
                            assert(now_places[b] == old_places[b]);
                        }
                        assert(!old_places.contains(k as usize));
                    }
                }
            }
        }
        a = a + 1;
    }
    assert(arranges(places@, spent(before, retention_days, now), by_age(before)));
    n
}

/// A delivery that counts against a quota keeps its payload, whatever its age.
pub proof fn law_quota_ledger_is_kept(d: Delivery, retention_days: i64, now: i64)
    requires
        d.event_name@ == MCP_REVIEW_EVENT@,
    ensures
        !is_spent(d, retention_days, now),
{
}

/// Whether a delivery counts against a caller's quota.
pub open spec fn counts_for(d: Delivery, caller: Seq<char>, window_secs: i64, now: i64) -> bool {
    &&& d.event_name@ == MCP_REVIEW_EVENT@
    &&& opt_view(d.caller) == Some(caller)
    &&& d.received_at > now - window_secs * SECOND
}

/// How many runs a caller asked for within a window.
pub fn count_recent_mcp_runs(table: &Vec<Delivery>, caller: &str, window_secs: i64, now: i64) -> (r:
    usize)
    ensures
        r == table@.filter(|d: Delivery| counts_for(d, caller@, window_secs, now)).len(),
{
    let ghost p = |d: Delivery| counts_for(d, caller@, window_secs, now);
    let from: i128 = now as i128 - window_secs as i128 * SECOND;
    let mut n: usize = 0;
    let mut i: usize = 0;
    proof {
        reveal(Seq::filter);
        assert(table@.take(0) =~= Seq::empty());
    }
    while i < table.len()
        invariant
            n <= i <= table@.len(),
            from == now - window_secs * SECOND,
            p == (|d: Delivery| counts_for(d, caller@, window_secs, now)),
            n == table@.take(i as int).filter(p).len(),
        decreases table@.len() - i,
    {
        proof {
            reveal(Seq::filter);
            assert(table@.take(i + 1).drop_last() =~= table@.take(i as int));
        }
        let d = &table[i];
        let by_caller: bool = match &d.caller {
            Some(c) => text::same(c.as_str(), caller),
            None => false,
        };
        if by_caller && d.received_at as i128 > from && text::same(
            d.event_name.as_str(),
            MCP_REVIEW_EVENT,
        ) {
            n = n + 1;
        }
        i = i + 1;
    }
    assert(table@.take(i as int) =~= table@);
    n
}

} // verus!
