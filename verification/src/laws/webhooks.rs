//! Where a webhook may point, and how its deliveries go.

use vstd::prelude::*;

use crate::a2a::events::LoggedEvent;
use crate::a2a::handler::{config_view, registration, PushConfig, TokenSeal, WireConfigView};
use crate::a2a::model::{A2aError, ErrorKind};
use crate::a2a::push_crypto::{decrypted, Key};
use crate::a2a::ssrf::{
    blocked, blocked_v4, blocked_v6, embedded_v4, law_accepted_webhook_is_public, pinned,
    structural_error, webhook_error, ResolveError, SsrfError, SsrfPolicy, ValidatedWebhook,
};
use crate::db::push_notifications::{
    active_for, by_age, by_due_time, delivered, due, is_newest, is_next_event, is_sweep, leased,
    on_task, retried, sweepable, tasks_by_age, without, PushConfigRow, PushConfigView, PushState,
    RetainedTask,
};
use crate::ids::text_of_uuid;
use crate::laws::kept::lemma_kept;
use crate::net::{HostView, IpAddr, UrlView};
use crate::order::{arranges, is_first};

verus! {

/// An IPv4 address `a.b.c.d` is denied exactly in `0/8`, `10/8`, `127/8`, `100.64/10`, `169.254/16`,
/// `172.16/12`, `192.168/16`, `198.18/15` and from `224` on.
pub proof fn law_denied_ipv4_ranges(a: int, b: int, c: int, d: int, ip: u32)
    requires
        0 <= a < 256,
        0 <= b < 256,
        0 <= c < 256,
        0 <= d < 256,
        ip == a * 0x100_0000 + b * 0x1_0000 + c * 0x100 + d,
    ensures
        blocked_v4(ip) <==> a == 0 || a == 10 || a == 127 || (a == 100 && 64 <= b < 128) || (a
            == 169 && b == 254) || (a == 172 && 16 <= b < 32) || (a == 192 && b == 168) || (a == 198
            && (b == 18 || b == 19)) || a >= 224,
{
}

/// An IPv6 address is denied where its first group lies in `fc00::/7`, `fe80::/10` or `ff00::/8`, in
/// `2001:db8::/32`, at `::` and `::1`, and where it stands for an IPv4 address that is denied.
pub proof fn law_denied_ipv6_ranges(first: int, second: int, rest: int, ip: u128)
    requires
        0 <= first < 0x1_0000,
        0 <= second < 0x1_0000,
        0 <= rest < 0x1_0000_0000_0000_0000_0000_0000,
        ip == first * 0x1_0000_0000_0000_0000_0000_0000_0000 + second
            * 0x1_0000_0000_0000_0000_0000_0000 + rest,
    ensures
        first >= 0xff00 ==> blocked_v6(ip),
        0xfc00 <= first < 0xfe00 ==> blocked_v6(ip),
        0xfe80 <= first < 0xfec0 ==> blocked_v6(ip),
        first == 0x2001 && second == 0x0db8 ==> blocked_v6(ip),
        ip == 0 ==> blocked_v6(ip),
        ip == 1 ==> blocked_v6(ip),
        0 < first < 0xfc00 && !(first == 0x2001 && second == 0x0db8) ==> !blocked_v6(ip),
        0xfe00 <= first < 0xfe80 ==> !blocked_v6(ip),
        0xfec0 <= first < 0xff00 ==> !blocked_v6(ip),
{
}

/// An IPv4 address written as an IPv6 one, mapped or compatible, is denied where it is denied itself.
pub proof fn law_wrapped_ipv4_is_denied_as_itself(v4: u32, policy: SsrfPolicy)
    ensures
        blocked_v4(v4) ==> blocked(IpAddr::V6((0xffff_0000_0000 + v4) as u128), policy),
        blocked_v4(v4) ==> blocked(IpAddr::V6(v4 as u128), policy),
        blocked_v4(v4) ==> blocked(IpAddr::V4(v4), policy),
        policy.denies(IpAddr::V4(v4)) ==> blocked(IpAddr::V4(v4), policy) && blocked(
            IpAddr::V6((0xffff_0000_0000 + v4) as u128),
            policy,
        ) && blocked(IpAddr::V6(v4 as u128), policy),
        !blocked_v4(v4) && !policy.denies(IpAddr::V4(v4)) ==> !blocked(IpAddr::V4(v4), policy),
{
    assert(embedded_v4((0xffff_0000_0000 + v4) as u128) == Some(v4));
    assert(embedded_v4(v4 as u128) == Some(v4));
}

/// A webhook is accepted exactly where its text is a URL, the scheme is `https`, there is a host, the port
/// is 443 or not given, and there is an address and every address is allowed.
pub proof fn law_webhook_is_accepted_by_every_check(
    parsed: Result<UrlView, Seq<char>>,
    resolution: Result<Seq<IpAddr>, ResolveError>,
    policy: SsrfPolicy,
)
    ensures
        webhook_error(parsed, resolution, policy) is None <==> {
            &&& parsed is Ok
            &&& parsed->Ok_0.scheme == "https"@
            &&& parsed->Ok_0.host is Some
            &&& parsed->Ok_0.port is None || parsed->Ok_0.port == Some(443u16)
            &&& match parsed->Ok_0.host->0 {
                HostView::V4(n) => !blocked(IpAddr::V4(n), policy),
                HostView::V6(n) => !blocked(IpAddr::V6(n), policy),
                HostView::Domain(name) => name.len() > 0 && resolution is Ok
                    && resolution->Ok_0.len() > 0 && forall|i: int|
                    0 <= i < resolution->Ok_0.len() ==> !blocked(
                        #[trigger] resolution->Ok_0[i],
                        policy,
                    ),
            }
        },
{
    if webhook_error(parsed, resolution, policy) is None {
        law_accepted_webhook_is_public(parsed, resolution, policy);
        match parsed->Ok_0.host->0 {
            HostView::Domain(name) => {
                if name.len() == 0 {
                    assert(name =~= Seq::empty());
                }
            },
            HostView::V4(n) => {
                assert(pinned(parsed->Ok_0, resolution)[0] == IpAddr::V4(n));
            },
            HostView::V6(n) => {
                assert(pinned(parsed->Ok_0, resolution)[0] == IpAddr::V6(n));
            },
        }
    } else if parsed is Ok && structural_error(parsed->Ok_0) is None {
        let all = pinned(parsed->Ok_0, resolution);
        match parsed->Ok_0.host->0 {
            HostView::Domain(name) => {
                if resolution is Ok && all.len() > 0 {
                    lemma_some_blocked(all, policy);
                }
            },
            HostView::V4(n) => {
                lemma_some_blocked(all, policy);
            },
            HostView::V6(n) => {
                lemma_some_blocked(all, policy);
            },
        }
    }
}

proof fn lemma_some_blocked(addrs: Seq<IpAddr>, policy: SsrfPolicy)
    requires
        crate::a2a::ssrf::first_blocked(addrs, policy) is Some,
    ensures
        exists|i: int| 0 <= i < addrs.len() && blocked(#[trigger] addrs[i], policy),
    decreases addrs.len(),
{
    if addrs.len() > 0 && !blocked(addrs[0], policy) {
        let rest = addrs.drop_first();
        lemma_some_blocked(rest, policy);
        let i = choose|i: int| 0 <= i < rest.len() && blocked(#[trigger] rest[i], policy);
        assert(addrs[i + 1] == rest[i]);
    }
}

/// Each webhook that is not accepted is refused for the first thing that is wrong: the text, the scheme,
/// the host, the port.
pub proof fn law_webhook_is_refused_for_its_first_fault(
    url: UrlView,
    resolution: Result<Seq<IpAddr>, ResolveError>,
    policy: SsrfPolicy,
    text: Seq<char>,
)
    ensures
        webhook_error(Err(text), resolution, policy) == Some(SsrfError::InvalidUrl),
        url.scheme != "https"@ ==> webhook_error(Ok(url), resolution, policy) == Some(
            SsrfError::NotHttps,
        ),
        url.scheme == "https"@ && url.host is None ==> webhook_error(Ok(url), resolution, policy)
            == Some(SsrfError::MissingHost),
        url.scheme == "https"@ && url.host is Some && url.port is Some && url.port->0 != 443
            ==> webhook_error(Ok(url), resolution, policy) == Some(
            SsrfError::DisallowedPort(url.port->0),
        ),
{
}

/// A registration is stored exactly for a webhook that was accepted and a token that is absent or sealed:
/// under its own id, on its task, for its caller, active, with nothing delivered and due at once. Any
/// other is refused, and an accepted one echoes its request.
pub proof fn law_registration_is_stored_for_an_accepted_webhook(
    stored: Result<(PushConfigRow, PushConfig), A2aError>,
    req: WireConfigView,
    task_id: u128,
    caller: Seq<char>,
    verdict: Result<ValidatedWebhook, SsrfError>,
    seal: TokenSeal,
    config_id: u128,
    now: i64,
)
    requires
        registration(stored, req, task_id, caller, verdict, seal, config_id, now),
    ensures
        stored is Ok <==> verdict is Ok && (seal is NoToken || seal is Sealed),
        verdict is Err ==> stored->Err_0@.kind == ErrorKind::InvalidParams,
        verdict is Ok && seal is NoKey ==> stored->Err_0@.kind == ErrorKind::InvalidParams,
        verdict is Ok && seal is NoRandomness ==> stored->Err_0@.kind == ErrorKind::Internal,
        stored matches Ok(done) ==> {
            let row = done.0@;
            &&& row.config_id == config_id && row.a2a_task_id == task_id
            &&& row.url == req.url && row.created_by == caller
            &&& row.state == PushState::Active
            &&& row.delivered_seq == 0 && row.attempts == 0
            &&& row.created_at == now && row.next_attempt_at == now
            &&& row.lease_owner is None && row.lease_expires_at is None
            &&& seal is NoToken ==> row.token_enc is None
            &&& seal matches TokenSeal::Sealed(bytes) ==> row.token_enc == Some(bytes@)
            &&& done.1@.url == req.url && done.1@.token == req.token
            &&& done.1@.id == Some(text_of_uuid(config_id)) && done.1@.task_id == text_of_uuid(
                task_id,
            )
        },
{
}

/// What a caller is shown of a registration: where it points, its ids and its token as it decrypts.
pub proof fn law_registration_is_shown(c: PushConfigView, key: Key)
    ensures
        ({
            let shown = config_view(c, Some(key));
            &&& shown.url == c.url
            &&& shown.id == Some(text_of_uuid(c.config_id))
            &&& shown.task_id == text_of_uuid(c.a2a_task_id)
            &&& c.token_enc is Some ==> shown.token == decrypted(key.raw(), c.token_enc->0)
            &&& c.token_enc is None ==> shown.token is None
        }),
{
}

/// A registration is claimed exactly while it is active, past its backoff, under no lease that still
/// lives, and behind its task's log; of several the one that has been due the longest, then the lowest id.
pub proof fn law_longest_due_registration_is_claimed(
    rows: Seq<PushConfigView>,
    newest: Seq<i64>,
    now: i64,
    i: int,
)
    requires
        newest.len() == rows.len(),
        is_first(i, due(rows, newest, now), by_due_time(rows)),
    ensures
        0 <= i < rows.len(),
        rows[i].state == PushState::Active,
        rows[i].next_attempt_at <= now,
        rows[i].lease_expires_at is None || rows[i].lease_expires_at->0 < now,
        rows[i].delivered_seq < newest[i],
        forall|j: int|
            0 <= j < rows.len() && (#[trigger] rows[j]).state == PushState::Active
                && rows[j].next_attempt_at <= now && (rows[j].lease_expires_at is None
                || rows[j].lease_expires_at->0 < now) && rows[j].delivered_seq < newest[j]
                ==> rows[i].next_attempt_at < rows[j].next_attempt_at || (rows[i].next_attempt_at
                == rows[j].next_attempt_at && rows[i].config_id <= rows[j].config_id),
{
    assert(due(rows, newest, now)[i]);
    assert forall|j: int|
        0 <= j < rows.len() && (#[trigger] rows[j]).state == PushState::Active
            && rows[j].next_attempt_at <= now && (rows[j].lease_expires_at is None
            || rows[j].lease_expires_at->0 < now) && rows[j].delivered_seq < newest[j]
            implies rows[i].next_attempt_at < rows[j].next_attempt_at || (rows[i].next_attempt_at
        == rows[j].next_attempt_at && rows[i].config_id <= rows[j].config_id) by {
        assert(due(rows, newest, now)[j]);
    }
}

/// A claim, a delivery, a failure and the end of a registration each change what they are about and leave
/// the rest: a claim takes a lease, a delivery moves the cursor on and forgets failures, a failure gives
/// the lease back and waits for the backoff.
pub proof fn law_delivery_moves_the_registration_on(
    c: PushConfigView,
    owner: Seq<char>,
    lease: u64,
    seq: i64,
    backoff: u64,
    disable: bool,
    now: i64,
)
    ensures
        ({
            let l = leased(c, owner, lease, now);
            &&& l.lease_owner == Some(owner)
            &&& l.lease_expires_at is Some && l.lease_expires_at->0 == now + lease
            &&& (PushConfigView {
                lease_owner: c.lease_owner,
                lease_expires_at: c.lease_expires_at,
                ..l
            }) == c
        }),
        seq > c.delivered_seq ==> ({
            let d = delivered(c, seq, lease, now);
            &&& d.delivered_seq == seq && d.attempts == 0 && d.next_attempt_at == now
            &&& d.lease_expires_at is Some && d.lease_expires_at->0 == now + lease
            &&& d.state == c.state && d.lease_owner == c.lease_owner && d.url == c.url
        }),
        seq <= c.delivered_seq ==> delivered(c, seq, lease, now) == c,
        ({
            let r = retried(c, backoff, disable, now);
            &&& r.next_attempt_at == now + backoff
            &&& r.lease_owner is None && r.lease_expires_at is None
            &&& disable ==> r.state == PushState::Disabled
            &&& !disable ==> r.state == c.state
            &&& r.attempts == c.attempts && r.delivered_seq == c.delivered_seq && r.url == c.url
        }),
{
}

/// The next event to deliver is the lowest behind the cursor, and there is one exactly while the cursor is
/// behind the newest event.
pub proof fn law_events_are_delivered_in_order<P>(
    events: Seq<LoggedEvent<P>>,
    after: i64,
    i: int,
    newest: i64,
)
    requires
        is_newest(events, newest),
        after >= 0,
    ensures
        is_next_event(events, after, i) ==> 0 <= i < events.len() && after < events[i].seq
            <= newest && forall|j: int|
            0 <= j < events.len() ==> !(after < (#[trigger] events[j]).seq < events[i].seq),
        after < newest <==> exists|j: int| 0 <= j < events.len() && (#[trigger] events[j]).seq > after,
        events.len() == 0 ==> newest == 0,
{
}

/// The registrations of a task are listed the oldest first, all of them and no others.
pub proof fn law_registrations_are_listed_by_age(
    rows: Seq<PushConfigView>,
    task: u128,
    places: Seq<usize>,
    i: int,
)
    requires
        arranges(places, on_task(rows, task), by_age(rows)),
        0 <= i < rows.len(),
    ensures
        (exists|a: int| 0 <= a < places.len() && #[trigger] places[a] == i) <==> rows[i].a2a_task_id
            == task,
        forall|a: int, b: int|
            0 <= a < b < places.len() ==> rows[(#[trigger] places[a]) as int].created_at <= rows[(
            #[trigger] places[b]) as int].created_at,
{
    if exists|a: int| 0 <= a < places.len() && #[trigger] places[a] == i {
        let a = choose|a: int| 0 <= a < places.len() && #[trigger] places[a] == i;
        assert(on_task(rows, task)[places[a] as int]);
    }
    if rows[i].a2a_task_id == task {
        assert(on_task(rows, task)[i]);
    }
}

/// Deleting takes the registration of that id on that task and no other.
pub proof fn law_deletion_takes_one_registration(
    rows: Seq<PushConfigView>,
    config_id: u128,
    task: u128,
    c: PushConfigView,
)
    ensures
        without(rows, config_id, task).contains(c) <==> rows.contains(c) && !(c.config_id
            == config_id && c.a2a_task_id == task),
{
    lemma_kept(rows, |c: PushConfigView| !(c.config_id == config_id && c.a2a_task_id == task), c);
}

/// One more registration counts toward a caller's cap exactly where it is the caller's, on the task and
/// active.
pub proof fn law_active_registrations_of_a_caller_count(
    rows: Seq<PushConfigView>,
    c: PushConfigView,
    task: u128,
    caller: Seq<char>,
)
    ensures
        active_for(rows.push(c), task, caller) == active_for(rows, task, caller) + (if c.a2a_task_id
            == task && c.created_by == caller && c.state == PushState::Active {
            1nat
        } else {
            0nat
        }),
        active_for(Seq::empty(), task, caller) == 0,
{
    reveal(Seq::filter);
    assert(rows.push(c).drop_last() =~= rows);
}

/// A sweep deletes the oldest tasks that are over and past their days, up to a batch, and nothing where
/// the days or the batch are not positive.
pub proof fn law_sweep_takes_the_oldest(
    out: Seq<usize>,
    tasks: Seq<RetainedTask>,
    ttl_days: i64,
    batch: i64,
    now: i64,
    i: int,
)
    requires
        is_sweep(out, tasks, ttl_days, batch, now),
        0 <= i < tasks.len(),
    ensures
        ttl_days <= 0 || batch <= 0 ==> out.len() == 0,
        ttl_days > 0 && batch > 0 ==> out.len() <= batch,
        forall|a: int|
            0 <= a < out.len() ==> (#[trigger] out[a]) < tasks.len() && tasks[out[a] as int].created_at
                < now - ttl_days * 86_400_000_000 && (tasks[out[a] as int].has_final
                || crate::a2a::model::terminal(
                crate::a2a::model::state_of_wire(tasks[out[a] as int].state@),
            )),
        ttl_days > 0 && batch > 0 && tasks[i].has_final && tasks[i].created_at < now - ttl_days
            * 86_400_000_000 ==> (exists|a: int| 0 <= a < out.len() && #[trigger] out[a] == i) || (
        out.len() == batch && forall|a: int|
            0 <= a < out.len() ==> tasks[(#[trigger] out[a]) as int].created_at
                <= tasks[i].created_at),
{
    if ttl_days > 0 && batch > 0 {
        let all = choose|all: Seq<usize>|
            #[trigger] arranges(all, sweepable(tasks, ttl_days, now), tasks_by_age(tasks)) && out
                == all.take(if all.len() <= batch {
                all.len() as int
            } else {
                batch as int
            });
        assert forall|a: int| 0 <= a < out.len() implies (#[trigger] out[a]) < tasks.len()
            && tasks[out[a] as int].created_at < now - ttl_days * 86_400_000_000 && (
        tasks[out[a] as int].has_final || crate::a2a::model::terminal(
            crate::a2a::model::state_of_wire(tasks[out[a] as int].state@),
        )) by {
            assert(all[a] == out[a]);
            assert(sweepable(tasks, ttl_days, now)[all[a] as int]);
        }
        if tasks[i].has_final && tasks[i].created_at < now - ttl_days * 86_400_000_000 {
            assert(sweepable(tasks, ttl_days, now)[i]);
            let at = choose|a: int| 0 <= a < all.len() && #[trigger] all[a] == i;
            if at < out.len() {
                assert(out[at] == i);
            } else {
                assert forall|a: int| 0 <= a < out.len() implies tasks[(
                #[trigger] out[a]) as int].created_at <= tasks[i].created_at by {
                    assert(all[a] == out[a]);
                    assert(all[at] == i);
                }
            }
        }
    }
}

} // verus!
