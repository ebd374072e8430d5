//! What a registration is answered, how a URL is resolved, and what is shown of a run.

use vstd::arithmetic::power2::pow2;
use vstd::prelude::*;
use vstd::utf8::encode_utf8;

use crate::a2a::auth::{
    carries, granted, in_text_order, is_permission, law_permissions_survive_the_header, AuthRefusal,
    Claims, IdentityHeaders,
};
use crate::a2a::handler::{
    is_answer, is_seal, is_too_long, token_too_long, PushConfig, TokenSeal, WireConfigView,
};
use crate::a2a::lifecycle::{is_provenance, Pending};
use crate::a2a::model::{meta_i64, A2aError, ErrorKind, JsonView, Metadata};
use crate::a2a::push_crypto::{decrypted, Key};
use crate::a2a::ssrf::{
    name_to_resolve, webhook_answer, ResolveError, SsrfError, SsrfPolicy, ValidatedWebhook,
};
use crate::db::code_chunks::{is_trace, same_lines, ChunkRow, CodeChunk};
use crate::db::model_overrides::{is_place, ModelOverride};
use crate::db::pending_actions::{is_line_at, InlineView};
use crate::db::push_notifications::PushConfigRow;
use crate::db::repo_settings::{set_repo_settings, RepoSettings, RepoSettingsPatch};
use crate::db::repositories::{is_place_of, RepositoryRecord, RepositoryView};
use crate::db::reviews::{is_review_at, ReviewView};
use crate::db::tasks::{renewed, task_row, TaskRecord, TaskRow, TaskView};
use crate::ids::{text_of_uuid, uuid_of_text};
use crate::json::Json;
use crate::net::{ip_text, is_header_value, HostView, IpAddr, IpNet, UrlView};
use crate::order;
use crate::order::is_first;
use crate::platform::Platform;
use crate::text::{decimal, joined, opt_view, parsed_int, text_le, views};

verus! {

/// A registration is accepted only without a tenant, for a task of the caller's own, below the cap; it is
/// stored for the caller with its URL, and its token only encrypted, so that it decrypts to what was
/// given.
pub proof fn law_accepted_registration_is_the_callers<
    F: Fn(&str) -> Result<Vec<IpAddr>, ResolveError>,
>(
    r: Result<(PushConfigRow, PushConfig), A2aError>,
    caller: Seq<char>,
    req: WireConfigView,
    owned: bool,
    active: i64,
    cap: i64,
    policy: SsrfPolicy,
    resolve: F,
    key: Option<&Key>,
    config_id: u128,
    now: i64,
)
    requires
        is_answer(
            r,
            caller,
            req,
            owned,
            active,
            cap,
            policy,
            resolve,
            key,
            config_id,
            now,
        ),
    ensures
        r matches Ok(done) ==> {
            &&& req.tenant is None
            &&& owned
            &&& active < cap
            &&& uuid_of_text(req.task_id) == Some(done.0@.a2a_task_id)
            &&& done.0@.created_by == caller
            &&& done.0@.url == req.url
            &&& req.token is None ==> done.0@.token_enc is None
            &&& req.token is Some ==> key is Some && done.0@.token_enc is Some && decrypted(
                key->0.raw(),
                done.0@.token_enc->0,
            ) == req.token
        },
        req.tenant is Some ==> r is Err && r->Err_0@.kind == ErrorKind::UnsupportedOperation,
        req.tenant is None && (!owned || uuid_of_text(req.task_id) is None) ==> r is Err
            && r->Err_0@.kind == ErrorKind::TaskNotFound,
        req.tenant is None && owned && uuid_of_text(req.task_id) is Some && active >= cap ==> r
            is Err && r->Err_0@.kind == ErrorKind::InvalidParams && r->Err_0@.message
            == "push-notification config limit reached for this "@ + "task ("@ + decimal(
            active as int,
        ) + " of "@ + decimal(cap as int)
            + " used); delete an existing config before registering another"@,
        req.token is Some && key is None ==> r is Err,
{
}

/// A token is sealed exactly where there is one and a key to seal it under; what is stored decrypts to it.
pub proof fn law_token_is_sealed_under_the_key(
    seal: TokenSeal,
    token: Option<Seq<char>>,
    key: Option<&Key>,
)
    requires
        is_seal(seal, token, key),
    ensures
        seal is NoToken <==> token is None,
        seal is NoKey <==> token is Some && key is None,
        seal matches TokenSeal::Sealed(stored) ==> key is Some && decrypted(key->0.raw(), stored@)
            == token,
{
}

/// A token is too long exactly where it is to be encrypted and has more bytes than the cipher takes.
pub proof fn law_long_token_is_refused(token: Seq<char>, key: Option<&Key>)
    ensures
        is_too_long(Some(token), key) <==> key is Some && encode_utf8(token).len()
            > 274_877_906_880,
        !is_too_long(None, key),
        token_too_long().kind == ErrorKind::InvalidParams,
        token_too_long().message == "webhook auth token is too long"@,
{
}

/// A name is resolved exactly where the URL is an `https` one with a domain for its host and no port but
/// the common one; an address is not resolved.
pub proof fn law_only_a_fit_domain_is_resolved(url: UrlView, reason: Seq<char>)
    ensures
        name_to_resolve(Err(reason)) is None,
        name_to_resolve(Ok(url)) matches Some(name) ==> url.host == Some(HostView::Domain(name)),
        name_to_resolve(Ok(url)) is Some <==> url.scheme == "https"@ && (url.port is None
            || url.port == Some(443u16)) && (url.host matches Some(HostView::Domain(name))
            && name.len() > 0),
{
    match url.host {
        Some(HostView::Domain(name)) => {
            if name.len() == 0 {
                assert(name =~= Seq::empty());
            }
        },
        _ => {},
    }
}

/// An accepted webhook is the URL that was given, pinned to its own address or to all that its name
/// resolved to.
pub proof fn law_accepted_webhook_pins_its_addresses(
    r: Result<ValidatedWebhook, SsrfError>,
    parsed: Result<UrlView, Seq<char>>,
    resolution: Result<Seq<IpAddr>, ResolveError>,
    policy: SsrfPolicy,
)
    requires
        webhook_answer(r, parsed, resolution, policy),
    ensures
        r matches Ok(hook) ==> {
            &&& parsed == Ok::<UrlView, Seq<char>>(hook.url@)
            &&& hook.url@.host matches Some(HostView::V4(n)) ==> hook.pinned_ips@
                == seq![IpAddr::V4(n)]
            &&& hook.url@.host matches Some(HostView::V6(n)) ==> hook.pinned_ips@
                == seq![IpAddr::V6(n)]
            &&& hook.url@.host matches Some(HostView::Domain(_)) ==> resolution == Ok::<
                Seq<IpAddr>,
                ResolveError,
            >(hook.pinned_ips@)
        },
        parsed is Err ==> r == Err::<ValidatedWebhook, SsrfError>(SsrfError::InvalidUrl),
{
    if r is Ok {
        crate::laws::webhooks::law_webhook_is_accepted_by_every_check(parsed, resolution, policy);
    }
}

/// A number in the metadata is read as a number or as a numeral, and nothing else is one.
pub proof fn law_metadata_number_is_read(
    metadata: &Option<Metadata>,
    key: &str,
    r: Option<i64>,
)
    requires
        call_ensures(meta_i64, (metadata, key), r),
    ensures
        metadata is None ==> r is None,
        metadata matches Some(m) ==> !m@.dom().contains(key@) ==> r is None,
        metadata matches Some(m) ==> m@.dom().contains(key@) ==> match m@[key@] {
            JsonView::Int(n) => r == Some(n),
            JsonView::Str(s) => match parsed_int(s, i64::MIN as int, i64::MAX as int) {
                Some(v) => r == Some(v as i64),
                None => r is None,
            },
            _ => r is None,
        },
{
}

/// A request that is not let in is told why in a sentence of its own.
pub proof fn law_refusals_have_their_sentences(why: &AuthRefusal, r: &'static str)
    requires
        call_ensures(AuthRefusal::message, (why,), r),
    ensures
        *why == AuthRefusal::MissingToken ==> r@ == "missing bearer token"@,
        *why == AuthRefusal::InvalidToken ==> r@ == "invalid token"@,
        *why == AuthRefusal::UnrepresentableIdentity ==> r@ == "unrepresentable identity"@,
{
}

/// Settings are stored with who set them and when; a repository that has none starts with nothing
/// overridden.
pub proof fn law_settings_are_stored_with_who_set_them(
    stored: Option<RepoSettings>,
    patch: &RepoSettingsPatch,
    by: &str,
    now: i64,
    r: RepoSettings,
)
    requires
        call_ensures(set_repo_settings, (stored, patch, by, now), r),
    ensures
        r.set_by@ == by@,
        r.updated_at == now,
        patch@.review_on_push matches Some(v) ==> r.settings@.review_on_push == v,
        patch@.review_on_push is None && stored is None ==> r.settings@.review_on_push is None,
        patch@.review_on_push is None && stored is Some ==> r.settings@.review_on_push
            == stored->0.settings@.review_on_push,
        patch@.review_on_pr_open is None && stored is None ==> r.settings@.review_on_pr_open is None,
        patch@.check_run_reporting is None && stored is None ==> r.settings@.check_run_reporting
            is None,
        patch@.push_strategy is None && stored is None ==> r.settings@.push_strategy is None,
        patch@.push_debounce_seconds is None && stored is None
            ==> r.settings@.push_debounce_seconds is None,
        patch@.dedup_scope is None && stored is None ==> r.settings@.dedup_scope is None,
{
}

/// A run is shown as it is, with the names of its repository where that is there.
pub proof fn law_run_is_shown_as_it_is(
    t: &TaskRecord,
    repo: Option<&RepositoryRecord>,
    r: TaskRow,
)
    requires
        call_ensures(task_row, (t, repo), r),
    ensures
        r.id == t@.id,
        r.repository_id == t@.repository_id,
        r.installation_id == t@.installation_id,
        opt_view(r.webhook_delivery_id) == t@.webhook_delivery_id,
        r.target_type@ == t@.target_type,
        r.target_id == t@.target_id,
        r.command_text@ == t@.command_text,
        r.kind@ == t@.kind,
        opt_view(r.base_sha) == t@.base_sha,
        opt_view(r.head_sha) == t@.head_sha,
        r.status == t@.status,
        r.priority == t@.priority,
        r.created_at == t@.created_at,
        r.started_at == t@.started_at,
        r.completed_at == t@.completed_at,
        opt_view(r.job_name) == t@.job_name,
        opt_view(r.error_detail) == t@.error_detail,
        repo is None ==> r.repo_owner is None && r.repo_name is None && r.repo_default_branch is None
            && r.repo_platform is None,
        repo matches Some(known) ==> opt_view(r.repo_owner) == Some(known.owner@) && opt_view(
            r.repo_name,
        ) == Some(known.name@) && opt_view(r.repo_default_branch) == Some(known.default_branch@)
            && r.repo_platform == Some(known.platform),
{
}

/// Storing the chunks of a commit loses no chunk that was there, and afterwards the lines of each of them
/// are indexed.
pub proof fn law_stored_chunks_are_indexed<C>(
    trace: Seq<Seq<ChunkRow<C>>>,
    repository_id: i64,
    commit: Seq<char>,
    chunks: Seq<CodeChunk<C>>,
    now: i64,
    k: int,
    i: int,
)
    requires
        is_trace(trace, repository_id, commit, chunks, now),
        0 <= k < chunks.len(),
        0 <= i < trace[0].len(),
    ensures
        trace.len() == chunks.len() + 1,
        i < trace.last().len(),
        trace.last()[i].id == trace[0][i].id,
        trace.last()[i].repository_id == trace[0][i].repository_id,
        trace.last()[i].commit_sha == trace[0][i].commit_sha,
        trace.last()[i].file_path == trace[0][i].file_path,
        exists|j: int|
            0 <= j < trace.last().len() && (#[trigger] trace.last()[j]).repository_id
                == repository_id && trace.last()[j].commit_sha@ == commit
                && trace.last()[j].file_path@ == chunks[k].file_path@ && trace.last()[j].start_line
                == chunks[k].start_line && trace.last()[j].end_line == chunks[k].end_line,
{
    lemma_row_stays(trace, repository_id, commit, chunks, now, 0, i);
    assert(crate::db::code_chunks::is_stored(
        trace[k],
        trace[k + 1],
        repository_id,
        commit,
        chunks[k],
        now,
    ));
    let j = lemma_chunk_is_there(trace[k], trace[k + 1], repository_id, commit, chunks[k], now);
    lemma_row_stays(trace, repository_id, commit, chunks, now, k + 1, j);
    assert(trace.last()[j].repository_id == repository_id);
}

proof fn lemma_chunk_is_there<C>(
    before: Seq<ChunkRow<C>>,
    after: Seq<ChunkRow<C>>,
    repository_id: i64,
    commit: Seq<char>,
    c: CodeChunk<C>,
    now: i64,
) -> (j: int)
    requires
        crate::db::code_chunks::is_stored(before, after, repository_id, commit, c, now),
    ensures
        0 <= j < after.len(),
        same_lines(after[j], repository_id, commit, c),
{
    if exists|k: int|
        {
            &&& 0 <= k < before.len()
            &&& same_lines(#[trigger] before[k], repository_id, commit, c)
            &&& after == before.update(k, ChunkRow { content: c.content, ..before[k] })
        } {
        choose|k: int|
            {
                &&& 0 <= k < before.len()
                &&& same_lines(#[trigger] before[k], repository_id, commit, c)
                &&& after == before.update(k, ChunkRow { content: c.content, ..before[k] })
            }
    } else {
        after.len() - 1
    }
}

proof fn lemma_row_stays<C>(
    trace: Seq<Seq<ChunkRow<C>>>,
    repository_id: i64,
    commit: Seq<char>,
    chunks: Seq<CodeChunk<C>>,
    now: i64,
    from: int,
    i: int,
)
    requires
        is_trace(trace, repository_id, commit, chunks, now),
        0 <= from <= chunks.len(),
        0 <= i < trace[from].len(),
    ensures
        i < trace.last().len(),
        trace.last()[i].id == trace[from][i].id,
        trace.last()[i].repository_id == trace[from][i].repository_id,
        trace.last()[i].commit_sha == trace[from][i].commit_sha,
        trace.last()[i].file_path == trace[from][i].file_path,
        trace.last()[i].start_line == trace[from][i].start_line,
        trace.last()[i].end_line == trace[from][i].end_line,
    decreases chunks.len() - from,
{
    if from < chunks.len() {
        assert(crate::db::code_chunks::is_stored(
            trace[from],
            trace[from + 1],
            repository_id,
            commit,
            chunks[from],
            now,
        ));
        crate::laws::index::law_stored_chunk_replaces_its_own_lines(
            trace[from],
            trace[from + 1],
            repository_id,
            commit,
            chunks[from],
            now,
            i,
        );
        lemma_row_stays(trace, repository_id, commit, chunks, now, from + 1, i);
    }
}

/// A renewed lease runs from now on, as long as it is asked for, and nothing else of the run changes.
pub proof fn law_renewed_lease_runs_from_now(t: TaskView, lease: u64, now: i64)
    ensures
        ({
            let r = renewed(t, lease, now);
            &&& r.lease_expires_at == Some((now + lease) as i128)
            &&& r.lease_expires_at->0 == now + lease
            &&& r.status == t.status
            &&& r.lease_owner == t.lease_owner
            &&& r.attempts == t.attempts
            &&& r.started_at == t.started_at
            &&& r.id == t.id
            &&& r == (TaskView { lease_expires_at: r.lease_expires_at, ..t })
        }),
{
}

/// An admitted submission is recorded with where it came from: the agent interface, who asked, for which
/// skill, repository and pull request, and under which task.
pub proof fn law_submission_is_recorded_with_its_source(value: Json, pending: Pending)
    requires
        is_provenance(value, pending),
    ensures
        value is Object,
        ({
            let m = value->Object_0@;
            &&& m.len() == 6
            &&& m[0].0@ == "source"@ && m[0].1 is Str && m[0].1->Str_0@ == "a2a"@
            &&& m[1].0@ == "caller"@ && m[1].1 is Str && m[1].1->Str_0@ == pending.caller_id@
            &&& m[2].0@ == "skill"@ && m[2].1 is Str && m[2].1->Str_0@ == "review"@
            &&& m[3].0@ == "repo"@ && m[3].1 is Str && m[3].1->Str_0@ == pending.input.owner@ + "/"@
                + pending.input.name@
            &&& m[4].0@ == "pr"@ && m[4].1 == Json::Int(pending.input.pr)
            &&& m[5].0@ == "a2a_task_id"@ && m[5].1 is Str && m[5].1->Str_0@ == text_of_uuid(
                pending.a2a_task_id,
            )
        }),
{
}

/// A request that is let in carries the subject of its token and, in text order, every permission of
/// the token and no other.
pub proof fn law_identity_is_that_of_the_token(h: IdentityHeaders, claims: Claims)
    requires
        carries(h, claims),
        forall|i: int|
            0 <= i < claims.permissions@.len() ==> {
                let p = #[trigger] views(claims.permissions@)[i];
                p.len() > 0 && !p.contains(',')
            },
    ensures
        h.caller@ == claims.sub@,
        granted(Some(h.perms@)).to_multiset() == views(claims.permissions@).to_multiset(),
        forall|i: int, j: int|
            0 <= i < j < granted(Some(h.perms@)).len() ==> text_le(
                #[trigger] granted(Some(h.perms@))[i],
                #[trigger] granted(Some(h.perms@))[j],
            ),
{
    let given = views(claims.permissions@);
    let sorted = choose|sorted: Seq<Seq<char>>|
        in_text_order(sorted) && sorted.to_multiset() == given.to_multiset() && h.perms@
            == #[trigger] joined(sorted, ","@);
    sorted.to_multiset_ensures();
    given.to_multiset_ensures();
    assert forall|i: int| 0 <= i < sorted.len() implies is_permission(#[trigger] sorted[i]) by {
        assert(sorted.contains(sorted[i]));
        assert(sorted.to_multiset().count(sorted[i]) > 0);
        assert(given.contains(sorted[i]));
        let k = choose|k: int| 0 <= k < given.len() && given[k] == sorted[i];
        assert(given[k].len() > 0);
    }
    law_permissions_survive_the_header(sorted);
}

/// A webhook that is refused is told why in a sentence of its own.
pub proof fn law_refused_webhook_is_told_why(e: &SsrfError, r: String)
    requires
        call_ensures(SsrfError::message, (e,), r),
    ensures
        *e == SsrfError::InvalidUrl ==> r@ == "webhook URL did not parse"@,
        *e == SsrfError::NotHttps ==> r@ == "webhook URL must use the https scheme"@,
        *e == SsrfError::MissingHost ==> r@ == "webhook URL has no host"@,
        e matches SsrfError::DisallowedPort(p) ==> r@ == "webhook URL port "@ + decimal(*p as int)
            + " is not allowed (only 443)"@,
        *e == SsrfError::Resolution ==> r@ == "webhook host could not be resolved"@,
        e matches SsrfError::BlockedAddress(ip) ==> r@
            == "webhook host resolves to a blocked address "@ + ip_text(*ip),
        *e == SsrfError::NoAddresses ==> r@ == "webhook host resolved to no addresses"@,
{
}

/// An IPv4 address is written as its four octets with dots between.
pub proof fn law_ipv4_is_written_in_octets(a: u8, b: u8, c: u8, d: u8, r: IpAddr)
    requires
        call_ensures(IpAddr::v4, (a, b, c, d), r),
    ensures
        ip_text(r) == decimal(a as int) + "."@ + decimal(b as int) + "."@ + decimal(c as int) + "."@
            + decimal(d as int),
        r matches IpAddr::V4(n) ==> n == 16_777_216 * a + 65_536 * b + 256 * c + d,
{
    let n = r->V4_0 as int;
    lemma_octets(a as int, b as int, c as int, d as int, n);
}

proof fn lemma_octets(a: int, b: int, c: int, d: int, n: int)
    requires
        0 <= a < 256,
        0 <= b < 256,
        0 <= c < 256,
        0 <= d < 256,
        n == a * 0x100_0000 + b * 0x1_0000 + c * 0x100 + d,
    ensures
        n / 0x100_0000 == a,
        n / 0x1_0000 % 0x100 == b,
        n / 0x100 % 0x100 == c,
        n % 0x100 == d,
{
    let high = a * 0x1_0000 + b * 0x100 + c;
    assert(n == high * 0x100 + d);
    assert(n / 0x100 == high && n % 0x100 == d);
    let higher = a * 0x100 + b;
    assert(n == higher * 0x1_0000 + (c * 0x100 + d));
    assert(n / 0x1_0000 == higher);
    assert(high == higher * 0x100 + c);
}

/// A network fixes no more bits than its addresses have; one that fixes all of them holds its own address
/// alone, one that fixes none holds every address of its family, and none holds one of the other.
pub proof fn law_network_holds_what_agrees_with_it(
    addr: IpAddr,
    prefix: u8,
    r: Option<IpNet>,
    ip: IpAddr,
)
    requires
        call_ensures(IpNet::new, (addr, prefix), r),
    ensures
        addr is V4 ==> (r is Some <==> prefix <= 32),
        addr is V6 ==> (r is Some <==> prefix <= 128),
        r matches Some(net) ==> {
            &&& addr is V4 && ip is V6 ==> !net.holds(ip)
            &&& addr is V6 && ip is V4 ==> !net.holds(ip)
            &&& addr is V4 && prefix == 32 ==> (net.holds(ip) <==> ip == addr)
            &&& addr is V6 && prefix == 128 ==> (net.holds(ip) <==> ip == addr)
            &&& addr is V4 && ip is V4 && prefix == 24 ==> (net.holds(ip) <==> ip->V4_0 as int / 256
                == addr->V4_0 as int / 256)
            &&& addr is V4 && ip is V4 && prefix == 8 ==> (net.holds(ip) <==> ip->V4_0 as int
                / 16_777_216 == addr->V4_0 as int / 16_777_216)
            &&& net.holds(addr)
        },
{
    vstd::arithmetic::power2::lemma2_to64();
    match (addr, ip) {
        (IpAddr::V4(a), IpAddr::V4(b)) => {
            let p = pow2((32 - prefix) as nat) as int;
            lemma_same_quotient(a as int, b as int, p);
            if prefix == 24 {
                assert((32 - prefix) as nat == 8);
            }
            if prefix == 8 {
                assert((32 - prefix) as nat == 24);
            }
        },
        (IpAddr::V6(a), IpAddr::V6(b)) => {
            lemma_same_quotient(a as int, b as int, pow2((128 - prefix) as nat) as int);
        },
        _ => {},
    }
}

proof fn lemma_same_quotient(a: int, b: int, p: int)
    ensures
        p == 1 ==> (a / p == b / p <==> a == b),
        p == 256 ==> a / p == a / 256 && b / p == b / 256,
        p == 16_777_216 ==> a / p == a / 16_777_216 && b / p == b / 16_777_216,
{
    assert(p == 1 ==> a / p == a && b / p == b) by (nonlinear_arith);
}

/// A header value is made of tabs and of bytes from the space up without the delete byte.
pub proof fn law_header_value_has_no_control_bytes(s: Seq<char>, i: int)
    requires
        0 <= i < encode_utf8(s).len(),
    ensures
        is_header_value(s) ==> encode_utf8(s)[i] == 9 || 32 <= encode_utf8(s)[i] <= 126
            || encode_utf8(s)[i] >= 128,
        (forall|k: int|
            0 <= k < encode_utf8(s).len() ==> (#[trigger] encode_utf8(s)[k]) == 9 || 32
                <= encode_utf8(s)[k] <= 126 || encode_utf8(s)[k] >= 128) ==> is_header_value(s),
{
}

/// The first of what is selected is one place: it is selected, and of the selected ones that stand no
/// later it is the lowest.
pub proof fn law_first_is_one_place(selected: Seq<bool>, keys: Seq<order::Key>, i: int, j: int)
    requires
        is_first(i, selected, keys),
        is_first(j, selected, keys),
    ensures
        i == j,
        selected[i],
        forall|k: int| 0 <= k < i && #[trigger] selected[k] ==> keys[k] != keys[i],
{
}

/// Of several rows under one key the first is the one that is read: the place is one.
pub proof fn law_place_is_one(
    repositories: Seq<RepositoryView>,
    platform: Platform,
    number: i64,
    reviews: Seq<ReviewView>,
    task_id: u128,
    inline: Seq<InlineView>,
    file: Seq<char>,
    line: i32,
    overrides: Seq<ModelOverride>,
    scope_id: i64,
    i: int,
    j: int,
)
    ensures
        is_place_of(repositories, platform, number, i) && is_place_of(
            repositories,
            platform,
            number,
            j,
        ) ==> i == j,
        is_review_at(reviews, task_id, i) && is_review_at(reviews, task_id, j) ==> i == j,
        is_line_at(inline, file, line, i) && is_line_at(inline, file, line, j) ==> i == j,
        is_place(overrides, scope_id, i) && is_place(overrides, scope_id, j) ==> i == j,
{
}

} // verus!
