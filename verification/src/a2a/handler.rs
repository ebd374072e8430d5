//! The answers to a caller's requests: reading, cancelling and streaming a task, and registering
//! webhooks on it.
//!
//! Every request is scoped to its caller. A task that is unknown, or belongs to someone else, is
//! answered alike: it is not there.

use vstd::prelude::*;
use vstd::utf8::encode_utf8;

use crate::a2a::lifecycle::{
    build_task_snapshot, current_state, is_artifact_of, no_tenants, state_now, underlying_metadata,
    view_metadata, ReviewRecord, RunRow,
};
use crate::a2a::limits::{streams_of, with_streams, HandlerLimits, StreamCounters};
use crate::a2a::mapping::build_task_view;
use crate::a2a::model::{
    error_view, meta_map, not_cancelable, not_found, terminal, A2aError, ErrorKind, ErrorView, Task,
    TaskState,
};
use crate::a2a::push_crypto;
use crate::a2a::push_crypto::{decrypted, Key, MAX_PLAINTEXT_LEN};
use crate::a2a::ssrf;
use crate::a2a::ssrf::{
    is_resolution, name_to_resolve, resolution_view, ssrf_message, webhook_answer, ResolveError,
    SsrfError, SsrfPolicy, ValidatedWebhook,
};
use crate::a2a::store::Mapping;
use crate::a2a::streaming::{failure_error, Failure};
use crate::db::push_notifications;
use crate::db::push_notifications::{fresh_config, PushConfigRow, PushConfigView};
use crate::ids;
use crate::ids::{text_of_uuid, uuid_of_text};
use crate::net::{url_of_text, IpAddr};
use crate::text;
use crate::text::{decimal, opt_view};

verus! {

/// The answer to a failure inside: it says nothing of what failed.
pub open spec fn internal_error() -> ErrorView {
    error_view(ErrorKind::Internal, "internal error"@)
}

/// The answer to a database failure.
pub fn db_error() -> (r: A2aError)
    ensures
        r@ == internal_error(),
{
    A2aError::new(ErrorKind::Internal, "internal error")
}

/// The task a request names.
pub fn task_key(id: &str) -> (r: Result<u128, A2aError>)
    ensures
        match uuid_of_text(id@) {
            Some(key) => r == Ok::<u128, A2aError>(key),
            None => r matches Err(e) && e@ == not_found(id@),
        },
{
    match ids::parse_uuid(id) {
        Some(key) => Ok(key),
        None => Err(A2aError::task_not_found(id)),
    }
}

/// Answers a read: the task as it stands, for the caller that owns it.
pub fn get_task(
    id: &str,
    owned: Option<Mapping>,
    run: &Option<RunRow>,
    review: Option<ReviewRecord>,
) -> (r: Result<Task, A2aError>)
    ensures
        match r {
            Err(e) => (uuid_of_text(id@) is None || owned is None) && e@ == not_found(id@),
            Ok(task) => {
                let state = state_now(owned->0.underlying_task_id, owned->0.state@, *run);
                let shows = state == TaskState::Completed && owned->0.underlying_task_id is Some
                    && review is Some;
                &&& uuid_of_text(id@) is Some
                &&& owned is Some
                &&& task.id@ == id@
                &&& task.context_id@ == owned->0.context_id@
                &&& task.state == state
                &&& task.artifacts is Some <==> shows
                &&& task.artifacts matches Some(artifacts) ==> artifacts@.len() == 1
                    && is_artifact_of(artifacts@[0], review->0, *run)
                &&& task.metadata is Some <==> owned->0.underlying_task_id is Some
                &&& meta_map(task.metadata) == view_metadata(owned->0.underlying_task_id)
            },
        },
{
    match task_key(id) {
        Err(e) => Err(e),
        Ok(_) => match owned {
            None => Err(A2aError::task_not_found(id)),
            Some(mapping) => Ok(build_task_snapshot(id, &mapping, run, review)),
        },
    }
}

/// What to do about a cancellation that is granted.
#[derive(Debug)]
pub struct Cancellation {
    pub a2a_task_id: u128,
    pub context_id: String,
    /// The run to cancel, where the task fronts one.
    pub underlying_task_id: Option<u128>,
    /// The task as the caller is answered.
    pub task: Task,
}

/// The error of a cancellation, if it is not granted: a task that is not the caller's is not there, and
/// a finished one cannot be cancelled.
pub open spec fn cancel_refusal(
    id: Seq<char>,
    owned: Option<Mapping>,
    run: Option<RunRow>,
) -> Option<ErrorView> {
    match (uuid_of_text(id), owned) {
        (Some(_), Some(m)) => if terminal(state_now(m.underlying_task_id, m.state@, run)) {
            Some(not_cancelable(id))
        } else {
            None
        },
        _ => Some(not_found(id)),
    }
}

/// Answers a cancellation.
pub fn cancel_task(id: &str, owned: Option<Mapping>, run: &Option<RunRow>) -> (r: Result<
    Cancellation,
    A2aError,
>)
    ensures
        match cancel_refusal(id@, owned, *run) {
            Some(e) => r matches Err(x) && x@ == e,
            None => r matches Ok(c) && {
                &&& c.a2a_task_id == uuid_of_text(id@)->0
                &&& c.context_id@ == owned->0.context_id@
                &&& c.underlying_task_id == owned->0.underlying_task_id
                &&& c.task.id@ == id@
                &&& c.task.context_id@ == owned->0.context_id@
                &&& c.task.state == TaskState::Canceled
                &&& c.task.artifacts is None
                &&& c.task.metadata is Some <==> owned->0.underlying_task_id is Some
                &&& meta_map(c.task.metadata) == view_metadata(owned->0.underlying_task_id)
            },
        },
{
    let a2a_task_id: u128 = match task_key(id) {
        Err(e) => return Err(e),
        Ok(key) => key,
    };
    let mapping: Mapping = match owned {
        None => return Err(A2aError::task_not_found(id)),
        Some(mapping) => mapping,
    };
    let state: TaskState = current_state(&mapping, run);
    if state.is_terminal() {
        return Err(A2aError::task_not_cancelable(id));
    }
    let task: Task = build_task_view(
        id,
        mapping.context_id.as_str(),
        TaskState::Canceled,
        None,
        underlying_metadata(mapping.underlying_task_id),
    );
    Ok(
        Cancellation {
            a2a_task_id,
            context_id: mapping.context_id,
            underlying_task_id: mapping.underlying_task_id,
            task,
        },
    )
}

/// The stored task, cancelled: what a cancellation writes back under the version it was read at.
pub fn canceled_snapshot(stored: Task) -> (r: Task)
    ensures
        r == (Task { state: TaskState::Canceled, ..stored }),
{
    Task { state: TaskState::Canceled, ..stored }
}

/// A finished task stays finished: cancelling it is refused, and changes nothing.
pub proof fn law_finished_task_is_not_cancelable(
    id: Seq<char>,
    owned: Option<Mapping>,
    run: Option<RunRow>,
)
    requires
        uuid_of_text(id) is Some,
        owned is Some,
        terminal(state_now(owned->0.underlying_task_id, owned->0.state@, run)),
    ensures
        cancel_refusal(id, owned, run) == Some(not_cancelable(id)),
{
}

/// Admits a stream for a caller below its cap, and counts it.
pub fn admit_stream(counters: &mut StreamCounters, caller: &str, limits: &HandlerLimits) -> (r:
    Result<(), A2aError>)
    ensures
        match r {
            Ok(_) => streams_of(old(counters)@, caller@) < limits.max_streams_per_caller
                && final(counters)@ == with_streams(
                old(counters)@,
                caller@,
                (streams_of(old(counters)@, caller@) + 1) as u32,
            ),
            Err(e) => streams_of(old(counters)@, caller@) >= limits.max_streams_per_caller && e@
                == failure_error(Failure::Capacity) && final(counters)@ == old(counters)@,
        },
{
    if counters.try_acquire(caller, limits.max_streams_per_caller) {
        Ok(())
    } else {
        Err(Failure::Capacity.error())
    }
}

/// Answers a request to list tasks.
pub fn list_tasks() -> (r: A2aError)
    ensures
        r@ == error_view(
            ErrorKind::UnsupportedOperation,
            "ListTasks is not supported in this phase"@,
        ),
{
    A2aError::new(ErrorKind::UnsupportedOperation, "ListTasks is not supported in this phase")
}

/// Answers a request for the extended card.
pub fn get_extended_agent_card() -> (r: A2aError)
    ensures
        r@ == error_view(
            ErrorKind::UnsupportedOperation,
            "extended agent card is not configured"@,
        ),
{
    A2aError::new(ErrorKind::UnsupportedOperation, "extended agent card is not configured")
}

/// How a webhook wants to be authenticated to.
#[derive(Debug)]
pub struct Authentication {
    pub scheme: String,
    pub credentials: Option<String>,
}

/// A webhook registration on the wire.
#[derive(Debug)]
pub struct PushConfig {
    pub url: String,
    pub id: Option<String>,
    pub task_id: String,
    pub token: Option<String>,
    pub authentication: Option<Authentication>,
    pub tenant: Option<String>,
}

/// The mathematical value of a [`PushConfig`].
pub struct WireConfigView {
    pub url: Seq<char>,
    pub id: Option<Seq<char>>,
    pub task_id: Seq<char>,
    pub token: Option<Seq<char>>,
    pub authentication: Option<Authentication>,
    pub tenant: Option<Seq<char>>,
}

impl View for PushConfig {
    type V = WireConfigView;

    open spec fn view(&self) -> WireConfigView {
        WireConfigView {
            url: self.url@,
            id: opt_view(self.id),
            task_id: self.task_id@,
            token: opt_view(self.token),
            authentication: self.authentication,
            tenant: opt_view(self.tenant),
        }
    }
}

/// The task a request about webhooks is refused for, if it is: it names a tenant, or a task that is not
/// the caller's.
pub open spec fn scope_refusal(tenant: bool, task_id: Seq<char>, owned: bool) -> Option<ErrorView> {
    if tenant {
        Some(no_tenants())
    } else if uuid_of_text(task_id) is None || !owned {
        Some(not_found(task_id))
    } else {
        None
    }
}

/// The task a request about webhooks is about, once `owned` says whether it is the caller's.
pub fn push_scope(tenant: bool, task_id: &str, owned: bool) -> (r: Result<u128, A2aError>)
    ensures
        match scope_refusal(tenant, task_id@, owned) {
            Some(e) => r matches Err(x) && x@ == e,
            None => r == Ok::<u128, A2aError>(uuid_of_text(task_id@)->0),
        },
{
    if tenant {
        return Err(
            A2aError::new(
                ErrorKind::UnsupportedOperation,
                "multi-tenant A2A requests are not supported",
            ),
        );
    }
    match task_key(task_id) {
        Err(e) => Err(e),
        Ok(key) => if owned {
            Ok(key)
        } else {
            Err(A2aError::task_not_found(task_id))
        },
    }
}

/// The refusal of a registration beyond the cap.
pub open spec fn over_cap(active: i64, cap: i64) -> ErrorView {
    error_view(
        ErrorKind::InvalidParams,
        "push-notification config limit reached for this "@ + "task ("@ + decimal(active as int) + " of "@
            + decimal(cap as int)
            + " used); delete an existing config before registering another"@,
    )
}

/// Refuses a registration once a caller holds as many as it may.
pub fn check_push_cap(active: i64, cap: i64) -> (r: Result<(), A2aError>)
    ensures
        match r {
            Ok(_) => active < cap,
            Err(e) => active >= cap && e@ == over_cap(active, cap),
        },
{
    if active >= cap {
        let mut message: String =
            "push-notification config limit reached for this ".to_owned();
        message.append("task (");
        message.append(text::i64_text(active).as_str());
        message.append(" of ");
        message.append(text::i64_text(cap).as_str());
        message.append(" used); delete an existing config before registering another");
        Err(A2aError { kind: ErrorKind::InvalidParams, message })
    } else {
        Ok(())
    }
}

/// What became of a token that is to be stored encrypted.
#[derive(Debug)]
pub enum TokenSeal {
    /// There is none.
    NoToken,
    /// There is one, and no key to encrypt it with.
    NoKey,
    /// There is one, and no randomness to encrypt it with.
    NoRandomness,
    /// Encrypted.
    Sealed(Vec<u8>),
}

/// Encrypts a token, if there is one and a key. What is sealed decrypts to the token again.
pub fn seal_token(token: Option<&str>, key: Option<&Key>) -> (r: TokenSeal)
    requires
        key is Some && token is Some ==> encode_utf8(token->0@).len() <= MAX_PLAINTEXT_LEN,
    ensures
        match (token, key) {
            (None, _) => r is NoToken,
            (Some(_), None) => r is NoKey,
            (Some(t), Some(k)) => r is NoRandomness || (r matches TokenSeal::Sealed(stored)
                && decrypted(k.raw(), stored@) == Some(t@)),
        },
{
    let t: &str = match token {
        None => return TokenSeal::NoToken,
        Some(t) => t,
    };
    match key {
        None => TokenSeal::NoKey,
        Some(k) => match push_crypto::encrypt(t.as_bytes(), k) {
            Some(stored) => {
                proof {
                    push_crypto::law_decrypt_undoes_encrypt(k.raw(), t@, stored@);
                }
                TokenSeal::Sealed(stored)
            },
            None => TokenSeal::NoRandomness,
        },
    }
}

/// The refusal of a token where it could not be stored encrypted.
pub open spec fn no_token_key() -> ErrorView {
    error_view(
        ErrorKind::InvalidParams,
        "push token encryption is not configured; this server cannot accept a webhook auth token"@,
    )
}

/// The registration as it is echoed: under its own id and the canonical id of its task.
pub open spec fn echo(req: WireConfigView, config_id: u128, task_id: u128) -> WireConfigView {
    WireConfigView { id: Some(text_of_uuid(config_id)), task_id: text_of_uuid(task_id), ..req }
}

/// What a registration leads to, given the verdict on its URL and what became of its token.
pub open spec fn registration(
    r: Result<(PushConfigRow, PushConfig), A2aError>,
    req: WireConfigView,
    task_id: u128,
    caller: Seq<char>,
    verdict: Result<ValidatedWebhook, SsrfError>,
    seal: TokenSeal,
    config_id: u128,
    now: i64,
) -> bool {
    match (verdict, seal) {
        (Err(e), _) => r matches Err(x) && x@ == error_view(
            ErrorKind::InvalidParams,
            ssrf_message(e),
        ),
        (Ok(_), TokenSeal::NoKey) => r matches Err(x) && x@ == no_token_key(),
        (Ok(_), TokenSeal::NoRandomness) => r matches Err(x) && x@ == internal_error(),
        (Ok(_), TokenSeal::NoToken) => r matches Ok(done) && done.0@ == fresh_config(
            config_id,
            task_id,
            req.url,
            None,
            caller,
            now,
        ) && done.1@ == echo(req, config_id, task_id),
        (Ok(_), TokenSeal::Sealed(stored)) => r matches Ok(done) && done.0@ == fresh_config(
            config_id,
            task_id,
            req.url,
            Some(stored@),
            caller,
            now,
        ) && done.1@ == echo(req, config_id, task_id),
    }
}

/// Registers a webhook, given the verdict on its URL and what became of its token: the row to store and
/// the registration to echo. Nothing is stored for a refusal.
pub fn register_push_config(
    req: PushConfig,
    task_id: u128,
    caller: &str,
    verdict: Result<ValidatedWebhook, SsrfError>,
    seal: TokenSeal,
    config_id: u128,
    now: i64,
) -> (r: Result<(PushConfigRow, PushConfig), A2aError>)
    ensures
        registration(r, req@, task_id, caller@, verdict, seal, config_id, now),
{
    if let Err(e) = verdict {
        return Err(A2aError { kind: ErrorKind::InvalidParams, message: e.message() });
    }
    let token_enc: Option<Vec<u8>> = match seal {
        TokenSeal::NoToken => None,
        TokenSeal::Sealed(stored) => Some(stored),
        TokenSeal::NoKey => return Err(
            A2aError::new(
                ErrorKind::InvalidParams,
                "push token encryption is not configured; this server cannot accept a webhook auth token",
            ),
        ),
        TokenSeal::NoRandomness => return Err(db_error()),
    };
    let row: PushConfigRow = push_notifications::insert_push_config(
        config_id,
        task_id,
        req.url.as_str(),
        token_enc,
        caller,
        now,
    );
    let echoed = PushConfig {
        id: Some(ids::uuid_text(config_id)),
        task_id: ids::uuid_text(task_id),
        ..req
    };
    Ok((row, echoed))
}

/// Whether a token is what it was sealed as; without randomness it is not sealed.
pub open spec fn is_seal(seal: TokenSeal, token: Option<Seq<char>>, key: Option<&Key>) -> bool {
    match (token, key) {
        (None, _) => seal is NoToken,
        (Some(_), None) => seal is NoKey,
        (Some(t), Some(k)) => seal is NoRandomness || (seal matches TokenSeal::Sealed(stored)
            && decrypted(k.raw(), stored@) == Some(t)),
    }
}

/// What a registration is answered: a refusal of its scope, then of one more than the cap, and then what
/// the verdict on its URL and the sealing of its token lead to.
pub open spec fn is_answer<F: Fn(&str) -> Result<Vec<IpAddr>, ResolveError>>(
    r: Result<(PushConfigRow, PushConfig), A2aError>,
    caller: Seq<char>,
    req: WireConfigView,
    owned: bool,
    active: i64,
    cap: i64,
    policy: SsrfPolicy,
    resolve: F,
    key: Option<&Key>,
    config_id: u128,
    now: i64,
) -> bool {
    match scope_refusal(req.tenant is Some, req.task_id, owned) {
        Some(e) => r matches Err(x) && x@ == e,
        None => if active >= cap {
            r matches Err(x) && x@ == over_cap(active, cap)
        } else {
            exists|
                answer: Result<Vec<IpAddr>, ResolveError>,
                verdict: Result<ValidatedWebhook, SsrfError>,
                seal: TokenSeal,
            |
                {
                    &&& #[trigger] webhook_answer(
                        verdict,
                        url_of_text(req.url),
                        resolution_view(answer),
                        policy,
                    )
                    &&& is_resolution(answer, url_of_text(req.url), resolve)
                    &&& is_seal(seal, req.token, key)
                    &&& #[trigger] registration(
                        r,
                        req,
                        uuid_of_text(req.task_id)->0,
                        caller,
                        verdict,
                        seal,
                        config_id,
                        now,
                    )
                }
        },
    }
}

/// Answers a registration: scoped to its caller, below the cap, to a public webhook only, with its
/// token encrypted or not accepted. `resolve` is asked only about a request that passes every earlier
/// check, and only by the name in its URL: nothing else need be fit for it to answer.
pub fn create_push_config<F: Fn(&str) -> Result<Vec<IpAddr>, ResolveError>>(
    caller: &str,
    req: PushConfig,
    owned: bool,
    active: i64,
    limits: &HandlerLimits,
    policy: &SsrfPolicy,
    resolve: F,
    key: Option<&Key>,
    config_id: u128,
    now: i64,
) -> (r: Result<(PushConfigRow, PushConfig), A2aError>)
    requires
        scope_refusal(req@.tenant is Some, req@.task_id, owned) is None && active
            < limits.push_config_cap ==> (name_to_resolve(url_of_text(req@.url)) matches Some(domain)
            ==> forall|name: &str|
            name@ == domain ==> #[trigger] call_requires(resolve, (name,))),
        key is Some && req@.token is Some ==> encode_utf8(req@.token->0).len() <= MAX_PLAINTEXT_LEN,
    ensures
        is_answer(
            r,
            caller@,
            req@,
            owned,
            active,
            limits.push_config_cap,
            *policy,
            resolve,
            key,
            config_id,
            now,
        ),
{
    let task_id: u128 = match push_scope(req.tenant.is_some(), req.task_id.as_str(), owned) {
        Err(e) => return Err(e),
        Ok(key) => key,
    };
    if let Err(e) = check_push_cap(active, limits.push_config_cap) {
        return Err(e);
    }
    let verdict = ssrf::validate_webhook_url(req.url.as_str(), policy, resolve);
    let seal: TokenSeal = match &req.token {
        Some(token) => seal_token(Some(token.as_str()), key),
        None => seal_token(None, key),
    };
    let ghost answer = choose|answer: Result<Vec<IpAddr>, ResolveError>|
        webhook_answer(verdict, url_of_text(req@.url), #[trigger] resolution_view(answer), *policy)
            && is_resolution(answer, url_of_text(req@.url), resolve);
    let ghost given_verdict = verdict;
    let ghost given_seal = seal;
    let ghost given = req@;
    let r = register_push_config(req, task_id, caller, verdict, seal, config_id, now);
    assert(webhook_answer(
        given_verdict,
        url_of_text(given.url),
        resolution_view(answer),
        *policy,
    ));
    assert(registration(r, given, task_id, caller@, given_verdict, given_seal, config_id, now));
    r
}

/// The refusal of a token that is too long to be encrypted.
pub open spec fn token_too_long() -> ErrorView {
    error_view(ErrorKind::InvalidParams, "webhook auth token is too long"@)
}

/// Whether a token is to be encrypted and is too long for it.
pub open spec fn is_too_long(token: Option<Seq<char>>, key: Option<&Key>) -> bool {
    key is Some && token is Some && encode_utf8(token->0).len() > MAX_PLAINTEXT_LEN
}

/// Answers a registration with a token of any length, given a resolver that takes any name. One whose
/// token is too long to be encrypted is answered as if it had none, and refused where that would be
/// accepted.
pub fn answer_push_config<F: Fn(&str) -> Result<Vec<IpAddr>, ResolveError>>(
    caller: &str,
    req: PushConfig,
    owned: bool,
    active: i64,
    limits: &HandlerLimits,
    policy: &SsrfPolicy,
    resolve: F,
    key: Option<&Key>,
    config_id: u128,
    now: i64,
) -> (r: Result<(PushConfigRow, PushConfig), A2aError>)
    requires
        forall|name: &str| call_requires(resolve, (name,)),
    ensures
        ({
            let cap = limits.push_config_cap;
            if is_too_long(req@.token, key) {
                let bare = WireConfigView { token: None, ..req@ };
                exists|s: Result<(PushConfigRow, PushConfig), A2aError>| #[trigger]
                    is_answer(
                        s,
                        caller@,
                        bare,
                        owned,
                        active,
                        cap,
                        *policy,
                        resolve,
                        key,
                        config_id,
                        now,
                    ) && r is Err && r->Err_0@ == (match s {
                        Ok(_) => token_too_long(),
                        Err(e) => e@,
                    })
            } else {
                is_answer(
                    r,
                    caller@,
                    req@,
                    owned,
                    active,
                    cap,
                    *policy,
                    resolve,
                    key,
                    config_id,
                    now,
                )
            }
        }),
{
    let too_long: bool = match (key, &req.token) {
        (Some(_), Some(token)) => token.as_str().as_bytes().len() as u64 > MAX_PLAINTEXT_LEN,
        _ => false,
    };
    if !too_long {
        return create_push_config(
            caller,
            req,
            owned,
            active,
            limits,
            policy,
            resolve,
            key,
            config_id,
            now,
        );
    }
    let ghost given = req@;
    let bare = PushConfig { token: None, ..req };
    assert(bare@ == (WireConfigView { token: None, ..given }));
    let s = create_push_config(
        caller,
        bare,
        owned,
        active,
        limits,
        policy,
        resolve,
        key,
        config_id,
        now,
    );
    match s {
        Ok(_) => Err(A2aError::new(ErrorKind::InvalidParams, "webhook auth token is too long")),
        Err(e) => Err(e),
    }
}

/// A stored registration as its caller sees it: with its token, where that decrypts under the key. The
/// authentication is not stored, so it is not shown.
pub open spec fn config_view(c: PushConfigView, key: Option<Key>) -> WireConfigView {
    WireConfigView {
        url: c.url,
        id: Some(text_of_uuid(c.config_id)),
        task_id: text_of_uuid(c.a2a_task_id),
        token: match (c.token_enc, key) {
            (Some(bytes), Some(k)) => decrypted(k.raw(), bytes),
            _ => None,
        },
        authentication: None,
        tenant: None,
    }
}

/// The value of an optional key.
pub open spec fn opt_key(key: Option<&Key>) -> Option<Key> {
    match key {
        Some(k) => Some(*k),
        None => None,
    }
}

/// Shows a stored registration to its caller.
pub fn push_config_view(row: &PushConfigRow, key: Option<&Key>) -> (r: PushConfig)
    ensures
        r@ == config_view(row@, opt_key(key)),
{
    let token: Option<String> = match (&row.token_enc, key) {
        (Some(bytes), Some(k)) => push_crypto::decrypt(bytes.as_slice(), k),
        _ => None,
    };
    PushConfig {
        url: row.url.clone(),
        id: Some(ids::uuid_text(row.config_id)),
        task_id: ids::uuid_text(row.a2a_task_id),
        token,
        authentication: None,
        tenant: None,
    }
}

/// Answers a read of one registration. It must be on the task the caller owns.
pub fn get_push_config(
    tenant: bool,
    task_id: &str,
    id: &str,
    owned: bool,
    row: Option<PushConfigRow>,
    key: Option<&Key>,
) -> (r: Result<PushConfig, A2aError>)
    ensures
        match scope_refusal(tenant, task_id@, owned) {
            Some(e) => r matches Err(x) && x@ == e,
            None => match (uuid_of_text(id@), row) {
                (Some(_), Some(row)) => if row.a2a_task_id == uuid_of_text(task_id@)->0 {
                    r matches Ok(c) && c@ == config_view(row@, opt_key(key))
                } else {
                    r matches Err(x) && x@ == not_found(id@)
                },
                _ => r matches Err(x) && x@ == not_found(id@),
            },
        },
{
    let key_of_task: u128 = match push_scope(tenant, task_id, owned) {
        Err(e) => return Err(e),
        Ok(k) => k,
    };
    if let Err(e) = task_key(id) {
        return Err(e);
    }
    match row {
        Some(row) => if row.a2a_task_id == key_of_task {
            Ok(push_config_view(&row, key))
        } else {
            Err(A2aError::task_not_found(id))
        },
        None => Err(A2aError::task_not_found(id)),
    }
}

/// Answers a listing of a task's registrations, in the order they are given.
pub fn list_push_configs(
    tenant: bool,
    task_id: &str,
    owned: bool,
    rows: &Vec<PushConfigRow>,
    key: Option<&Key>,
) -> (r: Result<Vec<PushConfig>, A2aError>)
    ensures
        match scope_refusal(tenant, task_id@, owned) {
            Some(e) => r matches Err(x) && x@ == e,
            None => r matches Ok(list) && list@.len() == rows@.len() && forall|i: int|
                0 <= i < rows@.len() ==> (#[trigger] list@[i])@ == config_view(
                    rows@[i]@,
                    opt_key(key),
                ),
        },
{
    if let Err(e) = push_scope(tenant, task_id, owned) {
        return Err(e);
    }
    let mut list: Vec<PushConfig> = Vec::new();
    let mut i: usize = 0;
    while i < rows.len()
        invariant
            i <= rows@.len(),
            list@.len() == i,
            forall|j: int|
                0 <= j < i ==> (#[trigger] list@[j])@ == config_view(rows@[j]@, opt_key(key)),
        decreases rows@.len() - i,
    {
        list.push(push_config_view(&rows[i], key));
        i = i + 1;
    }
    Ok(list)
}

/// Answers a deletion, given whether a registration of that id on that task was there to delete.
pub fn delete_push_config(tenant: bool, task_id: &str, id: &str, owned: bool, deleted: bool) -> (r:
    Result<(), A2aError>)
    ensures
        match scope_refusal(tenant, task_id@, owned) {
            Some(e) => r matches Err(x) && x@ == e,
            None => if uuid_of_text(id@) is Some && deleted {
                r is Ok
            } else {
                r matches Err(x) && x@ == not_found(id@)
            },
        },
{
    if let Err(e) = push_scope(tenant, task_id, owned) {
        return Err(e);
    }
    if let Err(e) = task_key(id) {
        return Err(e);
    }
    if deleted {
        Ok(())
    } else {
        Err(A2aError::task_not_found(id))
    }
}

/// What is registered reads back: the same URL, under the same ids, with the same token, as long as the
/// key stays.
pub proof fn law_registration_reads_back(
    r: Result<(PushConfigRow, PushConfig), A2aError>,
    req: WireConfigView,
    task_id: u128,
    caller: Seq<char>,
    verdict: Result<ValidatedWebhook, SsrfError>,
    seal: TokenSeal,
    config_id: u128,
    now: i64,
    key: Key,
)
    requires
        registration(r, req, task_id, caller, verdict, seal, config_id, now),
        r is Ok,
        match req.token {
            None => seal is NoToken,
            Some(t) => seal matches TokenSeal::Sealed(stored) ==> decrypted(key.raw(), stored@)
                == Some(t),
        },
        req.token is Some ==> seal !is NoToken,
    ensures
        ({
            let (row, echoed) = r->Ok_0;
            let read = config_view(row@, Some(key));
            &&& read.url == echoed@.url
            &&& read.id == echoed@.id
            &&& read.task_id == echoed@.task_id
            &&& read.token == echoed@.token
            &&& read.token == req.token
        }),
{
}

/// A token fails closed: a registration that carries one is refused where there is no key to encrypt it
/// with, and a stored token is not shown without a key.
pub proof fn law_token_fails_closed(
    r: Result<(PushConfigRow, PushConfig), A2aError>,
    req: WireConfigView,
    task_id: u128,
    caller: Seq<char>,
    verdict: Result<ValidatedWebhook, SsrfError>,
    config_id: u128,
    now: i64,
    c: PushConfigView,
)
    ensures
        registration(r, req, task_id, caller, verdict, TokenSeal::NoKey, config_id, now) ==> r
            is Err,
        config_view(c, None).token is None,
{
}

/// A task that is someone else's is answered as one that does not exist.
pub proof fn law_foreign_task_is_not_there(tenant: bool, task_id: Seq<char>)
    ensures
        !tenant ==> scope_refusal(tenant, task_id, false) == Some(not_found(task_id)),
        cancel_refusal(task_id, None, None) == Some(not_found(task_id)),
{
}

} // verus!
