//! Submitting a review, and the task view that polling and streaming share.
//!
//! A submission goes through its gates one after another, each a function from what was learnt so far
//! and the answer to the last question to the next question, a refusal or the run to create:
//! [`begin_submission`], [`check_quota`], [`check_repository`], [`record_submission`]. A refusal at a
//! gate is a rejected task and never creates a run.

use vstd::prelude::*;

use crate::a2a::limits::QuotaConfig;
use crate::a2a::mapping::{
    build_task_view, is_review_artifact, parse_message, parse_review_request, requested,
    review_artifacts, state_of_status, task_state_from_status, ParseError, ParseErrorView,
    ReviewContext, ReviewInput, ReviewInputView,
};
use crate::a2a::model::{
    error_view, meta_map, state_from_wire, state_of_wire, A2aError, Artifact, ErrorKind, ErrorView,
    JsonView, Metadata, Part, Task, TaskState,
};
use crate::a2a::store::{Mapping, LB_CALLER, LB_SKILL, LB_UNDERLYING};
use crate::db::repositories::RepoForReview;
use crate::db::tasks::{NewTask, NewTaskView};
use crate::ids::text_of_uuid;
use crate::json::Json;
use crate::text::{opt_str_view, opt_view, views};
use crate::{ids, text};

verus! {

/// The permission that the `review` skill takes.
pub const REVIEW_PERMISSION: &'static str = "a2a:review";

/// The one skill there is.
pub const SKILL_REVIEW: &'static str = "review";

/// The event under which a submitted review is recorded as a delivery.
pub const REVIEW_EVENT: &'static str = "a2a.review";

/// Metadata key of the reason a submission was rejected for.
pub const LB_REJECTION_REASON: &'static str = "lb.rejectionReason";

/// An authenticated caller.
#[derive(Debug)]
pub struct CallerCtx {
    pub id: String,
    pub perms: Vec<String>,
}

impl CallerCtx {
    /// Whether the caller holds a permission.
    pub open spec fn holds(self, permission: Seq<char>) -> bool {
        views(self.perms@).contains(permission)
    }

    /// Whether the caller holds a permission.
    pub fn has(&self, permission: &str) -> (r: bool)
        ensures
            r == self.holds(permission@),
    {
        let mut i: usize = 0;
        while i < self.perms.len()
            invariant
                i <= self.perms@.len(),
                forall|k: int| 0 <= k < i ==> (#[trigger] views(self.perms@)[k]) != permission@,
            decreases self.perms@.len() - i,
        {
            assert(views(self.perms@)[i as int] == self.perms@[i as int]@);
            if text::same(self.perms[i].as_str(), permission) {
                return true;
            }
            i = i + 1;
        }
        false
    }
}

/// A message that asks for a review.
#[derive(Debug)]
pub struct SubmitRequest {
    pub tenant: Option<String>,
    pub context_id: Option<String>,
    pub parts: Vec<Part>,
}

/// A submission on its way through the gates.
#[derive(Debug)]
pub struct Pending {
    pub caller_id: String,
    pub a2a_task_id: u128,
    pub context_id: String,
    pub input: ReviewInput,
}

/// A submission that was refused, with the task that says so.
#[derive(Debug)]
pub struct Rejection {
    pub a2a_task_id: u128,
    pub context_id: String,
    /// The task to store.
    pub stored: Task,
}

/// What [`begin_submission`] leads to.
#[derive(Debug)]
pub enum Begun {
    /// The request itself is wrong; nothing is stored.
    Failed(A2aError),
    /// Refused at the permission gate.
    Rejected(Rejection),
    /// Ask how many recent submissions count.
    CountRecent(Pending),
}

/// The metadata of a rejected task.
pub open spec fn rejected_metadata(caller_id: Seq<char>, reason: Seq<char>) -> Map<
    Seq<char>,
    JsonView,
> {
    Map::<Seq<char>, JsonView>::empty().insert(LB_CALLER@, JsonView::Str(caller_id)).insert(
        LB_REJECTION_REASON@,
        JsonView::Str(reason),
    ).insert(LB_SKILL@, JsonView::Str(SKILL_REVIEW@))
}

/// Whether a rejection is the one of a submission for a reason: a rejected task that fronts no run.
pub open spec fn is_rejection(
    r: Rejection,
    caller_id: Seq<char>,
    a2a_task_id: u128,
    context_id: Seq<char>,
    reason: Seq<char>,
) -> bool {
    &&& r.a2a_task_id == a2a_task_id
    &&& r.context_id@ == context_id
    &&& r.stored.id@ == text_of_uuid(a2a_task_id)
    &&& r.stored.context_id@ == context_id
    &&& r.stored.state == TaskState::Rejected
    &&& r.stored.artifacts is None
    &&& r.stored.metadata is Some
    &&& meta_map(r.stored.metadata) == rejected_metadata(caller_id, reason)
}

/// Whether a rejection is the one of a pending submission for a reason.
pub open spec fn rejects(r: Rejection, pending: Pending, reason: Seq<char>) -> bool {
    is_rejection(r, pending.caller_id@, pending.a2a_task_id, pending.context_id@, reason)
}

/// Refuses a submission: the task that is stored and answered.
pub fn reject(caller_id: &str, a2a_task_id: u128, context_id: &str, reason: &str) -> (r: Rejection)
    ensures
        is_rejection(r, caller_id@, a2a_task_id, context_id@, reason@),
{
    let metadata = Metadata::new().insert(LB_CALLER, Json::Str(caller_id.to_owned())).insert(
        LB_REJECTION_REASON,
        Json::Str(reason.to_owned()),
    ).insert(LB_SKILL, Json::Str(SKILL_REVIEW.to_owned()));
    let id: String = ids::uuid_text(a2a_task_id);
    let stored = build_task_view(
        id.as_str(),
        context_id,
        TaskState::Rejected,
        None,
        Some(metadata),
    );
    Rejection { a2a_task_id, context_id: context_id.to_owned(), stored }
}

/// The error of a request for a tenant.
pub open spec fn no_tenants() -> ErrorView {
    error_view(ErrorKind::UnsupportedOperation, "multi-tenant A2A requests are not supported"@)
}

/// The error a message that is no `review` request is answered with.
pub open spec fn parse_failure(e: ParseErrorView) -> ErrorView {
    match e {
        ParseErrorView::UnsupportedSkill(_) => error_view(
            ErrorKind::UnsupportedOperation,
            parse_message(e),
        ),
        _ => error_view(ErrorKind::InvalidParams, parse_message(e)),
    }
}

/// The error a message that is no `review` request is answered with.
pub fn parse_error_answer(e: ParseError) -> (r: A2aError)
    ensures
        r@ == parse_failure(e@),
{
    let kind: ErrorKind = match &e {
        ParseError::UnsupportedSkill(_) => ErrorKind::UnsupportedOperation,
        _ => ErrorKind::InvalidParams,
    };
    A2aError { kind, message: e.message() }
}

/// The context a submission belongs to: the caller's, else a fresh one.
pub open spec fn context_of(given: Option<String>, fresh: Seq<char>) -> Seq<char> {
    match given {
        Some(c) => c@,
        None => fresh,
    }
}

/// The first gates: no tenant, a readable request, and the skill's permission, in that order. The two
/// identifiers are fresh ones.
pub fn begin_submission(
    caller: &CallerCtx,
    req: SubmitRequest,
    a2a_task_id: u128,
    fresh_context_id: &str,
) -> (r: Begun)
    ensures
        ({
            let context = context_of(req.context_id, fresh_context_id@);
            if req.tenant is Some {
                r matches Begun::Failed(e) && e@ == no_tenants()
            } else {
                match requested(req.parts@) {
                    Err(e) => r matches Begun::Failed(f) && f@ == parse_failure(e),
                    Ok(input) => if !caller.holds(REVIEW_PERMISSION@) {
                        r matches Begun::Rejected(rejection) && is_rejection(
                            rejection,
                            caller.id@,
                            a2a_task_id,
                            context,
                            "caller lacks the a2a:review permission"@,
                        )
                    } else {
                        r matches Begun::CountRecent(p) && p.caller_id@ == caller.id@
                            && p.a2a_task_id == a2a_task_id && p.context_id@ == context && p.input@
                            == input
                    },
                }
            }
        }),
{
    if req.tenant.is_some() {
        return Begun::Failed(
            A2aError::new(
                ErrorKind::UnsupportedOperation,
                "multi-tenant A2A requests are not supported",
            ),
        );
    }
    let context_id: String = match req.context_id {
        Some(c) => c,
        None => fresh_context_id.to_owned(),
    };
    let input: ReviewInput = match parse_review_request(req.parts.as_slice()) {
        Ok(input) => input,
        Err(e) => return Begun::Failed(parse_error_answer(e)),
    };
    if !caller.has(REVIEW_PERMISSION) {
        return Begun::Rejected(
            reject(
                caller.id.as_str(),
                a2a_task_id,
                context_id.as_str(),
                "caller lacks the a2a:review permission",
            ),
        );
    }
    Begun::CountRecent(Pending { caller_id: caller.id.clone(), a2a_task_id, context_id, input })
}

/// The quota gate: a caller whose counted submissions have reached the quota is refused.
pub fn check_quota(pending: Pending, recent: u64, quota: QuotaConfig) -> (r: Result<
    Pending,
    Rejection,
>)
    ensures
        match r {
            Ok(p) => recent < quota.max && p == pending,
            Err(rejection) => recent >= quota.max && rejects(
                rejection,
                pending,
                "per-identity deep-run quota exceeded"@,
            ),
        },
{
    if recent as i128 >= quota.max as i128 {
        Err(
            reject(
                pending.caller_id.as_str(),
                pending.a2a_task_id,
                pending.context_id.as_str(),
                "per-identity deep-run quota exceeded",
            ),
        )
    } else {
        Ok(pending)
    }
}

/// A submission that passed every gate.
#[derive(Debug)]
pub struct Admitted {
    pub pending: Pending,
    pub new_task: NewTask,
    /// Where the run comes from, for the delivery log.
    pub provenance: Json,
}

/// The reason the repository gate refuses for, or `None` where it lets the submission through.
pub open spec fn repository_refusal(
    repo: Option<RepoForReview>,
    head_sha: Option<Seq<char>>,
) -> Option<Seq<char>> {
    match repo {
        None => Some("repository is not connected to Lightbridge"@),
        Some(repo) => if repo.status@ != "approved"@ {
            Some("repository is not approved (awaiting admin approval)"@)
        } else if repo.installation_id is None {
            Some("repository is connected but not fully provisioned (no installation)"@)
        } else if head_sha is None {
            Some(
                "A2A review requires an explicit headSha; this server cannot resolve a PR head without forge credentials"@,
            )
        } else {
            None
        },
    }
}

/// The run that an admitted submission asks for.
pub open spec fn requested_run(
    a2a_task_id: u128,
    input: ReviewInputView,
    repository_id: i64,
    installation_id: i64,
) -> NewTaskView {
    NewTaskView {
        repository_id,
        installation_id,
        webhook_delivery_id: "a2a:"@ + text_of_uuid(a2a_task_id),
        target_type: "pull_request"@,
        target_id: input.pr,
        command_text: input.prompt,
        base_sha: input.base_sha,
        head_sha: input.head_sha,
        run_epoch: 0,
        preset: "deep"@,
        entry_point: "a2a"@,
        trigger_comment_id: None,
        trace_context: None,
        model_override: None,
        check_runs_enabled: false,
        run_after_secs: None,
    }
}

/// Whether a value is a string of that text.
pub open spec fn is_text(value: Json, s: Seq<char>) -> bool {
    value matches Json::Str(t) && t@ == s
}

/// Whether a value records where an admitted submission came from.
pub open spec fn is_provenance(value: Json, pending: Pending) -> bool {
    value matches Json::Object(m) && {
        &&& m@.len() == 6
        &&& m@[0].0@ == "source"@ && is_text(m@[0].1, "a2a"@)
        &&& m@[1].0@ == "caller"@ && is_text(m@[1].1, pending.caller_id@)
        &&& m@[2].0@ == "skill"@ && is_text(m@[2].1, SKILL_REVIEW@)
        &&& m@[3].0@ == "repo"@ && is_text(
            m@[3].1,
            pending.input.owner@ + "/"@ + pending.input.name@,
        )
        &&& m@[4].0@ == "pr"@ && m@[4].1 == Json::Int(pending.input.pr)
        &&& m@[5].0@ == "a2a_task_id"@ && is_text(m@[5].1, text_of_uuid(pending.a2a_task_id))
    }
}

/// `owner/name`.
fn full_name(owner: &str, name: &str) -> (r: String)
    ensures
        r@ == owner@ + "/"@ + name@,
{
    let mut r: String = owner.to_owned();
    r.append("/");
    r.append(name);
    r
}

fn provenance(pending: &Pending) -> (r: Json)
    ensures
        is_provenance(r, *pending),
{
    let mut m: Vec<(String, Json)> = Vec::new();
    m.push(("source".to_owned(), Json::Str("a2a".to_owned())));
    m.push(("caller".to_owned(), Json::Str(pending.caller_id.clone())));
    m.push(("skill".to_owned(), Json::Str(SKILL_REVIEW.to_owned())));
    m.push(
        (
            "repo".to_owned(),
            Json::Str(full_name(pending.input.owner.as_str(), pending.input.name.as_str())),
        ),
    );
    m.push(("pr".to_owned(), Json::Int(pending.input.pr)));
    m.push(("a2a_task_id".to_owned(), Json::Str(ids::uuid_text(pending.a2a_task_id))));
    Json::Object(m)
}

/// The repository gate: the repository is connected, approved and provisioned, and the request names
/// the head to review. Nothing here could resolve a head, and a run without one would review the
/// default branch.
pub fn check_repository(pending: Pending, repo: Option<RepoForReview>) -> (r: Result<
    Admitted,
    Rejection,
>)
    ensures
        match r {
            Ok(a) => {
                &&& repository_refusal(repo, pending.input@.head_sha) is None
                &&& a.pending == pending
                &&& a.new_task@ == requested_run(
                    pending.a2a_task_id,
                    pending.input@,
                    repo->0.id,
                    repo->0.installation_id->0,
                )
                &&& is_provenance(a.provenance, pending)
            },
            Err(rejection) => repository_refusal(repo, pending.input@.head_sha) matches Some(reason)
                && rejects(rejection, pending, reason),
        },
{
    let reason: &str;
    match repo {
        None => {
            reason = "repository is not connected to Lightbridge";
        },
        Some(repo) => {
            if !text::same(repo.status.as_str(), "approved") {
                reason = "repository is not approved (awaiting admin approval)";
            } else {
                match repo.installation_id {
                    None => {
                        reason =
                        "repository is connected but not fully provisioned (no installation)";
                    },
                    Some(installation_id) => {
                        if pending.input.head_sha.is_none() {
                            reason =
                            "A2A review requires an explicit headSha; this server cannot resolve a PR head without forge credentials";
                        } else {
                            let mut delivery: String = "a2a:".to_owned();
                            delivery.append(ids::uuid_text(pending.a2a_task_id).as_str());
                            let new_task = NewTask {
                                repository_id: repo.id,
                                installation_id,
                                webhook_delivery_id: delivery,
                                target_type: "pull_request".to_owned(),
                                target_id: pending.input.pr,
                                command_text: pending.input.prompt.clone(),
                                base_sha: text::copy_opt(&pending.input.base_sha),
                                head_sha: text::copy_opt(&pending.input.head_sha),
                                run_epoch: 0,
                                preset: "deep".to_owned(),
                                entry_point: "a2a".to_owned(),
                                trigger_comment_id: None,
                                trace_context: None,
                                model_override: None,
                                check_runs_enabled: false,
                                run_after_secs: None,
                            };
                            let provenance: Json = provenance(&pending);
                            return Ok(Admitted { pending, new_task, provenance });
                        }
                    },
                }
            }
        },
    }
    Err(
        reject(
            pending.caller_id.as_str(),
            pending.a2a_task_id,
            pending.context_id.as_str(),
            reason,
        ),
    )
}

/// The metadata of a submitted task.
pub open spec fn submitted_metadata(caller_id: Seq<char>, underlying: u128) -> Map<
    Seq<char>,
    JsonView,
> {
    Map::<Seq<char>, JsonView>::empty().insert(LB_CALLER@, JsonView::Str(caller_id)).insert(
        LB_UNDERLYING@,
        JsonView::Str(text_of_uuid(underlying)),
    ).insert(LB_SKILL@, JsonView::Str(SKILL_REVIEW@))
}

/// The task an admitted submission is stored as, once its run is known: the run just created, else the
/// one that stood there for the same target, head and epoch.
pub fn record_submission(pending: &Pending, created: Option<u128>, existing: Option<u128>) -> (r:
    Result<Task, A2aError>)
    ensures
        ({
            let run = if created is Some {
                created
            } else {
                existing
            };
            match r {
                Ok(task) => run matches Some(id) && {
                    &&& task.id@ == text_of_uuid(pending.a2a_task_id)
                    &&& task.context_id@ == pending.context_id@
                    &&& task.state == TaskState::Submitted
                    &&& task.artifacts is None
                    &&& task.metadata is Some
                    &&& meta_map(task.metadata) == submitted_metadata(pending.caller_id@, id)
                },
                Err(e) => run is None && e@ == error_view(
                    ErrorKind::Internal,
                    "a2a: create dedup'd but no existing task was found"@,
                ),
            }
        }),
{
    let run: Option<u128> = match created {
        Some(id) => Some(id),
        None => existing,
    };
    match run {
        None => Err(
            A2aError::new(
                ErrorKind::Internal,
                "a2a: create dedup'd but no existing task was found",
            ),
        ),
        Some(underlying) => {
            let metadata = Metadata::new().insert(
                LB_CALLER,
                Json::Str(pending.caller_id.clone()),
            ).insert(LB_UNDERLYING, Json::Str(ids::uuid_text(underlying))).insert(
                LB_SKILL,
                Json::Str(SKILL_REVIEW.to_owned()),
            );
            let id: String = ids::uuid_text(pending.a2a_task_id);
            Ok(
                build_task_view(
                    id.as_str(),
                    pending.context_id.as_str(),
                    TaskState::Submitted,
                    None,
                    Some(metadata),
                ),
            )
        },
    }
}

/// The metadata a client sees: without the caller and the skill.
pub open spec fn client_metadata(stored: Map<Seq<char>, JsonView>) -> Map<Seq<char>, JsonView> {
    stored.remove(LB_CALLER@).remove(LB_SKILL@)
}

/// A task as the client sees it: internal linkage is taken out, and metadata that held nothing else is
/// absent. The run it fronts stays, as the caller's own handle.
pub fn client_view(task: Task) -> (r: Task)
    ensures
        r.id == task.id,
        r.context_id == task.context_id,
        r.state == task.state,
        r.artifacts == task.artifacts,
        meta_map(r.metadata) == client_metadata(meta_map(task.metadata)),
        r.metadata is Some <==> client_metadata(meta_map(task.metadata)) != Map::<
            Seq<char>,
            JsonView,
        >::empty(),
{
    match task.metadata {
        Some(m) => {
            let kept = m.remove(LB_CALLER).remove(LB_SKILL);
            if kept.is_empty() {
                Task { metadata: None, ..task }
            } else {
                Task { metadata: Some(kept), ..task }
            }
        },
        None => {
            assert(client_metadata(Map::<Seq<char>, JsonView>::empty()) =~= Map::<
                Seq<char>,
                JsonView,
            >::empty());
            Task { metadata: None, ..task }
        },
    }
}

/// No client ever sees the caller or the skill linkage, and everything else passes through unchanged.
pub proof fn law_client_view_hides_linkage(stored: Map<Seq<char>, JsonView>, key: Seq<char>)
    ensures
        !client_metadata(stored).dom().contains(LB_CALLER@),
        !client_metadata(stored).dom().contains(LB_SKILL@),
        key != LB_CALLER@ && key != LB_SKILL@ ==> (client_metadata(stored).dom().contains(key)
            <==> stored.dom().contains(key)) && (stored.dom().contains(key) ==> client_metadata(
            stored,
        )[key] == stored[key]),
{
}

/// What a submission leads to once every question about it is answered.
pub enum SubmissionOutcome {
    Failed(ErrorView),
    Rejected(Seq<char>),
    Admitted,
}

/// The outcome of a submission, over the answers its gates would get.
pub open spec fn submission_outcome(
    holds_permission: bool,
    tenant: bool,
    parts: Seq<Part>,
    recent: u64,
    quota: QuotaConfig,
    repo: Option<RepoForReview>,
) -> SubmissionOutcome {
    if tenant {
        SubmissionOutcome::Failed(no_tenants())
    } else {
        match requested(parts) {
            Err(e) => SubmissionOutcome::Failed(parse_failure(e)),
            Ok(input) => if !holds_permission {
                SubmissionOutcome::Rejected("caller lacks the a2a:review permission"@)
            } else if recent >= quota.max {
                SubmissionOutcome::Rejected("per-identity deep-run quota exceeded"@)
            } else {
                match repository_refusal(repo, input.head_sha) {
                    Some(reason) => SubmissionOutcome::Rejected(reason),
                    None => SubmissionOutcome::Admitted,
                }
            },
        }
    }
}

/// A decided submission.
#[derive(Debug)]
pub enum Decided {
    Failed(A2aError),
    Rejected(Rejection),
    Admitted(Admitted),
}

/// Runs a submission through all of its gates at once, on answers already at hand.
pub fn submit_review(
    caller: &CallerCtx,
    req: SubmitRequest,
    a2a_task_id: u128,
    fresh_context_id: &str,
    recent: u64,
    quota: QuotaConfig,
    repo: Option<RepoForReview>,
) -> (r: Decided)
    ensures
        ({
            let context = context_of(req.context_id, fresh_context_id@);
            match submission_outcome(
                caller.holds(REVIEW_PERMISSION@),
                req.tenant is Some,
                req.parts@,
                recent,
                quota,
                repo,
            ) {
                SubmissionOutcome::Failed(e) => r matches Decided::Failed(f) && f@ == e,
                SubmissionOutcome::Rejected(reason) => r matches Decided::Rejected(rejection)
                    && is_rejection(rejection, caller.id@, a2a_task_id, context, reason),
                SubmissionOutcome::Admitted => r matches Decided::Admitted(a) && {
                    &&& a.pending.caller_id@ == caller.id@
                    &&& a.pending.a2a_task_id == a2a_task_id
                    &&& a.pending.context_id@ == context
                    &&& a.pending.input@ == requested(req.parts@)->Ok_0
                    &&& a.new_task@ == requested_run(
                        a2a_task_id,
                        a.pending.input@,
                        repo->0.id,
                        repo->0.installation_id->0,
                    )
                    &&& is_provenance(a.provenance, a.pending)
                },
            }
        }),
{
    let pending: Pending = match begin_submission(caller, req, a2a_task_id, fresh_context_id) {
        Begun::Failed(e) => return Decided::Failed(e),
        Begun::Rejected(rejection) => return Decided::Rejected(rejection),
        Begun::CountRecent(pending) => pending,
    };
    let pending: Pending = match check_quota(pending, recent, quota) {
        Err(rejection) => return Decided::Rejected(rejection),
        Ok(pending) => pending,
    };
    match check_repository(pending, repo) {
        Err(rejection) => Decided::Rejected(rejection),
        Ok(admitted) => Decided::Admitted(admitted),
    }
}

/// Only an approved and provisioned repository, a stated head, the permission and a free quota slot
/// together get a run created.
pub proof fn law_admission_needs_every_gate(
    holds_permission: bool,
    tenant: bool,
    parts: Seq<Part>,
    recent: u64,
    quota: QuotaConfig,
    repo: Option<RepoForReview>,
)
    requires
        submission_outcome(holds_permission, tenant, parts, recent, quota, repo)
            is Admitted,
    ensures
        !tenant,
        holds_permission,
        recent < quota.max,
        repo is Some,
        repo->0.status@ == "approved"@,
        repo->0.installation_id is Some,
        requested(parts) is Ok,
        requested(parts)->Ok_0.head_sha is Some,
{
}

/// The columns of a run that its task view is built from.
#[derive(Debug)]
pub struct RunRow {
    pub status: String,
    pub repo_owner: Option<String>,
    pub repo_name: Option<String>,
    pub target_id: i64,
    pub base_sha: Option<String>,
    pub head_sha: Option<String>,
}

/// The state a task has now: its run's, while the run is there; else the one last stored.
pub open spec fn state_now(underlying: Option<u128>, stored: Seq<char>, run: Option<RunRow>) -> TaskState {
    match (underlying, run) {
        (Some(_), Some(run)) => state_of_status(run.status@),
        _ => state_of_wire(stored),
    }
}

/// The state a task has now.
pub fn current_state(mapping: &Mapping, run: &Option<RunRow>) -> (r: TaskState)
    ensures
        r == state_now(mapping.underlying_task_id, mapping.state@, *run),
{
    match (mapping.underlying_task_id, run) {
        (Some(_), Some(run)) => task_state_from_status(run.status.as_str()),
        _ => state_from_wire(mapping.state.as_str()),
    }
}

/// Whether a context is the echo of a run and its review: without the run, only the permalink is known.
pub open spec fn is_context_of(
    context: ReviewContext,
    run: Option<RunRow>,
    review_url: Option<Seq<char>>,
) -> bool {
    &&& opt_view(context.review_url) == review_url
    &&& match run {
        Some(run) => {
            &&& opt_view(context.repo) == (match (run.repo_owner, run.repo_name) {
                (Some(owner), Some(name)) => Some(owner@ + "/"@ + name@),
                _ => None,
            })
            &&& context.pr == Some(run.target_id)
            &&& opt_view(context.base_sha) == opt_view(run.base_sha)
            &&& opt_view(context.head_sha) == opt_view(run.head_sha)
        },
        None => context.repo is None && context.pr is None && context.base_sha is None
            && context.head_sha is None,
    }
}

/// The echo of a run and its review.
pub fn review_context(run: &Option<RunRow>, review_url: Option<&str>) -> (r: ReviewContext)
    ensures
        is_context_of(r, *run, opt_str_view(review_url)),
{
    let url: Option<String> = match review_url {
        Some(u) => Some(u.to_owned()),
        None => None,
    };
    match run {
        Some(run) => {
            let repo: Option<String> = match (&run.repo_owner, &run.repo_name) {
                (Some(owner), Some(name)) => Some(full_name(owner.as_str(), name.as_str())),
                _ => None,
            };
            ReviewContext {
                repo,
                pr: Some(run.target_id),
                base_sha: text::copy_opt(&run.base_sha),
                head_sha: text::copy_opt(&run.head_sha),
                review_url: url,
            }
        },
        None => ReviewContext {
            repo: None,
            pr: None,
            base_sha: None,
            head_sha: None,
            review_url: url,
        },
    }
}

/// A persisted review.
#[derive(Debug)]
pub struct ReviewRecord {
    pub summary: String,
    pub findings: Json,
    pub review_url: Option<String>,
}

/// Whether an artifact is the one of a review and its run.
pub open spec fn is_artifact_of(artifact: Artifact, review: ReviewRecord, run: Option<RunRow>) -> bool {
    exists|context: ReviewContext|
        is_context_of(context, run, opt_view(review.review_url)) && #[trigger] is_review_artifact(
            artifact,
            review.summary@,
            review.findings,
            context,
        )
}

/// The artifact of a completed review, where one is persisted; polling and streaming both show it.
pub fn completed_artifact(review: Option<ReviewRecord>, run: &Option<RunRow>) -> (r: Option<
    Artifact,
>)
    ensures
        r is Some <==> review is Some,
        r matches Some(artifact) ==> is_artifact_of(artifact, review->0, *run),
{
    match review {
        None => None,
        Some(review) => {
            let url: Option<&str> = match &review.review_url {
                Some(u) => Some(u.as_str()),
                None => None,
            };
            let context = review_context(run, url);
            let mut artifacts = review_artifacts(
                review.summary.as_str(),
                review.findings,
                &context,
            );
            artifacts.pop()
        },
    }
}

/// The metadata of a task view: the run it fronts, where there is one.
pub open spec fn view_metadata(underlying: Option<u128>) -> Map<Seq<char>, JsonView> {
    match underlying {
        Some(id) => Map::<Seq<char>, JsonView>::empty().insert(
            LB_UNDERLYING@,
            JsonView::Str(text_of_uuid(id)),
        ),
        None => Map::empty(),
    }
}

/// The metadata of a task view.
pub fn underlying_metadata(underlying: Option<u128>) -> (r: Option<Metadata>)
    ensures
        r is Some <==> underlying is Some,
        meta_map(r) == view_metadata(underlying),
{
    match underlying {
        Some(id) => Some(Metadata::new().insert(LB_UNDERLYING, Json::Str(ids::uuid_text(id)))),
        None => None,
    }
}

/// The task as it stands: its current state and, for a completed review that is persisted, the review's
/// artifact.
pub fn build_task_snapshot(
    a2a_task_id: &str,
    mapping: &Mapping,
    run: &Option<RunRow>,
    review: Option<ReviewRecord>,
) -> (r: Task)
    ensures
        ({
            let state = state_now(mapping.underlying_task_id, mapping.state@, *run);
            let shows = state == TaskState::Completed && mapping.underlying_task_id is Some && review
                is Some;
            &&& r.id@ == a2a_task_id@
            &&& r.context_id@ == mapping.context_id@
            &&& r.state == state
            &&& r.artifacts is Some <==> shows
            &&& r.artifacts matches Some(artifacts) ==> artifacts@.len() == 1 && is_artifact_of(
                artifacts@[0],
                review->0,
                *run,
            )
            &&& r.metadata is Some <==> mapping.underlying_task_id is Some
            &&& meta_map(r.metadata) == view_metadata(mapping.underlying_task_id)
        }),
{
    let state: TaskState = current_state(mapping, run);
    let mut artifacts: Option<Vec<Artifact>> = None;
    if state.is_completed() && mapping.underlying_task_id.is_some() {
        if let Some(artifact) = completed_artifact(review, run) {
            artifacts = Some(vec![artifact]);
        }
    }
    build_task_view(
        a2a_task_id,
        mapping.context_id.as_str(),
        state,
        artifacts,
        underlying_metadata(mapping.underlying_task_id),
    )
}

} // verus!
