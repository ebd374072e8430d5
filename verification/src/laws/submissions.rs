//! What a submission asks for, which one becomes a run, and what its caller sees.

use vstd::prelude::*;

use crate::a2a::lifecycle::{
    begin_submission, check_quota, check_repository, client_metadata, is_context_of, is_rejection,
    rejected_metadata, state_now, submission_outcome, submitted_metadata, view_metadata, Admitted,
    Begun, CallerCtx, Pending, Rejection, RunRow, SubmissionOutcome, SubmitRequest,
};
use crate::a2a::limits::{quota_from_env, HandlerLimits, QuotaConfig};
use crate::a2a::mapping::{
    first_data, instruction, is_review_artifact, repo_halves, requested, state_of_status,
    ParseErrorView, ReviewContext, ReviewInputView,
};
use crate::a2a::model::{
    error_code, not_cancelable, not_found, part_text, state_of_wire, terminal, wire_name, Artifact,
    ErrorKind, JsonView, Part, PartContent, TaskState,
};
use crate::db::repositories::RepoForReview;
use crate::ids::text_of_uuid;
use crate::json::{coerced_i64, member, member_str, Json};
use crate::platform::{platform_of, Platform};
use crate::text::{lemma_position_bounds, opt_view, trimmed};

verus! {

/// What a caller is shown of a run's status: waiting is submitted, at work is working, and the four ends
/// are completed, failed (a timeout among them) and canceled. A status that is not known is at work.
pub proof fn law_status_shows_as_its_state(status: Seq<char>)
    ensures
        state_of_status("received"@) == TaskState::Submitted,
        state_of_status("queued"@) == TaskState::Submitted,
        state_of_status("waiting_for_index"@) == TaskState::Submitted,
        state_of_status("running"@) == TaskState::Working,
        state_of_status("posting_result"@) == TaskState::Working,
        state_of_status("succeeded"@) == TaskState::Completed,
        state_of_status("failed"@) == TaskState::Failed,
        state_of_status("timed_out"@) == TaskState::Failed,
        state_of_status("cancelled"@) == TaskState::Canceled,
        status != "received"@ && status != "queued"@ && status != "waiting_for_index"@ && status
            != "succeeded"@ && status != "failed"@ && status != "timed_out"@ && status
            != "cancelled"@ ==> state_of_status(status) == TaskState::Working,
{
    reveal_strlit("received");
    reveal_strlit("waiting_for_index");
    reveal_strlit("queued");
    reveal_strlit("running");
    reveal_strlit("posting_result");
    reveal_strlit("succeeded");
    reveal_strlit("failed");
    reveal_strlit("timed_out");
    reveal_strlit("cancelled");
    assert("received"@[1] == 'e');
    assert("running"@[1] == 'u');
    assert("waiting_for_index"@[0] == 'w');
    assert("queued"@[0] == 'q');
    assert("posting_result"@[0] == 'p');
    assert("succeeded"@[0] == 's');
    assert("failed"@[0] == 'f');
    assert("timed_out"@[0] == 't');
    assert("cancelled"@[0] == 'c');
    assert("running"@[0] == 'r');
    assert("received"@[0] == 'r');
}

/// A task is over once it is completed, failed, canceled or rejected, and in no other state.
pub proof fn law_four_states_are_over(state: TaskState)
    ensures
        terminal(state) <==> state == TaskState::Completed || state == TaskState::Failed || state
            == TaskState::Canceled || state == TaskState::Rejected,
        wire_name(TaskState::Submitted) == "TASK_STATE_SUBMITTED"@,
        wire_name(TaskState::Working) == "TASK_STATE_WORKING"@,
        wire_name(TaskState::Completed) == "TASK_STATE_COMPLETED"@,
        wire_name(TaskState::Failed) == "TASK_STATE_FAILED"@,
        wire_name(TaskState::Canceled) == "TASK_STATE_CANCELED"@,
        wire_name(TaskState::InputRequired) == "TASK_STATE_INPUT_REQUIRED"@,
        wire_name(TaskState::Rejected) == "TASK_STATE_REJECTED"@,
        wire_name(TaskState::AuthRequired) == "TASK_STATE_AUTH_REQUIRED"@,
        wire_name(TaskState::Unspecified) == "TASK_STATE_UNSPECIFIED"@,
        state_of_wire(wire_name(state)) == state,
{
    crate::a2a::model::law_state_survives_the_wire(state);
}

/// The codes that errors go by.
pub proof fn law_errors_go_by_their_codes(id: Seq<char>)
    ensures
        error_code(ErrorKind::TaskNotFound) == -32001,
        error_code(ErrorKind::TaskNotCancelable) == -32002,
        error_code(ErrorKind::UnsupportedOperation) == -32004,
        error_code(ErrorKind::InvalidRequest) == -32600,
        error_code(ErrorKind::InvalidParams) == -32602,
        error_code(ErrorKind::Internal) == -32603,
        not_found(id).kind == ErrorKind::TaskNotFound,
        not_cancelable(id).kind == ErrorKind::TaskNotCancelable,
{
}

/// A task that fronts a run shows that run's state while the run is there; any other shows the state
/// that was stored last.
pub proof fn law_task_shows_its_run(underlying: Option<u128>, stored: TaskState, run: Option<RunRow>)
    ensures
        underlying is Some && run is Some && run->0.status@ == "succeeded"@ ==> state_now(
            underlying,
            wire_name(stored),
            run,
        ) == TaskState::Completed,
        underlying is Some && run is Some && run->0.status@ == "running"@ ==> state_now(
            underlying,
            wire_name(stored),
            run,
        ) == TaskState::Working,
        underlying is Some && run is Some && run->0.status@ == "cancelled"@ ==> state_now(
            underlying,
            wire_name(stored),
            run,
        ) == TaskState::Canceled,
        underlying is None || run is None ==> state_now(underlying, wire_name(stored), run)
            == stored,
{
    law_status_shows_as_its_state("succeeded"@);
    law_four_states_are_over(stored);
}

proof fn lemma_first_data(parts: Seq<Part>, i: int)
    requires
        0 <= i < parts.len(),
        parts[i].content matches PartContent::Data(Json::Object(_)),
        forall|j: int|
            0 <= j < i ==> !((#[trigger] parts[j]).content matches PartContent::Data(
                Json::Object(_),
            )),
    ensures
        first_data(parts) is Some,
        parts[i].content matches PartContent::Data(Json::Object(m)) ==> first_data(parts) == Some(
            m@,
        ),
    decreases parts.len(),
{
    if i > 0 {
        assert(!(parts[0].content matches PartContent::Data(Json::Object(_))));
        let rest = parts.drop_first();
        assert(rest[i - 1] == parts[i]);
        assert forall|j: int| 0 <= j < i - 1 implies !((
        #[trigger] rest[j]).content matches PartContent::Data(Json::Object(_))) by {
            assert(rest[j] == parts[j + 1]);
        }
        lemma_first_data(rest, i - 1);
    }
}

proof fn lemma_no_data(parts: Seq<Part>)
    requires
        forall|j: int|
            0 <= j < parts.len() ==> !((#[trigger] parts[j]).content matches PartContent::Data(
                Json::Object(_),
            )),
    ensures
        first_data(parts) is None,
    decreases parts.len(),
{
    if parts.len() > 0 {
        assert(!(parts[0].content matches PartContent::Data(Json::Object(_))));
        let rest = parts.drop_first();
        assert forall|j: int| 0 <= j < rest.len() implies !((
        #[trigger] rest[j]).content matches PartContent::Data(Json::Object(_))) by {
            assert(rest[j] == parts[j + 1]);
        }
        lemma_no_data(rest);
    }
}

/// A message without a structured part that holds an object names no target, whatever its prose says.
pub proof fn law_prose_alone_names_no_target(parts: Seq<Part>)
    requires
        forall|j: int|
            0 <= j < parts.len() ==> !((#[trigger] parts[j]).content matches PartContent::Data(
                Json::Object(_),
            )),
    ensures
        requested(parts) == Err::<ReviewInputView, ParseErrorView>(ParseErrorView::NoTargetData),
{
    lemma_no_data(parts);
}

/// Whether an object's member is a text that is not blank.
pub open spec fn says(m: Seq<(String, Json)>, key: Seq<char>) -> bool {
    member(m, key) matches Some(Json::Str(s)) && trimmed(s@).len() > 0
}

/// What a member that is a text says.
pub open spec fn said(m: Seq<(String, Json)>, key: Seq<char>) -> Seq<char> {
    match member(m, key) {
        Some(Json::Str(s)) => trimmed(s@),
        _ => Seq::empty(),
    }
}

/// A request is read off the first structured part that holds an object. Whatever is accepted names a
/// repository by two halves without a slash, a positive number, a forge that is known, and no other skill
/// than the review; a commit is read under either of its keys, the camel-case one first, and a blank one
/// is none.
pub proof fn law_accepted_request_is_what_was_written(parts: Seq<Part>, i: int)
    requires
        requested(parts) is Ok,
        0 <= i < parts.len(),
        parts[i].content matches PartContent::Data(Json::Object(_)),
        forall|j: int|
            0 <= j < i ==> !((#[trigger] parts[j]).content matches PartContent::Data(
                Json::Object(_),
            )),
    ensures
        parts[i].content matches PartContent::Data(Json::Object(members)) ==> {
            let m = members@;
            let x = requested(parts)->Ok_0;
            &&& x.owner.len() > 0 && x.name.len() > 0
            &&& !x.owner.contains('/') && !x.name.contains('/')
            &&& said(m, "repo"@) == x.owner + seq!['/'] + x.name
            &&& x.pr > 0
            &&& member(m, "pr"@) is Some && coerced_i64(member(m, "pr"@)->0) == Some(x.pr)
            &&& member_str(m, "forge"@) is Some ==> platform_of(member_str(m, "forge"@)->0) == Some(
                x.platform,
            )
            &&& member_str(m, "forge"@) is None ==> platform_of("github"@) == Some(x.platform)
            &&& member_str(m, "skill"@) is Some ==> member_str(m, "skill"@) == Some("review"@)
            &&& says(m, "headSha"@) ==> x.head_sha == Some(said(m, "headSha"@))
            &&& member(m, "headSha"@) is None && says(m, "head_sha"@) ==> x.head_sha == Some(
                said(m, "head_sha"@),
            )
            &&& !says(m, "headSha"@) && !says(m, "head_sha"@) ==> x.head_sha is None
            &&& says(m, "baseSha"@) ==> x.base_sha == Some(said(m, "baseSha"@))
            &&& member(m, "baseSha"@) is None && says(m, "base_sha"@) ==> x.base_sha == Some(
                said(m, "base_sha"@),
            )
            &&& !says(m, "baseSha"@) && !says(m, "base_sha"@) ==> x.base_sha is None
            &&& instruction(parts) is None && says(m, "prompt"@) ==> x.prompt == said(m, "prompt"@)
            &&& instruction(parts) is None && !says(m, "prompt"@) ==> x.prompt
                == "Deep review requested via A2A."@
            &&& instruction(parts) is Some ==> Some(x.prompt) == instruction(parts)
        },
{
    lemma_first_data(parts, i);
    if let PartContent::Data(Json::Object(members)) = parts[i].content {
        let m = members@;
        let x = requested(parts)->Ok_0;
        let repo = said(m, "repo"@);
        lemma_position_bounds(repo, '/', 0);
        let at = crate::text::position_from(repo, '/', 0);
        assert(repo =~= x.owner + seq!['/'] + x.name);
        assert(!x.owner.contains('/')) by {
            if x.owner.contains('/') {
                let k = choose|k: int| 0 <= k < x.owner.len() && x.owner[k] == '/';
                assert(repo[k] == '/');
            }
        }
    }
}

/// A request that names a repository by two halves, a positive number and a known forge is accepted.
pub proof fn law_complete_request_is_accepted(
    parts: Seq<Part>,
    i: int,
    owner: Seq<char>,
    name: Seq<char>,
    pr: i64,
)
    requires
        0 <= i < parts.len(),
        parts[i].content matches PartContent::Data(Json::Object(_)),
        forall|j: int|
            0 <= j < i ==> !((#[trigger] parts[j]).content matches PartContent::Data(
                Json::Object(_),
            )),
        owner.len() > 0,
        name.len() > 0,
        !owner.contains('/'),
        !name.contains('/'),
        pr > 0,
        parts[i].content matches PartContent::Data(Json::Object(members)) ==> {
            let m = members@;
            &&& said(m, "repo"@) == owner + seq!['/'] + name
            &&& member(m, "pr"@) is Some && coerced_i64(member(m, "pr"@)->0) == Some(pr)
            &&& member_str(m, "forge"@) is None || member_str(m, "forge"@) == Some("github"@)
            &&& member_str(m, "skill"@) is None || member_str(m, "skill"@) == Some("review"@)
        },
    ensures
        requested(parts) is Ok,
        requested(parts)->Ok_0.owner == owner,
        requested(parts)->Ok_0.name == name,
        requested(parts)->Ok_0.pr == pr,
        requested(parts)->Ok_0.platform == Platform::GitHub,
{
    lemma_first_data(parts, i);
    if let PartContent::Data(Json::Object(members)) = parts[i].content {
        let repo = said(members@, "repo"@);
        lemma_position_bounds(repo, '/', 0);
        let at = crate::text::position_from(repo, '/', 0);
        assert(repo[owner.len() as int] == '/');
        assert(at == owner.len()) by {
            if at < owner.len() {
                assert(repo[at] == owner[at]);
                assert(owner.contains('/'));
            }
        }
        assert(repo.subrange(0, at) =~= owner);
        assert(repo.subrange(at + 1, repo.len() as int) =~= name);
        assert(repo_halves(repo) == Some((owner, name)));
        crate::platform::law_platform_survives_its_name(Platform::GitHub);
        assert(platform_of("github"@) == Some(Platform::GitHub));
    }
}

/// Each request is refused for the first thing that is wrong with it: another skill than the review, the
/// forge, the repository, and then the number, which must be positive.
pub proof fn law_request_is_refused_for_its_first_fault(parts: Seq<Part>, i: int)
    requires
        0 <= i < parts.len(),
        parts[i].content matches PartContent::Data(Json::Object(_)),
        forall|j: int|
            0 <= j < i ==> !((#[trigger] parts[j]).content matches PartContent::Data(
                Json::Object(_),
            )),
    ensures
        parts[i].content matches PartContent::Data(Json::Object(members)) ==> {
            let m = members@;
            let skilled = member_str(m, "skill"@) is None || member_str(m, "skill"@) == Some(
                "review"@,
            );
            let forged = member_str(m, "forge"@) is None || platform_of(
                member_str(m, "forge"@)->0,
            ) is Some;
            let r = requested(parts);
            &&& !skilled ==> r == Err::<ReviewInputView, ParseErrorView>(
                ParseErrorView::UnsupportedSkill(member_str(m, "skill"@)->0),
            )
            &&& skilled && !forged ==> r == Err::<ReviewInputView, ParseErrorView>(
                ParseErrorView::BadField("forge"@),
            )
            &&& skilled && forged && member_str(m, "repo"@) is None ==> r == Err::<
                ReviewInputView,
                ParseErrorView,
            >(ParseErrorView::BadField("repo"@))
            &&& skilled && forged && repo_halves(said(m, "repo"@)) is Some && (member(m, "pr"@)
                is None || coerced_i64(member(m, "pr"@)->0) is None || coerced_i64(
                member(m, "pr"@)->0,
            )->0 <= 0) ==> r == Err::<ReviewInputView, ParseErrorView>(
                ParseErrorView::BadField("pr"@),
            )
        },
{
    lemma_first_data(parts, i);
    crate::platform::law_platform_survives_its_name(Platform::GitHub);
    if let PartContent::Data(Json::Object(members)) = parts[i].content {
        let m = members@;
        if member_str(m, "repo"@) is None {
            assert(said(m, "repo"@) =~= Seq::empty());
        }
        assert(platform_of("github"@) == Some(Platform::GitHub));
    }
}

/// A whole number is read as itself, and so is the numeral of one; nothing else but a double that writes
/// one is.
pub proof fn law_number_is_read_as_itself(n: i64, b: bool)
    ensures
        coerced_i64(Json::Int(n)) == Some(n),
        coerced_i64(Json::Null) is None,
        coerced_i64(Json::Bool(b)) is None,
{
}

/// A submission becomes a run exactly where it is for no tenant, can be read, comes from a caller with the
/// permission and a free slot of the quota, and is for an approved, provisioned repository and a stated
/// head.
pub proof fn law_submission_is_admitted_by_every_gate(
    holds_permission: bool,
    tenant: bool,
    parts: Seq<Part>,
    recent: u64,
    quota: QuotaConfig,
    repo: Option<RepoForReview>,
)
    ensures
        submission_outcome(holds_permission, tenant, parts, recent, quota, repo) is Admitted
            <==> !tenant && requested(parts) is Ok && holds_permission && recent < quota.max && repo
            is Some && repo->0.status@ == "approved"@ && repo->0.installation_id is Some
            && requested(parts)->Ok_0.head_sha is Some,
        tenant ==> submission_outcome(holds_permission, tenant, parts, recent, quota, repo)
            is Failed,
        !tenant && requested(parts) is Err ==> submission_outcome(
            holds_permission,
            tenant,
            parts,
            recent,
            quota,
            repo,
        ) is Failed,
{
}

/// Of several reasons against a submission that can be read, the caller is told the first: the permission,
/// the quota, and then the repository and the head.
pub proof fn law_submission_is_rejected_for_the_first_reason(
    holds_permission: bool,
    parts: Seq<Part>,
    recent: u64,
    quota: QuotaConfig,
    repo: Option<RepoForReview>,
)
    requires
        requested(parts) is Ok,
    ensures
        ({
            let o = submission_outcome(holds_permission, false, parts, recent, quota, repo);
            &&& !holds_permission ==> o == SubmissionOutcome::Rejected(
                "caller lacks the a2a:review permission"@,
            )
            &&& holds_permission && recent >= quota.max ==> o == SubmissionOutcome::Rejected(
                "per-identity deep-run quota exceeded"@,
            )
            &&& holds_permission && recent < quota.max && repo is None ==> o
                == SubmissionOutcome::Rejected("repository is not connected to Lightbridge"@)
            &&& holds_permission && recent < quota.max && repo is Some && repo->0.status@
                != "approved"@ ==> o == SubmissionOutcome::Rejected(
                "repository is not approved (awaiting admin approval)"@,
            )
            &&& holds_permission && recent < quota.max && repo is Some && repo->0.status@
                == "approved"@ && repo->0.installation_id is None ==> o
                == SubmissionOutcome::Rejected(
                "repository is connected but not fully provisioned (no installation)"@,
            )
        }),
{
}

/// The quota lets a caller through as long as fewer of its submissions count than it may make, and not at
/// the full number.
pub proof fn law_quota_is_the_most_there_may_be(
    pending: Pending,
    recent: u64,
    quota: QuotaConfig,
    r: Result<Pending, Rejection>,
)
    requires
        call_ensures(check_quota, (pending, recent, quota), r),
    ensures
        r is Ok <==> recent < quota.max,
        r is Ok ==> r->Ok_0 == pending,
        r is Err ==> r->Err_0.stored.state == TaskState::Rejected && r->Err_0.a2a_task_id
            == pending.a2a_task_id,
{
}

/// The first gates let through exactly the requests that are for no tenant, can be read and come from a
/// caller with the review permission; what goes on is what was asked for, under the caller's name.
pub proof fn law_first_gates_let_through(
    caller: &CallerCtx,
    req: SubmitRequest,
    a2a_task_id: u128,
    fresh: &str,
    r: Begun,
)
    requires
        call_ensures(begin_submission, (caller, req, a2a_task_id, fresh), r),
    ensures
        r is CountRecent <==> req.tenant is None && requested(req.parts@) is Ok && exists|i: int|
            0 <= i < caller.perms@.len() && (#[trigger] caller.perms@[i])@ == "a2a:review"@,
        r is Failed <==> req.tenant is Some || requested(req.parts@) is Err,
        r matches Begun::CountRecent(p) ==> p.caller_id@ == caller.id@ && p.a2a_task_id
            == a2a_task_id && p.input@ == requested(req.parts@)->Ok_0 && p.context_id@ == (
        if req.context_id is Some {
            req.context_id->0@
        } else {
            fresh@
        }),
{
    let held = crate::text::views(caller.perms@);
    if held.contains("a2a:review"@) {
        let i = choose|i: int| 0 <= i < held.len() && held[i] == "a2a:review"@;
        assert(caller.perms@[i]@ == "a2a:review"@);
    }
    if exists|i: int| 0 <= i < caller.perms@.len() && (#[trigger] caller.perms@[i])@ == "a2a:review"@ {
        let i = choose|i: int|
            0 <= i < caller.perms@.len() && (#[trigger] caller.perms@[i])@ == "a2a:review"@;
        assert(held[i] == "a2a:review"@);
    }
}

/// The last gate admits exactly for a repository that is approved and provisioned, and with a head; the
/// run is for that repository, that pull request and that head.
pub proof fn law_repository_gate_admits(
    pending: Pending,
    repo: Option<RepoForReview>,
    r: Result<Admitted, Rejection>,
)
    requires
        call_ensures(check_repository, (pending, repo), r),
    ensures
        r is Ok <==> repo is Some && repo->0.status@ == "approved"@ && repo->0.installation_id
            is Some && pending.input.head_sha is Some,
        r matches Ok(a) ==> {
            let t = a.new_task@;
            &&& t.repository_id == repo->0.id
            &&& Some(t.installation_id) == repo->0.installation_id
            &&& t.target_type == "pull_request"@
            &&& t.target_id == pending.input.pr
            &&& t.command_text == pending.input.prompt@
            &&& t.head_sha == opt_view(pending.input.head_sha)
            &&& t.base_sha == opt_view(pending.input.base_sha)
            &&& t.run_epoch == 0
            &&& t.preset == "deep"@
            &&& t.entry_point == "a2a"@
            &&& t.webhook_delivery_id == "a2a:"@ + text_of_uuid(pending.a2a_task_id)
            &&& t.run_after_secs is None && t.model_override is None && t.trigger_comment_id is None
            &&& !t.check_runs_enabled
        },
{
}

/// A rejection is a task that says so: rejected, without a run, under the caller's name and with the
/// reason; a submission that was taken names its run instead.
pub proof fn law_task_says_whose_it_is_and_why(
    caller_id: Seq<char>,
    reason: Seq<char>,
    underlying: u128,
)
    ensures
        ({
            let m = rejected_metadata(caller_id, reason);
            &&& m.dom().contains("lb.callerId"@) && m["lb.callerId"@] == JsonView::Str(caller_id)
            &&& m.dom().contains("lb.rejectionReason"@) && m["lb.rejectionReason"@]
                == JsonView::Str(reason)
            &&& m.dom().contains("lb.skill"@) && m["lb.skill"@] == JsonView::Str("review"@)
            &&& !m.dom().contains("lb.underlyingTaskId"@)
        }),
        ({
            let m = submitted_metadata(caller_id, underlying);
            &&& m.dom().contains("lb.callerId"@) && m["lb.callerId"@] == JsonView::Str(caller_id)
            &&& m.dom().contains("lb.underlyingTaskId"@) && m["lb.underlyingTaskId"@]
                == JsonView::Str(text_of_uuid(underlying))
            &&& m.dom().contains("lb.skill"@) && m["lb.skill"@] == JsonView::Str("review"@)
            &&& !m.dom().contains("lb.rejectionReason"@)
            &&& !client_metadata(m).dom().contains("lb.callerId"@)
            &&& !client_metadata(m).dom().contains("lb.skill"@)
            &&& client_metadata(m).dom().contains("lb.underlyingTaskId"@)
            &&& client_metadata(m)["lb.underlyingTaskId"@] == JsonView::Str(
                text_of_uuid(underlying),
            )
        }),
        view_metadata(Some(underlying)).dom().contains("lb.underlyingTaskId"@),
        view_metadata(Some(underlying))["lb.underlyingTaskId"@] == JsonView::Str(
            text_of_uuid(underlying),
        ),
        view_metadata(None).dom() == Set::<Seq<char>>::empty(),
{
    reveal_strlit("lb.callerId");
    reveal_strlit("lb.rejectionReason");
    reveal_strlit("lb.skill");
    reveal_strlit("lb.underlyingTaskId");
    assert("lb.callerId"@[3] == 'c');
    assert("lb.rejectionReason"@[3] == 'r');
    assert("lb.skill"@[3] == 's');
    assert("lb.underlyingTaskId"@[3] == 'u');
    assert(view_metadata(None).dom() =~= Set::<Seq<char>>::empty());
}

/// A rejection is stored as a rejected task of the caller, with nothing to show.
pub proof fn law_rejection_fronts_no_run(
    r: Rejection,
    caller_id: Seq<char>,
    a2a_task_id: u128,
    context_id: Seq<char>,
    reason: Seq<char>,
)
    requires
        is_rejection(r, caller_id, a2a_task_id, context_id, reason),
    ensures
        r.stored.state == TaskState::Rejected,
        r.stored.artifacts is None,
        r.stored.id@ == text_of_uuid(a2a_task_id),
        r.stored.context_id@ == context_id,
        terminal(r.stored.state),
{
}

/// The artifact of a review: its summary, or a placeholder for a blank one, then its findings as they
/// are, and what was reviewed, each under its own key.
pub proof fn law_artifact_shows_the_review(
    artifact: Artifact,
    summary: Seq<char>,
    findings: Json,
    context: ReviewContext,
)
    requires
        is_review_artifact(artifact, summary, findings, context),
    ensures
        artifact.parts@.len() == 3,
        trimmed(summary).len() > 0 ==> part_text(artifact.parts@[0]) == Some(summary),
        trimmed(summary).len() == 0 ==> part_text(artifact.parts@[0]) == Some(
            "Review completed with no summary."@,
        ),
        artifact.parts@[1].content == PartContent::Data(findings),
        artifact.parts@[2].content matches PartContent::Data(Json::Object(m)) && {
            &&& context.repo is Some ==> member_str(m@, "repo"@) == opt_view(context.repo)
            &&& context.pr is Some ==> member(m@, "pr"@) == Some(Json::Int(context.pr->0))
            &&& context.base_sha is Some ==> member_str(m@, "baseSha"@) == opt_view(
                context.base_sha,
            )
            &&& context.head_sha is Some ==> member_str(m@, "headSha"@) == opt_view(
                context.head_sha,
            )
            &&& context.review_url is Some ==> member_str(m@, "reviewUrl"@) == opt_view(
                context.review_url,
            )
            &&& context.base_sha is Some ==> member_str(m@, "scope"@) == Some("diff"@)
            &&& context.base_sha is None && context.head_sha is Some ==> member_str(m@, "scope"@)
                == Some("whole-tree"@)
            &&& context.base_sha is None && context.head_sha is None ==> member(m@, "scope"@)
                == Some(Json::Null)
        },
{
    reveal_strlit("repo");
    reveal_strlit("pr");
    reveal_strlit("baseSha");
    reveal_strlit("headSha");
    reveal_strlit("scope");
    reveal_strlit("reviewUrl");
    assert("repo"@[0] == 'r' && "repo"@.len() == 4);
    assert("pr"@[0] == 'p');
    assert("baseSha"@[0] == 'b');
    assert("headSha"@[0] == 'h');
    assert("scope"@[0] == 's');
    assert("reviewUrl"@[0] == 'r' && "reviewUrl"@.len() == 9);
    reveal_with_fuel(member, 7);
}

/// The echo of a review names the run's repository, pull request and commits.
pub proof fn law_echo_is_of_the_run(context: ReviewContext, run: RunRow, url: Option<Seq<char>>)
    requires
        is_context_of(context, Some(run), url),
    ensures
        context.pr == Some(run.target_id),
        opt_view(context.base_sha) == opt_view(run.base_sha),
        opt_view(context.head_sha) == opt_view(run.head_sha),
        opt_view(context.review_url) == url,
        run.repo_owner is Some && run.repo_name is Some ==> opt_view(context.repo) == Some(
            run.repo_owner->0@ + "/"@ + run.repo_name->0@,
        ),
{
}

/// Unless configured, a caller may make twenty submissions an hour, hold ten registrations on a task and
/// eight streams.
pub proof fn law_limits_unless_configured(q: QuotaConfig, l: HandlerLimits)
    requires
        call_ensures(quota_from_env, (None::<&str>, None::<&str>), q),
        call_ensures(HandlerLimits::from_env, (None::<&str>, None::<&str>), l),
    ensures
        q.max == 20,
        q.window_secs == 3600,
        l.push_config_cap == 10,
        l.max_streams_per_caller == 8,
{
}

} // verus!
