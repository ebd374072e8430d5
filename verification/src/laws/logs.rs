//! How a log is read and where a batch of it ends, and in which words refusals and failures are told.

use vstd::prelude::*;

use crate::a2a::auth::no_caller;
use crate::a2a::events::{are_at, by_number, later, LoggedEvent};
use crate::a2a::handler::{internal_error, no_token_key};
use crate::a2a::lifecycle::{is_rejection, no_tenants, rejected_metadata, Rejection};
use crate::a2a::mapping::{instruction, is_review_artifact, texts, ReviewContext};
use crate::a2a::model::{meta_map, Artifact, ErrorKind, Part, PartContent};
use crate::a2a::ssrf::{address_error, blocked, first_blocked, SsrfError, SsrfPolicy};
use crate::a2a::store::{bad_id, conflict, no_expected_version};
use crate::a2a::streaming::{
    batch_end, cursor_after, failure_error, sent, BatchEnd, Failure, Fetched,
};
use crate::db::reviews::is_value;
use crate::json::Json;
use crate::net::IpAddr;
use crate::order::{arranges, key_le, Key};
use crate::text::{joined, opt_view, trimmed};

verus! {

/// A batch ends at its first event that is final or cannot be read: what comes before it is sent, a final
/// event is sent too and one that cannot be read is not, and nothing behind it is.
pub proof fn law_batch_ends_at_its_first_end(batch: Seq<Fetched>, k: int, last_seq: i64)
    requires
        0 <= k < batch.len(),
        forall|j: int| 0 <= j < k ==> (#[trigger] batch[j]).decodes && !batch[j].is_final,
        !batch[k].decodes || batch[k].is_final,
    ensures
        !batch[k].decodes ==> batch_end(batch) == BatchEnd::Corrupt && sent(batch) == k,
        batch[k].decodes ==> batch_end(batch) == BatchEnd::Final && sent(batch) == k + 1,
        batch[k].decodes ==> cursor_after(last_seq, batch) == batch[k].seq,
        !batch[k].decodes && k > 0 ==> cursor_after(last_seq, batch) == batch[k - 1].seq,
        !batch[k].decodes && k == 0 ==> cursor_after(last_seq, batch) == last_seq,
    decreases batch.len(),
{
    if k > 0 {
        let rest = batch.drop_first();
        assert(batch[0].decodes && !batch[0].is_final);
        assert(rest[k - 1] == batch[k]);
        assert forall|j: int| 0 <= j < k - 1 implies (#[trigger] rest[j]).decodes
            && !rest[j].is_final by {
            assert(rest[j] == batch[j + 1]);
        }
        law_batch_ends_at_its_first_end(rest, k - 1, last_seq);
    }
}

/// A batch of events that can all be read and none of which is final is sent whole and ends open.
pub proof fn law_batch_without_an_end_is_sent_whole(batch: Seq<Fetched>, last_seq: i64)
    requires
        forall|j: int| 0 <= j < batch.len() ==> (#[trigger] batch[j]).decodes && !batch[j].is_final,
    ensures
        batch_end(batch) == BatchEnd::Open,
        sent(batch) == batch.len(),
        batch.len() > 0 ==> cursor_after(last_seq, batch) == batch[batch.len() - 1].seq,
        batch.len() == 0 ==> cursor_after(last_seq, batch) == last_seq,
    decreases batch.len(),
{
    if batch.len() > 0 {
        let rest = batch.drop_first();
        assert(batch[0].decodes && !batch[0].is_final);
        assert forall|j: int| 0 <= j < rest.len() implies (#[trigger] rest[j]).decodes
            && !rest[j].is_final by {
            assert(rest[j] == batch[j + 1]);
        }
        law_batch_without_an_end_is_sent_whole(rest, last_seq);
    }
}

/// What is read of a log after a number are the events with a greater number, all of them, as they were
/// logged, in ascending order.
pub proof fn law_log_is_read_from_a_number_on<P>(
    r: Seq<&LoggedEvent<P>>,
    log: Seq<LoggedEvent<P>>,
    places: Seq<usize>,
    after_seq: i64,
    i: int,
)
    requires
        arranges(places, later(log, after_seq), by_number(log)),
        are_at(r, log, places),
        0 <= i < log.len(),
    ensures
        forall|a: int| 0 <= a < r.len() ==> (#[trigger] r[a]).seq > after_seq,
        forall|a: int, b: int|
            0 <= a < b < r.len() ==> (#[trigger] r[a]).seq <= (#[trigger] r[b]).seq,
        log[i].seq > after_seq ==> exists|a: int| 0 <= a < r.len() && *(#[trigger] r[a]) == log[i],
{
    let selected = later(log, after_seq);
    assert forall|a: int| 0 <= a < r.len() implies (#[trigger] r[a]).seq > after_seq by {
        assert(*r[a] == log[places[a] as int]);
        assert(selected[places[a] as int]);
    }
    assert forall|a: int, b: int| 0 <= a < b < r.len() implies (#[trigger] r[a]).seq <= (
    #[trigger] r[b]).seq by {
        assert(*r[a] == log[places[a] as int] && *r[b] == log[places[b] as int]);
        assert(selected[places[a] as int] && selected[places[b] as int]);
    }
    if log[i].seq > after_seq {
        assert(selected[i]);
        let a = choose|a: int| 0 <= a < places.len() && #[trigger] places[a] == i;
        assert(*r[a] == log[i]);
    }
}

/// Keys order rows: by the major key, then by the minor, then by the identifier; every two rows can be
/// told apart or stand alike.
pub proof fn law_keys_order_rows(a: Key, b: Key, c: Key)
    ensures
        a.major < b.major ==> key_le(a, b) && !key_le(b, a),
        a.major == b.major && a.minor < b.minor ==> key_le(a, b) && !key_le(b, a),
        a.major == b.major && a.minor == b.minor && a.id < b.id ==> key_le(a, b) && !key_le(b, a),
        key_le(a, a),
        key_le(a, b) && key_le(b, a) ==> a == b,
        key_le(a, b) || key_le(b, a),
        key_le(a, b) && key_le(b, c) ==> key_le(a, c),
{
}

/// An update that lost a race is refused as such, to be tried again.
pub proof fn law_lost_race_is_told()
    ensures
        conflict().kind == ErrorKind::InvalidRequest,
        conflict().message
            == "optimistic-concurrency conflict: the task was modified concurrently; re-read and retry"@,
{
}

/// The instruction in prose is what the text parts say, one under the other, without the white space
/// around it; parts that are no text say nothing, and nothing said is no instruction.
pub proof fn law_instruction_is_what_the_texts_say(parts: Seq<Part>, p: Part)
    ensures
        texts(Seq::empty()).len() == 0,
        p.content is Text ==> texts(parts.push(p)) == texts(parts).push(p.content->Text_0@),
        !(p.content is Text) ==> texts(parts.push(p)) == texts(parts),
        !(p.content is Text) ==> instruction(parts.push(p)) == instruction(parts),
        instruction(parts) is None <==> trimmed(joined(texts(parts), "\n"@)).len() == 0,
        instruction(parts) is Some ==> instruction(parts)->0 == trimmed(joined(texts(parts), "\n"@)),
{
    assert(parts.push(p).drop_last() =~= parts);
}

/// The artifact of a review is called that, with its findings and its context as JSON; what is not known
/// of the context is null.
pub proof fn law_artifact_is_a_review(
    artifact: Artifact,
    summary: Seq<char>,
    findings: Json,
    context: ReviewContext,
)
    requires
        is_review_artifact(artifact, summary, findings, context),
    ensures
        artifact.artifact_id@ == "review"@,
        opt_view(artifact.name) == Some("review"@),
        opt_view(artifact.description) == Some(
            "Deep review summary, structured findings, and the review context (effective base/head SHAs, scope, and the posted-review permalink)."@,
        ),
        artifact.parts@[0].media_type is None,
        opt_view(artifact.parts@[1].media_type) == Some("application/json"@),
        opt_view(artifact.parts@[2].media_type) == Some("application/json"@),
        artifact.parts@[2].content matches PartContent::Data(Json::Object(m)) && {
            &&& m@.len() == 6
            &&& m@[0].0@ == "repo"@ && (context.repo is None ==> m@[0].1 == Json::Null)
            &&& m@[1].0@ == "pr"@ && (context.pr is None ==> m@[1].1 == Json::Null)
            &&& m@[2].0@ == "baseSha"@ && (context.base_sha is None ==> m@[2].1 == Json::Null)
            &&& m@[3].0@ == "headSha"@ && (context.head_sha is None ==> m@[3].1 == Json::Null)
            &&& m@[4].0@ == "scope"@
            &&& m@[5].0@ == "reviewUrl"@ && (context.review_url is None ==> m@[5].1 == Json::Null)
        },
{
}

/// A rejected submission is answered under its own ids, as a task that says who asked and why it was
/// refused.
pub proof fn law_rejection_is_the_submissions_own(
    r: Rejection,
    caller_id: Seq<char>,
    a2a_task_id: u128,
    context_id: Seq<char>,
    reason: Seq<char>,
)
    requires
        is_rejection(r, caller_id, a2a_task_id, context_id, reason),
    ensures
        r.a2a_task_id == a2a_task_id,
        r.context_id@ == context_id,
        r.stored.context_id@ == context_id,
        r.stored.metadata is Some,
        meta_map(r.stored.metadata) == rejected_metadata(caller_id, reason),
{
}

/// What goes wrong is told in a sentence of its own, under the kind of error it is.
pub proof fn law_errors_have_their_sentences()
    ensures
        no_tenants().kind == ErrorKind::UnsupportedOperation && no_tenants().message
            == "multi-tenant A2A requests are not supported"@,
        bad_id().kind == ErrorKind::InvalidParams && bad_id().message
            == "a2a taskId must be a uuid"@,
        no_expected_version().kind == ErrorKind::Internal && no_expected_version().message
            == "a2a store: update without an expected version (call get first)"@,
        internal_error().kind == ErrorKind::Internal && internal_error().message
            == "internal error"@,
        no_token_key().kind == ErrorKind::InvalidParams && no_token_key().message
            == "push token encryption is not configured; this server cannot accept a webhook auth token"@,
        no_caller().kind == ErrorKind::Internal && no_caller().message
            == "a2a: missing authenticated caller"@,
        failure_error(Failure::Internal).kind == ErrorKind::Internal && failure_error(
            Failure::Internal,
        ).message == "internal error"@,
        failure_error(Failure::Capacity).kind == ErrorKind::Internal && failure_error(
            Failure::Capacity,
        ).message == "streaming capacity reached; retry shortly or poll GetTask"@,
{
}

/// Of the addresses of a host the first that is denied is the one that is told.
pub proof fn law_first_denied_address_is_told(addrs: Seq<IpAddr>, policy: SsrfPolicy, i: int)
    requires
        0 <= i < addrs.len(),
        blocked(addrs[i], policy),
        forall|j: int| 0 <= j < i ==> !blocked(#[trigger] addrs[j], policy),
    ensures
        first_blocked(addrs, policy) == Some(SsrfError::BlockedAddress(addrs[i])),
        address_error(addrs, policy) == Some(SsrfError::BlockedAddress(addrs[i])),
    decreases addrs.len(),
{
    if i > 0 {
        let rest = addrs.drop_first();
        assert(!blocked(addrs[0], policy));
        assert(rest[i - 1] == addrs[i]);
        assert forall|j: int| 0 <= j < i - 1 implies !blocked(#[trigger] rest[j], policy) by {
            assert(rest[j] == addrs[j + 1]);
        }
        law_first_denied_address_is_told(rest, policy, i - 1);
    }
}

/// A host without addresses is refused for that.
pub proof fn law_host_without_addresses_is_refused(policy: SsrfPolicy)
    ensures
        address_error(Seq::empty(), policy) == Some(SsrfError::NoAddresses),
{
}

/// What is found is exactly what is there.
pub proof fn law_found_value_is_the_one_there(found: Option<&Json>, there: Option<Json>)
    requires
        is_value(found, there),
    ensures
        found is Some <==> there is Some,
        found is Some ==> *found->0 == there->0,
{
}

} // verus!
