//! Translations between the task queue and the protocol: task states, the `review` request, and the
//! artifact of a completed review.

use vstd::prelude::*;

use crate::a2a::model::{
    part_text, terminal, Artifact, Metadata, Part, PartContent, Task, TaskState,
};
use crate::json::{coerced_i64, json_to_i64, member, member_str, Json};
use crate::platform::{platform_of, Platform};
use crate::text::{
    joined, opt_view, position_from, trimmed,
};
use crate::{json, text};

verus! {

/// The protocol state of a run's status. A status that is not known counts as in progress, so that a
/// poller never takes a running review for a finished one.
pub open spec fn state_of_status(status: Seq<char>) -> TaskState {
    if status == "received"@ || status == "queued"@ || status == "waiting_for_index"@ {
        TaskState::Submitted
    } else if status == "running"@ || status == "posting_result"@ {
        TaskState::Working
    } else if status == "succeeded"@ {
        TaskState::Completed
    } else if status == "failed"@ || status == "timed_out"@ {
        TaskState::Failed
    } else if status == "cancelled"@ {
        TaskState::Canceled
    } else {
        TaskState::Working
    }
}

/// The protocol state of a run's status.
pub fn task_state_from_status(status: &str) -> (r: TaskState)
    ensures
        r == state_of_status(status@),
{
    if text::same(status, "received") || text::same(status, "queued") || text::same(
        status,
        "waiting_for_index",
    ) {
        TaskState::Submitted
    } else if text::same(status, "running") || text::same(status, "posting_result") {
        TaskState::Working
    } else if text::same(status, "succeeded") {
        TaskState::Completed
    } else if text::same(status, "failed") || text::same(status, "timed_out") {
        TaskState::Failed
    } else if text::same(status, "cancelled") {
        TaskState::Canceled
    } else {
        TaskState::Working
    }
}

/// Only the four finished statuses read as terminal; any other, known or not, does not.
pub proof fn law_only_finished_statuses_are_terminal(status: Seq<char>)
    ensures
        terminal(state_of_status(status)) <==> status == "succeeded"@ || status == "failed"@
            || status == "timed_out"@ || status == "cancelled"@,
{
    reveal_strlit("received");
    reveal_strlit("queued");
    reveal_strlit("waiting_for_index");
    reveal_strlit("running");
    reveal_strlit("posting_result");
    reveal_strlit("succeeded");
    reveal_strlit("failed");
    reveal_strlit("timed_out");
    reveal_strlit("cancelled");
    assert("succeeded"@[0] == 's');
    assert("failed"@[0] == 'f');
    assert("timed_out"@[0] == 't');
    assert("cancelled"@[0] == 'c');
    assert("received"@[0] == 'r');
    assert("queued"@[0] == 'q');
    assert("waiting_for_index"@[0] == 'w');
    assert("running"@[0] == 'r');
    assert("posting_result"@[0] == 'p');
}

/// Why a message is no `review` request.
#[derive(Debug, PartialEq, Eq)]
pub enum ParseError {
    /// No structured part names a target. Prose cannot: nothing here can resolve one from it.
    NoTargetData,
    /// Another skill than `review` was asked for.
    UnsupportedSkill(String),
    /// A field is missing or malformed.
    BadField(&'static str),
}

/// The mathematical value of a [`ParseError`].
pub enum ParseErrorView {
    NoTargetData,
    UnsupportedSkill(Seq<char>),
    BadField(Seq<char>),
}

impl View for ParseError {
    type V = ParseErrorView;

    open spec fn view(&self) -> ParseErrorView {
        match *self {
            ParseError::NoTargetData => ParseErrorView::NoTargetData,
            ParseError::UnsupportedSkill(s) => ParseErrorView::UnsupportedSkill(s@),
            ParseError::BadField(f) => ParseErrorView::BadField(f@),
        }
    }
}

/// The text that std's `Debug` makes of a string: quoted, with its escapes.
pub uninterp spec fn debug_text(s: Seq<char>) -> Seq<char>;

/// std's `Debug` of a string: the string between double quotes, with what cannot be printed, quotes and
/// backslashes escaped; which escapes those are is left to the named result.
#[verifier::external_body]
pub(crate) fn debug_quoted(s: &str) -> (r: String)
    ensures
        r@ == debug_text(s@),
{
    format!("{s:?}")
}

/// The sentence a parse failure is answered with.
pub open spec fn parse_message(e: ParseErrorView) -> Seq<char> {
    match e {
        ParseErrorView::NoTargetData => "no structured `data` part with the review target: an A2A review needs the precise target in a `data` part — at minimum `repo` (\"owner/name\"), `pr`, and `headSha`. A natural-language `text` part sets the review's emphasis only, never its target or scope. See docs/a2a-review-skill.md."@,
        ParseErrorView::UnsupportedSkill(s) => "unsupported skill "@ + debug_text(s)
            + "; only `review` is available in this phase"@,
        ParseErrorView::BadField(f) => "missing or invalid field: "@ + f,
    }
}

impl ParseError {
    /// The sentence a parse failure is answered with.
    pub fn message(&self) -> (r: String)
        ensures
            r@ == parse_message(self@),
    {
        match self {
            ParseError::NoTargetData => "no structured `data` part with the review target: an A2A review needs the precise target in a `data` part — at minimum `repo` (\"owner/name\"), `pr`, and `headSha`. A natural-language `text` part sets the review's emphasis only, never its target or scope. See docs/a2a-review-skill.md.".to_owned(),
            ParseError::UnsupportedSkill(s) => {
                let mut r: String = "unsupported skill ".to_owned();
                r.append(debug_quoted(s.as_str()).as_str());
                r.append("; only `review` is available in this phase");
                r
            },
            ParseError::BadField(f) => {
                let mut r: String = "missing or invalid field: ".to_owned();
                r.append(f);
                r
            },
        }
    }
}

/// A `review` request: target, scope and focus.
#[derive(Debug, PartialEq, Eq)]
pub struct ReviewInput {
    pub platform: Platform,
    pub owner: String,
    pub name: String,
    pub pr: i64,
    /// What the caller asked to focus on.
    pub prompt: String,
    pub base_sha: Option<String>,
    pub head_sha: Option<String>,
}

/// The mathematical value of a [`ReviewInput`].
pub struct ReviewInputView {
    pub platform: Platform,
    pub owner: Seq<char>,
    pub name: Seq<char>,
    pub pr: i64,
    pub prompt: Seq<char>,
    pub base_sha: Option<Seq<char>>,
    pub head_sha: Option<Seq<char>>,
}

impl View for ReviewInput {
    type V = ReviewInputView;

    open spec fn view(&self) -> ReviewInputView {
        ReviewInputView {
            platform: self.platform,
            owner: self.owner@,
            name: self.name@,
            pr: self.pr,
            prompt: self.prompt@,
            base_sha: opt_view(self.base_sha),
            head_sha: opt_view(self.head_sha),
        }
    }
}

/// The recorded intent of a request that states none.
pub const DEFAULT_REVIEW_PROMPT: &'static str = "Deep review requested via A2A.";

/// The members of the first structured part that holds an object.
pub open spec fn first_data(parts: Seq<Part>) -> Option<Seq<(String, Json)>>
    decreases parts.len(),
{
    if parts.len() == 0 {
        None
    } else {
        match parts[0].content {
            PartContent::Data(Json::Object(members)) => Some(members@),
            _ => first_data(parts.drop_first()),
        }
    }
}

/// The texts of the text parts, in message order.
pub open spec fn texts(parts: Seq<Part>) -> Seq<Seq<char>>
    decreases parts.len(),
{
    if parts.len() == 0 {
        Seq::empty()
    } else {
        match part_text(parts.last()) {
            Some(s) => texts(parts.drop_last()).push(s),
            None => texts(parts.drop_last()),
        }
    }
}

/// The caller's instruction in prose: all text parts, one per line, trimmed; `None` where that leaves
/// nothing.
pub open spec fn instruction(parts: Seq<Part>) -> Option<Seq<char>> {
    let all = trimmed(joined(texts(parts), "\n"@));
    if all.len() == 0 {
        None
    } else {
        Some(all)
    }
}

/// A trimmed text, or `None` where nothing is left of it.
pub open spec fn non_blank(s: Option<Seq<char>>) -> Option<Seq<char>> {
    match s {
        Some(s) => if trimmed(s).len() == 0 {
            None
        } else {
            Some(trimmed(s))
        },
        None => None,
    }
}

/// The owner and the name that `owner/name` writes: two non-empty halves around the only slash.
pub open spec fn repo_halves(repo: Seq<char>) -> Option<(Seq<char>, Seq<char>)> {
    let at = position_from(repo, '/', 0);
    if at >= repo.len() {
        None
    } else {
        let owner = repo.subrange(0, at);
        let name = repo.subrange(at + 1, repo.len() as int);
        if owner.len() == 0 || name.len() == 0 || name.contains('/') {
            None
        } else {
            Some((owner, name))
        }
    }
}

/// A commit under its camel-case key, else under its snake-case key; a blank one does not count.
pub open spec fn sha_member(
    members: Seq<(String, Json)>,
    camel: Seq<char>,
    snake: Seq<char>,
) -> Option<Seq<char>> {
    non_blank(
        json::str_of(
            if member(members, camel) is Some {
                member(members, camel)
            } else {
                member(members, snake)
            },
        ),
    )
}

/// The value of an optional text, or a default.
pub open spec fn or_default(s: Option<Seq<char>>, default: Seq<char>) -> Seq<char> {
    match s {
        Some(s) => s,
        None => default,
    }
}

/// The target of a request: forge, owner, name and number, or the first field that is wrong.
pub open spec fn request_target(members: Seq<(String, Json)>) -> Result<
    (Platform, Seq<char>, Seq<char>, i64),
    ParseErrorView,
> {
    let platform = platform_of(or_default(member_str(members, "forge"@), "github"@));
    let halves = match member_str(members, "repo"@) {
        Some(repo) => repo_halves(trimmed(repo)),
        None => None,
    };
    let pr = match member(members, "pr"@) {
        Some(value) => coerced_i64(value),
        None => None,
    };
    match (platform, halves, pr) {
        (None, _, _) => Err(ParseErrorView::BadField("forge"@)),
        (_, None, _) => Err(ParseErrorView::BadField("repo"@)),
        (Some(platform), Some((owner, name)), Some(pr)) => if pr > 0 {
            Ok((platform, owner, name, pr))
        } else {
            Err(ParseErrorView::BadField("pr"@))
        },
        (_, _, None) => Err(ParseErrorView::BadField("pr"@)),
    }
}

/// The focus of a request: the instruction in prose, else the `prompt` member, else the default.
pub open spec fn request_prompt(parts: Seq<Part>, members: Seq<(String, Json)>) -> Seq<char> {
    match instruction(parts) {
        Some(s) => s,
        None => or_default(non_blank(member_str(members, "prompt"@)), DEFAULT_REVIEW_PROMPT@),
    }
}

/// What a message asks for. Target and scope are read off the first structured part alone; text parts
/// contribute the focus and nothing else.
pub open spec fn requested(parts: Seq<Part>) -> Result<ReviewInputView, ParseErrorView> {
    match first_data(parts) {
        None => Err(ParseErrorView::NoTargetData),
        Some(members) => {
            let skill = or_default(member_str(members, "skill"@), "review"@);
            if skill != "review"@ {
                Err(ParseErrorView::UnsupportedSkill(skill))
            } else {
                match request_target(members) {
                    Err(e) => Err(e),
                    Ok((platform, owner, name, pr)) => Ok(
                        ReviewInputView {
                            platform,
                            owner,
                            name,
                            pr,
                            prompt: request_prompt(parts, members),
                            base_sha: sha_member(members, "baseSha"@, "base_sha"@),
                            head_sha: sha_member(members, "headSha"@, "head_sha"@),
                        },
                    ),
                }
            }
        },
    }
}

/// The view of a parse result.
pub open spec fn parse_view(r: Result<ReviewInput, ParseError>) -> Result<
    ReviewInputView,
    ParseErrorView,
> {
    match r {
        Ok(input) => Ok(input@),
        Err(e) => Err(e@),
    }
}

fn first_data_object(parts: &[Part]) -> (r: Option<&Vec<(String, Json)>>)
    ensures
        (match r {
            Some(members) => Some(members@),
            None => None,
        }) == first_data(parts@),
{
    let mut i: usize = 0;
    assert(parts@.skip(0) =~= parts@);
    while i < parts.len()
        invariant
            i <= parts@.len(),
            first_data(parts@) == first_data(parts@.skip(i as int)),
        decreases parts@.len() - i,
    {
        assert(parts@.skip(i as int)[0] == parts@[i as int]);
        assert(parts@.skip(i as int).drop_first() =~= parts@.skip(i + 1));
        if let PartContent::Data(Json::Object(members)) = &parts[i].content {
            return Some(members);
        }
        i = i + 1;
    }
    None
}

fn collect_text_instruction(parts: &[Part]) -> (r: Option<String>)
    ensures
        opt_view(r) == instruction(parts@),
{
    let mut found: Vec<String> = Vec::new();
    let mut i: usize = 0;
    assert(parts@.take(0) =~= Seq::empty());
    assert(text::views(found@) =~= Seq::empty());
    while i < parts.len()
        invariant
            i <= parts@.len(),
            text::views(found@) == texts(parts@.take(i as int)),
        decreases parts@.len() - i,
    {
        let ghost before = found@;
        assert(parts@.take(i + 1).drop_last() =~= parts@.take(i as int));
        assert(parts@.take(i + 1).last() == parts@[i as int]);
        if let Some(s) = parts[i].as_text() {
            found.push(s.to_owned());
            assert(text::views(found@) =~= text::views(before).push(s@));
        }
        i = i + 1;
    }
    assert(parts@.take(parts@.len() as int) =~= parts@);
    let all: String = text::join(&found, "\n");
    let trimmed_all: &str = text::trim(all.as_str());
    if trimmed_all.is_empty() {
        None
    } else {
        Some(trimmed_all.to_owned())
    }
}

fn non_blank_text(s: Option<&str>) -> (r: Option<String>)
    ensures
        opt_view(r) == non_blank(text::opt_str_view(s)),
{
    match s {
        Some(s) => {
            let t: &str = text::trim(s);
            if t.is_empty() {
                None
            } else {
                Some(t.to_owned())
            }
        },
        None => None,
    }
}

/// Splits `owner/name` into its halves.
pub fn split_repo<'a>(repo: &'a str) -> (r: Option<(&'a str, &'a str)>)
    ensures
        (match r {
            Some((owner, name)) => Some((owner@, name@)),
            None => None,
        }) == repo_halves(repo@),
{
    let n: usize = repo.unicode_len();
    let mut at: usize = 0;
    while at < n && repo.get_char(at) != '/'
        invariant
            at <= n,
            n == repo@.len(),
            position_from(repo@, '/', 0) == position_from(repo@, '/', at as int),
        decreases n - at,
    {
        at = at + 1;
    }
    if at == n {
        return None;
    }
    let owner: &'a str = repo.substring_char(0, at);
    let name: &'a str = repo.substring_char(at + 1, n);
    let mut i: usize = at + 1;
    while i < n
        invariant
            at < i <= n,
            n == repo@.len(),
            at == position_from(repo@, '/', 0),
            name@ == repo@.subrange(at + 1, n as int),
            forall|k: int| at < k < i ==> repo@[k] != '/',
        decreases n - i,
    {
        if repo.get_char(i) == '/' {
            assert(name@[i - at - 1] == '/');
            return None;
        }
        i = i + 1;
    }
    assert(!name@.contains('/')) by {
        assert forall|k: int| 0 <= k < name@.len() implies name@[k] != '/' by {
            assert(name@[k] == repo@[k + at + 1]);
        }
    }
    if owner.is_empty() || name.is_empty() {
        return None;
    }
    Some((owner, name))
}

fn opt_sha(members: &Vec<(String, Json)>, camel: &str, snake: &str) -> (r: Option<String>)
    ensures
        opt_view(r) == sha_member(members@, camel@, snake@),
{
    let value: Option<&Json> = match json::get(members, camel) {
        Some(v) => Some(v),
        None => json::get(members, snake),
    };
    match value {
        Some(Json::Str(s)) => non_blank_text(Some(s.as_str())),
        _ => None,
    }
}

/// Reads a `review` request off a message.
pub fn parse_review_request(parts: &[Part]) -> (r: Result<ReviewInput, ParseError>)
    ensures
        parse_view(r) == requested(parts@),
{
    let data = match first_data_object(parts) {
        Some(data) => data,
        None => return Err(ParseError::NoTargetData),
    };
    let skill: &str = match json::get_str(data, "skill") {
        Some(s) => s,
        None => "review",
    };
    if !text::same(skill, "review") {
        return Err(ParseError::UnsupportedSkill(skill.to_owned()));
    }
    let forge: &str = match json::get_str(data, "forge") {
        Some(s) => s,
        None => "github",
    };
    let platform: Platform = match Platform::from_name(forge) {
        Some(p) => p,
        None => return Err(ParseError::BadField("forge")),
    };
    let repo: &str = match json::get_str(data, "repo") {
        Some(s) => text::trim(s),
        None => return Err(ParseError::BadField("repo")),
    };
    let (owner, name) = match split_repo(repo) {
        Some(halves) => halves,
        None => return Err(ParseError::BadField("repo")),
    };
    let number: Option<i64> = match json::get(data, "pr") {
        Some(value) => json_to_i64(value),
        None => None,
    };
    let pr: i64 = match number {
        Some(n) => n,
        None => return Err(ParseError::BadField("pr")),
    };
    if pr <= 0 {
        return Err(ParseError::BadField("pr"));
    }
    let prompt: String = match collect_text_instruction(parts) {
        Some(s) => s,
        None => match non_blank_text(json::get_str(data, "prompt")) {
            Some(s) => s,
            None => DEFAULT_REVIEW_PROMPT.to_owned(),
        },
    };
    Ok(
        ReviewInput {
            platform,
            owner: owner.to_owned(),
            name: name.to_owned(),
            pr,
            prompt,
            base_sha: opt_sha(data, "baseSha", "base_sha"),
            head_sha: opt_sha(data, "headSha", "head_sha"),
        },
    )
}

/// Prose never redirects a review: two messages whose first structured parts agree ask for the same
/// target and scope, or fail alike, whatever their text parts say. Only the focus may differ.
pub proof fn law_text_never_sets_target_or_scope(a: Seq<Part>, b: Seq<Part>)
    requires
        first_data(a) == first_data(b),
    ensures
        match (requested(a), requested(b)) {
            (Ok(x), Ok(y)) => x.platform == y.platform && x.owner == y.owner && x.name == y.name
                && x.pr == y.pr && x.base_sha == y.base_sha && x.head_sha == y.head_sha,
            (Err(e), Err(f)) => e == f,
            _ => false,
        },
{
}

/// A message that carries an instruction in prose is recorded with exactly that instruction, whatever
/// the structured part proposes.
pub proof fn law_text_instruction_wins(parts: Seq<Part>)
    requires
        requested(parts) is Ok,
        instruction(parts) is Some,
    ensures
        requested(parts)->Ok_0.prompt == instruction(parts)->0,
{
}

/// What a completed review was about, echoed to the caller.
#[derive(Debug, Default, PartialEq, Eq)]
pub struct ReviewContext {
    pub repo: Option<String>,
    pub pr: Option<i64>,
    pub base_sha: Option<String>,
    pub head_sha: Option<String>,
    pub review_url: Option<String>,
}

/// The scope that was asked for: a diff where a base was given, else the whole tree at the head; not
/// known where there is no head either.
pub open spec fn scope_of(context: ReviewContext) -> Option<Seq<char>> {
    if context.base_sha is Some {
        Some("diff"@)
    } else if context.head_sha is Some {
        Some("whole-tree"@)
    } else {
        None
    }
}

/// Whether a value is the string `s`, or null where there is none.
pub open spec fn is_text_or_null(value: Json, s: Option<Seq<char>>) -> bool {
    match s {
        Some(s) => value matches Json::Str(t) && t@ == s,
        None => value == Json::Null,
    }
}

/// Whether a value is the integer `n`, or null where there is none.
pub open spec fn is_int_or_null(value: Json, n: Option<i64>) -> bool {
    match n {
        Some(n) => value == Json::Int(n),
        None => value == Json::Null,
    }
}

/// Whether a value is the echo of a context: all six members, null where a field is not known.
pub open spec fn is_context_data(value: Json, context: ReviewContext) -> bool {
    value matches Json::Object(members) && {
        &&& members@.len() == 6
        &&& members@[0].0@ == "repo"@ && is_text_or_null(members@[0].1, opt_view(context.repo))
        &&& members@[1].0@ == "pr"@ && is_int_or_null(members@[1].1, context.pr)
        &&& members@[2].0@ == "baseSha"@ && is_text_or_null(
            members@[2].1,
            opt_view(context.base_sha),
        )
        &&& members@[3].0@ == "headSha"@ && is_text_or_null(
            members@[3].1,
            opt_view(context.head_sha),
        )
        &&& members@[4].0@ == "scope"@ && is_text_or_null(members@[4].1, scope_of(context))
        &&& members@[5].0@ == "reviewUrl"@ && is_text_or_null(
            members@[5].1,
            opt_view(context.review_url),
        )
    }
}

fn text_or_null(s: &Option<String>) -> (r: Json)
    ensures
        is_text_or_null(r, opt_view(*s)),
{
    match s {
        Some(s) => Json::Str(s.clone()),
        None => Json::Null,
    }
}

impl ReviewContext {
    /// The scope that was asked for.
    pub fn scope(&self) -> (r: Option<&'static str>)
        ensures
            text::opt_str_view(r) == scope_of(*self),
    {
        if self.base_sha.is_some() {
            Some("diff")
        } else if self.head_sha.is_some() {
            Some("whole-tree")
        } else {
            None
        }
    }

    /// The structured echo of the context.
    pub fn to_data(&self) -> (r: Json)
        ensures
            is_context_data(r, *self),
    {
        let pr: Json = match self.pr {
            Some(n) => Json::Int(n),
            None => Json::Null,
        };
        let scope: Json = match self.scope() {
            Some(s) => Json::Str(s.to_owned()),
            None => Json::Null,
        };
        let mut members: Vec<(String, Json)> = Vec::new();
        members.push(("repo".to_owned(), text_or_null(&self.repo)));
        members.push(("pr".to_owned(), pr));
        members.push(("baseSha".to_owned(), text_or_null(&self.base_sha)));
        members.push(("headSha".to_owned(), text_or_null(&self.head_sha)));
        members.push(("scope".to_owned(), scope));
        members.push(("reviewUrl".to_owned(), text_or_null(&self.review_url)));
        Json::Object(members)
    }
}

/// The summary line of an artifact; a blank summary gets a placeholder.
pub open spec fn summary_line(summary: Seq<char>) -> Seq<char> {
    if trimmed(summary).len() == 0 {
        "Review completed with no summary."@
    } else {
        summary
    }
}

/// Whether a part is structured JSON with the given value.
pub open spec fn is_json_part(part: Part, value: Json) -> bool {
    part.content == PartContent::Data(value) && opt_view(part.media_type) == Some(
        "application/json"@,
    )
}

/// Whether an artifact is the output of a completed review: its summary, its findings as they are, and
/// the echo of what was reviewed.
pub open spec fn is_review_artifact(
    artifact: Artifact,
    summary: Seq<char>,
    findings: Json,
    context: ReviewContext,
) -> bool {
    &&& artifact.artifact_id@ == "review"@
    &&& opt_view(artifact.name) == Some("review"@)
    &&& opt_view(artifact.description) == Some(
        "Deep review summary, structured findings, and the review context (effective base/head SHAs, scope, and the posted-review permalink)."@,
    )
    &&& artifact.parts@.len() == 3
    &&& part_text(artifact.parts@[0]) == Some(summary_line(summary))
    &&& artifact.parts@[0].media_type is None
    &&& is_json_part(artifact.parts@[1], findings)
    &&& artifact.parts@[2].content matches PartContent::Data(echo) && is_json_part(
        artifact.parts@[2],
        echo,
    ) && is_context_data(echo, context)
}

fn json_part(value: Json) -> (r: Part)
    ensures
        is_json_part(r, value),
{
    Part { content: PartContent::Data(value), media_type: Some("application/json".to_owned()) }
}

/// The artifacts of a completed review: exactly one.
pub fn review_artifacts(summary: &str, findings: Json, context: &ReviewContext) -> (r: Vec<
    Artifact,
>)
    ensures
        r@.len() == 1,
        is_review_artifact(r@[0], summary@, findings, *context),
{
    let line: String = if text::blank(summary) {
        "Review completed with no summary.".to_owned()
    } else {
        summary.to_owned()
    };
    let mut parts: Vec<Part> = Vec::new();
    parts.push(Part::text(line));
    parts.push(json_part(findings));
    parts.push(json_part(context.to_data()));
    let artifact = Artifact {
        artifact_id: "review".to_owned(),
        name: Some("review".to_owned()),
        description: Some(
            "Deep review summary, structured findings, and the review context (effective base/head SHAs, scope, and the posted-review permalink).".to_owned(),
        ),
        parts,
    };
    vec![artifact]
}

/// A task view from its parts.
pub fn build_task_view(
    a2a_task_id: &str,
    context_id: &str,
    state: TaskState,
    artifacts: Option<Vec<Artifact>>,
    metadata: Option<Metadata>,
) -> (r: Task)
    ensures
        r.id@ == a2a_task_id@,
        r.context_id@ == context_id@,
        r.state == state,
        r.artifacts == artifacts,
        r.metadata == metadata,
{
    Task {
        id: a2a_task_id.to_owned(),
        context_id: context_id.to_owned(),
        state,
        artifacts,
        metadata,
    }
}

} // verus!
