//! The values of the agent-to-agent protocol that decisions are made on: task states, errors, message
//! parts, artifacts and tasks with their metadata.

use vstd::prelude::*;

use crate::json::{member, Json};
use crate::{json, text};

verus! {

/// The lifecycle state of a task.
#[derive(Clone, Copy, Debug, PartialEq, Eq, Structural)]
pub enum TaskState {
    Unspecified,
    Submitted,
    Working,
    Completed,
    Failed,
    Canceled,
    InputRequired,
    Rejected,
    AuthRequired,
}

/// Whether a task in this state changes no more.
pub open spec fn terminal(state: TaskState) -> bool {
    ||| state == TaskState::Completed
    ||| state == TaskState::Failed
    ||| state == TaskState::Canceled
    ||| state == TaskState::Rejected
}

/// The name of a state on the wire.
pub open spec fn wire_name(state: TaskState) -> Seq<char> {
    match state {
        TaskState::Unspecified => "TASK_STATE_UNSPECIFIED"@,
        TaskState::Submitted => "TASK_STATE_SUBMITTED"@,
        TaskState::Working => "TASK_STATE_WORKING"@,
        TaskState::Completed => "TASK_STATE_COMPLETED"@,
        TaskState::Failed => "TASK_STATE_FAILED"@,
        TaskState::Canceled => "TASK_STATE_CANCELED"@,
        TaskState::InputRequired => "TASK_STATE_INPUT_REQUIRED"@,
        TaskState::Rejected => "TASK_STATE_REJECTED"@,
        TaskState::AuthRequired => "TASK_STATE_AUTH_REQUIRED"@,
    }
}

/// The state a wire name stands for; an unknown name is an unspecified state.
pub open spec fn state_of_wire(wire: Seq<char>) -> TaskState {
    if wire == wire_name(TaskState::Submitted) {
        TaskState::Submitted
    } else if wire == wire_name(TaskState::Working) {
        TaskState::Working
    } else if wire == wire_name(TaskState::Completed) {
        TaskState::Completed
    } else if wire == wire_name(TaskState::Failed) {
        TaskState::Failed
    } else if wire == wire_name(TaskState::Canceled) {
        TaskState::Canceled
    } else if wire == wire_name(TaskState::InputRequired) {
        TaskState::InputRequired
    } else if wire == wire_name(TaskState::Rejected) {
        TaskState::Rejected
    } else if wire == wire_name(TaskState::AuthRequired) {
        TaskState::AuthRequired
    } else {
        TaskState::Unspecified
    }
}

impl TaskState {
    /// Whether a task in this state changes no more.
    pub fn is_terminal(&self) -> (r: bool)
        ensures
            r == terminal(*self),
    {
        matches!(
            self,
            TaskState::Completed | TaskState::Failed | TaskState::Canceled | TaskState::Rejected
        )
    }

    /// Whether the task completed.
    pub fn is_completed(&self) -> (r: bool)
        ensures
            r == (*self == TaskState::Completed),
    {
        matches!(self, TaskState::Completed)
    }
}

/// The name of a state on the wire.
pub fn state_wire(state: TaskState) -> (r: &'static str)
    ensures
        r@ == wire_name(state),
{
    match state {
        TaskState::Unspecified => "TASK_STATE_UNSPECIFIED",
        TaskState::Submitted => "TASK_STATE_SUBMITTED",
        TaskState::Working => "TASK_STATE_WORKING",
        TaskState::Completed => "TASK_STATE_COMPLETED",
        TaskState::Failed => "TASK_STATE_FAILED",
        TaskState::Canceled => "TASK_STATE_CANCELED",
        TaskState::InputRequired => "TASK_STATE_INPUT_REQUIRED",
        TaskState::Rejected => "TASK_STATE_REJECTED",
        TaskState::AuthRequired => "TASK_STATE_AUTH_REQUIRED",
    }
}

/// The state a stored wire name stands for.
pub fn state_from_wire(wire: &str) -> (r: TaskState)
    ensures
        r == state_of_wire(wire@),
{
    if text::same(wire, "TASK_STATE_SUBMITTED") {
        TaskState::Submitted
    } else if text::same(wire, "TASK_STATE_WORKING") {
        TaskState::Working
    } else if text::same(wire, "TASK_STATE_COMPLETED") {
        TaskState::Completed
    } else if text::same(wire, "TASK_STATE_FAILED") {
        TaskState::Failed
    } else if text::same(wire, "TASK_STATE_CANCELED") {
        TaskState::Canceled
    } else if text::same(wire, "TASK_STATE_INPUT_REQUIRED") {
        TaskState::InputRequired
    } else if text::same(wire, "TASK_STATE_REJECTED") {
        TaskState::Rejected
    } else if text::same(wire, "TASK_STATE_AUTH_REQUIRED") {
        TaskState::AuthRequired
    } else {
        TaskState::Unspecified
    }
}

/// Reading a state's wire name gives the state back.
pub proof fn law_state_survives_the_wire(state: TaskState)
    ensures
        state_of_wire(wire_name(state)) == state,
{
    reveal_strlit("TASK_STATE_UNSPECIFIED");
    reveal_strlit("TASK_STATE_SUBMITTED");
    reveal_strlit("TASK_STATE_WORKING");
    reveal_strlit("TASK_STATE_COMPLETED");
    reveal_strlit("TASK_STATE_FAILED");
    reveal_strlit("TASK_STATE_CANCELED");
    reveal_strlit("TASK_STATE_INPUT_REQUIRED");
    reveal_strlit("TASK_STATE_REJECTED");
    reveal_strlit("TASK_STATE_AUTH_REQUIRED");
    assert("TASK_STATE_SUBMITTED"@[11] == 'S');
    assert("TASK_STATE_WORKING"@[11] == 'W');
    assert("TASK_STATE_COMPLETED"@[11] == 'C');
    assert("TASK_STATE_COMPLETED"@[12] == 'O');
    assert("TASK_STATE_FAILED"@[11] == 'F');
    assert("TASK_STATE_CANCELED"@[11] == 'C');
    assert("TASK_STATE_CANCELED"@[12] == 'A');
    assert("TASK_STATE_INPUT_REQUIRED"@[11] == 'I');
    assert("TASK_STATE_REJECTED"@[11] == 'R');
    assert("TASK_STATE_AUTH_REQUIRED"@[11] == 'A');
    assert("TASK_STATE_UNSPECIFIED"@[11] == 'U');
}

/// What a request failed with.
#[derive(Clone, Copy, Debug, PartialEq, Eq, Structural)]
pub enum ErrorKind {
    TaskNotFound,
    TaskNotCancelable,
    UnsupportedOperation,
    InvalidRequest,
    InvalidParams,
    Internal,
}

/// The JSON-RPC code of an error.
pub open spec fn error_code(kind: ErrorKind) -> i32 {
    match kind {
        ErrorKind::TaskNotFound => -32001i32,
        ErrorKind::TaskNotCancelable => -32002i32,
        ErrorKind::UnsupportedOperation => -32004i32,
        ErrorKind::InvalidRequest => -32600i32,
        ErrorKind::InvalidParams => -32602i32,
        ErrorKind::Internal => -32603i32,
    }
}

/// A protocol error: its kind and the sentence that goes with it.
#[derive(Debug)]
pub struct A2aError {
    pub kind: ErrorKind,
    pub message: String,
}

/// The mathematical value of an [`A2aError`].
pub struct ErrorView {
    pub kind: ErrorKind,
    pub message: Seq<char>,
}

impl View for A2aError {
    type V = ErrorView;

    open spec fn view(&self) -> ErrorView {
        ErrorView { kind: self.kind, message: self.message@ }
    }
}

/// The error that answers an unknown task, or one that belongs to another caller.
pub open spec fn not_found(id: Seq<char>) -> ErrorView {
    ErrorView { kind: ErrorKind::TaskNotFound, message: "task not found: "@ + id }
}

/// The error that answers the cancellation of a finished task.
pub open spec fn not_cancelable(id: Seq<char>) -> ErrorView {
    ErrorView { kind: ErrorKind::TaskNotCancelable, message: "task cannot be canceled: "@ + id }
}

/// An error with a fixed sentence.
pub open spec fn error_view(kind: ErrorKind, message: Seq<char>) -> ErrorView {
    ErrorView { kind, message }
}

impl A2aError {
    /// The JSON-RPC code.
    pub fn code(&self) -> (r: i32)
        ensures
            r == error_code(self.kind),
    {
        match self.kind {
            ErrorKind::TaskNotFound => -32001,
            ErrorKind::TaskNotCancelable => -32002,
            ErrorKind::UnsupportedOperation => -32004,
            ErrorKind::InvalidRequest => -32600,
            ErrorKind::InvalidParams => -32602,
            ErrorKind::Internal => -32603,
        }
    }

    /// An error with a fixed sentence.
    pub fn new(kind: ErrorKind, message: &str) -> (r: A2aError)
        ensures
            r@ == error_view(kind, message@),
    {
        A2aError { kind, message: message.to_owned() }
    }

    /// The answer to an unknown or foreign task.
    pub fn task_not_found(id: &str) -> (r: A2aError)
        ensures
            r@ == not_found(id@),
    {
        let mut message: String = "task not found: ".to_owned();
        message.append(id);
        A2aError { kind: ErrorKind::TaskNotFound, message }
    }

    /// The answer to the cancellation of a finished task.
    pub fn task_not_cancelable(id: &str) -> (r: A2aError)
        ensures
            r@ == not_cancelable(id@),
    {
        let mut message: String = "task cannot be canceled: ".to_owned();
        message.append(id);
        A2aError { kind: ErrorKind::TaskNotCancelable, message }
    }
}

/// A JSON value seen from outside: a string by its text, a composite value as it is.
pub enum JsonView {
    Null,
    Bool(bool),
    Int(i64),
    Float(u64),
    Str(Seq<char>),
    Composite(Json),
}

/// The outside view of a JSON value.
pub open spec fn json_view(value: Json) -> JsonView {
    match value {
        Json::Null => JsonView::Null,
        Json::Bool(b) => JsonView::Bool(b),
        Json::Int(n) => JsonView::Int(n),
        Json::Float(bits) => JsonView::Float(bits),
        Json::Str(s) => JsonView::Str(s@),
        other => JsonView::Composite(other),
    }
}

/// A task's metadata: values by key.
#[derive(Debug, PartialEq)]
pub struct Metadata {
    entries: Vec<(String, Json)>,
}

/// The map a list of entries writes; a repeated key counts at its first occurrence.
pub open spec fn entries_map(entries: Seq<(String, Json)>) -> Map<Seq<char>, JsonView> {
    Map::new(
        |key: Seq<char>| member(entries, key) is Some,
        |key: Seq<char>| json_view(member(entries, key)->0),
    )
}

impl View for Metadata {
    type V = Map<Seq<char>, JsonView>;

    closed spec fn view(&self) -> Map<Seq<char>, JsonView> {
        entries_map(self.entries@)
    }
}

proof fn lemma_member_push(entries: Seq<(String, Json)>, entry: (String, Json), key: Seq<char>)
    ensures
        member(entries.push(entry), key) == (if member(entries, key) is Some {
            member(entries, key)
        } else if entry.0@ == key {
            Some(entry.1)
        } else {
            None
        }),
    decreases entries.len(),
{
    let longer = entries.push(entry);
    if entries.len() == 0 {
        reveal_with_fuel(member, 2);
        assert(longer[0] == entry);
    } else {
        assert(longer[0] == entries[0]);
        assert(longer.drop_first() =~= entries.drop_first().push(entry));
        lemma_member_push(entries.drop_first(), entry, key);
    }
}

impl Metadata {
    /// The entries, in the order they are kept.
    pub closed spec fn spec_entries(self) -> Seq<(String, Json)> {
        self.entries@
    }

    /// Metadata that holds nothing.
    pub fn new() -> (r: Metadata)
        ensures
            r@ == Map::<Seq<char>, JsonView>::empty(),
    {
        let r = Metadata { entries: Vec::new() };
        assert(r@ =~= Map::<Seq<char>, JsonView>::empty());
        r
    }

    /// Metadata from a list of entries; a repeated key counts at its first occurrence.
    pub fn from_entries(entries: Vec<(String, Json)>) -> (r: Metadata)
        ensures
            r@ == entries_map(entries@),
            r.spec_entries() == entries@,
    {
        Metadata { entries }
    }

    /// The entries.
    pub fn into_entries(self) -> (r: Vec<(String, Json)>)
        ensures
            r@ == self.spec_entries(),
            self@ == entries_map(r@),
    {
        self.entries
    }

    /// The value under a key.
    pub fn get(&self, key: &str) -> (r: Option<&Json>)
        ensures
            r is Some <==> self@.dom().contains(key@),
            r matches Some(value) ==> json_view(*value) == self@[key@],
    {
        json::get(&self.entries, key)
    }

    /// The metadata without a key.
    pub fn remove(self, key: &str) -> (r: Metadata)
        ensures
            r@ == self@.remove(key@),
    {
        let ghost before = self.entries@;
        let mut rest: Vec<(String, Json)> = self.entries;
        let mut kept: Vec<(String, Json)> = Vec::new();
        assert(before.take(before.len() as int) =~= before);
        assert(rest@ =~= before.skip(0));
        let n: usize = rest.len();
        let mut i: usize = 0;
        assert(before.take(0) =~= Seq::empty());
        while i < n
            invariant
                i <= n,
                n == before.len(),
                rest@ == before.skip(i as int),
                forall|q: Seq<char>|
                    #[trigger] member(kept@, q) == (if q == key@ {
                        None
                    } else {
                        member(before.take(i as int), q)
                    }),
            decreases n - i,
        {
            let entry: (String, Json) = rest.remove(0);
            assert(entry == before[i as int]);
            assert(rest@ =~= before.skip(i + 1));
            assert(before.take(i + 1) =~= before.take(i as int).push(entry));
            let ghost old_kept = kept@;
            assert forall|q: Seq<char>| true implies #[trigger] member(before.take(i + 1), q) == (
            if member(before.take(i as int), q) is Some {
                member(before.take(i as int), q)
            } else if entry.0@ == q {
                Some(entry.1)
            } else {
                None
            }) by {
                lemma_member_push(before.take(i as int), entry, q);
            }
            if !text::same(entry.0.as_str(), key) {
                kept.push(entry);
                assert forall|q: Seq<char>| #[trigger]
                    member(kept@, q) == (if q == key@ {
                        None
                    } else {
                        member(before.take(i + 1), q)
                    }) by {
                    lemma_member_push(old_kept, entry, q);
                    assert(member(old_kept, q) == (if q == key@ {
                        None
                    } else {
                        member(before.take(i as int), q)
                    }));
                }
            }
            i = i + 1;
        }
        let r = Metadata { entries: kept };
        assert(r@ =~= entries_map(before).remove(key@));
        r
    }

    /// The metadata with a value under a key, in place of any it had.
    pub fn insert(self, key: &str, value: Json) -> (r: Metadata)
        ensures
            r@ == self@.insert(key@, json_view(value)),
    {
        let ghost all = self@;
        let without = self.remove(key);
        let ghost before = without.entries@;
        let ghost base = without@;
        let mut entries: Vec<(String, Json)> = without.entries;
        entries.push((key.to_owned(), value));
        let r = Metadata { entries };
        assert forall|q: Seq<char>| #[trigger]
            member(r.entries@, q) == (if member(before, q) is Some {
                member(before, q)
            } else if q == key@ {
                Some(value)
            } else {
                None
            }) by {
            lemma_member_push(before, r.entries@.last(), q);
        }
        assert(!base.dom().contains(key@));
        assert(member(before, key@) is None);
        assert forall|q: Seq<char>| #[trigger] r@.dom().contains(q) <==> all.insert(
            key@,
            json_view(value),
        ).dom().contains(q) by {
            assert(base.dom().contains(q) <==> member(before, q) is Some);
        }
        assert(r@ =~= all.insert(key@, json_view(value))) by {
            assert forall|q: Seq<char>| #[trigger] r@.dom().contains(q) implies r@[q] == all.insert(
                key@,
                json_view(value),
            )[q] by {
                assert(base.dom().contains(q) <==> member(before, q) is Some);
                if q != key@ {
                    assert(base[q] == all[q]);
                }
            }
        }
        r
    }

    /// Whether there is no entry at all.
    pub fn is_empty(&self) -> (r: bool)
        ensures
            r == (self@ == Map::<Seq<char>, JsonView>::empty()),
    {
        if self.entries.len() == 0 {
            assert(self@ =~= Map::<Seq<char>, JsonView>::empty());
            true
        } else {
            assert(member(self.entries@, self.entries@[0].0@) is Some);
            assert(self@.dom().contains(self.entries@[0].0@));
            false
        }
    }
}

/// The text of a string under a metadata key.
pub open spec fn meta_text(metadata: Option<Metadata>, key: Seq<char>) -> Option<Seq<char>> {
    match metadata {
        Some(m) => if m@.dom().contains(key) {
            match m@[key] {
                JsonView::Str(s) => Some(s),
                _ => None,
            }
        } else {
            None
        },
        None => None,
    }
}

/// Reads a string under a metadata key.
pub fn meta_str(metadata: &Option<Metadata>, key: &str) -> (r: Option<String>)
    ensures
        text::opt_view(r) == meta_text(*metadata, key@),
{
    match metadata {
        Some(m) => match m.get(key) {
            Some(Json::Str(s)) => Some(s.clone()),
            _ => None,
        },
        None => None,
    }
}

/// The integer under a metadata key: a number, or a numeral in a string.
pub open spec fn meta_integer(metadata: Option<Metadata>, key: Seq<char>) -> Option<i64> {
    match metadata {
        Some(m) => if m@.dom().contains(key) {
            match m@[key] {
                JsonView::Int(n) => Some(n),
                JsonView::Str(s) => match text::parsed_int(s, i64::MIN as int, i64::MAX as int) {
                    Some(v) => Some(v as i64),
                    None => None,
                },
                _ => None,
            }
        } else {
            None
        },
        None => None,
    }
}

/// Reads an integer under a metadata key.
pub fn meta_i64(metadata: &Option<Metadata>, key: &str) -> (r: Option<i64>)
    ensures
        r == meta_integer(*metadata, key@),
{
    match metadata {
        Some(m) => match m.get(key) {
            Some(Json::Int(n)) => Some(*n),
            Some(Json::Str(s)) => text::parse_i64(s.as_str()),
            _ => None,
        },
        None => None,
    }
}

/// The map behind optional metadata; absent metadata holds nothing.
pub open spec fn meta_map(metadata: Option<Metadata>) -> Map<Seq<char>, JsonView> {
    match metadata {
        Some(m) => m@,
        None => Map::empty(),
    }
}

/// Optional metadata with an integer under a key.
pub fn set_meta_i64(metadata: Option<Metadata>, key: &str, value: i64) -> (r: Option<Metadata>)
    ensures
        r is Some,
        meta_map(r) == meta_map(metadata).insert(key@, JsonView::Int(value)),
{
    let base = match metadata {
        Some(m) => m,
        None => Metadata::new(),
    };
    Some(base.insert(key, Json::Int(value)))
}

/// Optional metadata without a key.
pub fn strip_meta(metadata: Option<Metadata>, key: &str) -> (r: Option<Metadata>)
    ensures
        r is Some <==> metadata is Some,
        meta_map(r) == meta_map(metadata).remove(key@),
{
    match metadata {
        Some(m) => Some(m.remove(key)),
        None => {
            assert(Map::<Seq<char>, JsonView>::empty().remove(key@) =~= Map::<
                Seq<char>,
                JsonView,
            >::empty());
            None
        },
    }
}

/// What a message part carries.
#[derive(Debug, PartialEq)]
pub enum PartContent {
    Text(String),
    Data(Json),
    /// A file, inline or by reference; no decision reads it.
    File,
}

/// A part of a message or an artifact.
#[derive(Debug, PartialEq)]
pub struct Part {
    pub content: PartContent,
    pub media_type: Option<String>,
}

impl Part {
    /// A text part.
    pub fn text(text: String) -> (r: Part)
        ensures
            r.content == PartContent::Text(text),
            r.media_type is None,
    {
        Part { content: PartContent::Text(text), media_type: None }
    }

    /// A structured part.
    pub fn data(value: Json) -> (r: Part)
        ensures
            r.content == PartContent::Data(value),
            r.media_type is None,
    {
        Part { content: PartContent::Data(value), media_type: None }
    }

    /// The text of a text part.
    pub fn as_text(&self) -> (r: Option<&str>)
        ensures
            text::opt_str_view(r) == part_text(*self),
    {
        match &self.content {
            PartContent::Text(s) => Some(s.as_str()),
            _ => None,
        }
    }
}

/// The text of a text part.
pub open spec fn part_text(part: Part) -> Option<Seq<char>> {
    match part.content {
        PartContent::Text(s) => Some(s@),
        _ => None,
    }
}

/// An output of a task.
#[derive(Debug, PartialEq)]
pub struct Artifact {
    pub artifact_id: String,
    pub name: Option<String>,
    pub description: Option<String>,
    pub parts: Vec<Part>,
}

/// A task as a caller sees it.
#[derive(Debug, PartialEq)]
pub struct Task {
    pub id: String,
    pub context_id: String,
    pub state: TaskState,
    pub artifacts: Option<Vec<Artifact>>,
    pub metadata: Option<Metadata>,
}

} // verus!
