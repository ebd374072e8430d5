//! The append-only event log of a task, which streams and push deliveries replay.
//!
//! Events of a task are numbered from one without a gap. Every status change of a run appends one
//! event to each task that fronts it, in the same transaction as the change itself. Once an event is
//! final the log is frozen.

use vstd::prelude::*;

use crate::a2a::mapping::{state_of_status, task_state_from_status};
use crate::a2a::model::{state_wire, terminal, wire_name, Artifact, TaskState};
use crate::ids::text_of_uuid;
use crate::order::{arranges, key_le, Key};
use crate::{ids, order, text};

verus! {

/// What a notification channel's name begins with.
pub const CHANNEL_PREFIX: &'static str = "a2a_task_events:";

/// The name of a task's notification channel: fifty-two ASCII characters, within the sixty-three bytes
/// a channel name may have.
pub fn task_channel(a2a_task_id: u128) -> (r: String)
    ensures
        r@ == CHANNEL_PREFIX@ + text_of_uuid(a2a_task_id),
        r@.len() == 52,
        vstd::utf8::is_ascii_chars(r@),
{
    let id: String = ids::uuid_text(a2a_task_id);
    let mut r: String = CHANNEL_PREFIX.to_owned();
    r.append(id.as_str());
    proof {
        reveal_strlit("a2a_task_events:");
        assert(vstd::utf8::is_ascii_chars(CHANNEL_PREFIX@));
        vstd::utf8::is_ascii_chars_concat(r@, CHANNEL_PREFIX@, id@);
    }
    r
}

/// What an event reports.
#[derive(Clone, Copy, Debug, PartialEq, Eq, Structural)]
pub enum EventBody {
    /// The artifact of the completed review.
    Artifact,
    /// The state that the task is in.
    Status(TaskState),
}

/// An event of a task's log.
#[derive(Clone, Copy, Debug, PartialEq, Eq, Structural)]
pub struct Event {
    pub seq: i64,
    pub body: EventBody,
    /// Whether no event follows this one.
    pub is_final: bool,
}

/// The kind an event is stored under.
pub open spec fn kind_name(body: EventBody) -> Seq<char> {
    match body {
        EventBody::Artifact => "artifact-update"@,
        EventBody::Status(_) => "status-update"@,
    }
}

impl Event {
    /// The kind the event is stored under.
    pub fn kind(&self) -> (r: &'static str)
        ensures
            r@ == kind_name(self.body),
    {
        match self.body {
            EventBody::Artifact => "artifact-update",
            EventBody::Status(_) => "status-update",
        }
    }

    /// The wire name of the state a status event reports.
    pub fn state(&self) -> (r: Option<&'static str>)
        ensures
            text::opt_str_view(r) == (match self.body {
                EventBody::Artifact => None,
                EventBody::Status(state) => Some(wire_name(state)),
            }),
    {
        match self.body {
            EventBody::Artifact => None,
            EventBody::Status(state) => Some(state_wire(state)),
        }
    }
}

/// What a subscriber is sent.
#[derive(Debug, PartialEq)]
pub enum StreamBody {
    Status(TaskState),
    Artifact(Artifact),
}

/// An update of a task, as a subscriber is sent it.
#[derive(Debug, PartialEq)]
pub struct StreamUpdate {
    pub task_id: String,
    pub context_id: String,
    pub body: StreamBody,
    /// Set on an artifact, which is always sent whole.
    pub last_chunk: Option<bool>,
}

/// The update that reports a state.
pub fn status_update_payload(a2a_task_id: u128, context_id: &str, state: TaskState) -> (r:
    StreamUpdate)
    ensures
        r.task_id@ == text_of_uuid(a2a_task_id),
        r.context_id@ == context_id@,
        r.body == StreamBody::Status(state),
        r.last_chunk is None,
{
    StreamUpdate {
        task_id: ids::uuid_text(a2a_task_id),
        context_id: context_id.to_owned(),
        body: StreamBody::Status(state),
        last_chunk: None,
    }
}

/// The update that carries an artifact.
pub fn artifact_update_payload(a2a_task_id: u128, context_id: &str, artifact: Artifact) -> (r:
    StreamUpdate)
    ensures
        r.task_id@ == text_of_uuid(a2a_task_id),
        r.context_id@ == context_id@,
        r.body == StreamBody::Artifact(artifact),
        r.last_chunk == Some(true),
{
    StreamUpdate {
        task_id: ids::uuid_text(a2a_task_id),
        context_id: context_id.to_owned(),
        body: StreamBody::Artifact(artifact),
        last_chunk: Some(true),
    }
}

/// A task that fronts a run, with the end of its log.
#[derive(Debug)]
pub struct Front {
    pub a2a_task_id: u128,
    pub context_id: String,
    /// The greatest sequence number in the log, zero for an empty one.
    pub last_seq: i64,
    /// Whether the log holds a final event.
    pub has_final: bool,
}

/// The events a status change appends to a log that ends at `last_seq`: nothing to a frozen one; else
/// the artifact of a completed review, where it is persisted already, and then the state.
pub open spec fn transition_events(
    last_seq: i64,
    has_final: bool,
    state: TaskState,
    review_persisted: bool,
) -> Seq<Event> {
    if has_final {
        Seq::empty()
    } else if state == TaskState::Completed && review_persisted {
        seq![
            Event { seq: (last_seq + 1) as i64, body: EventBody::Artifact, is_final: false },
            Event {
                seq: (last_seq + 2) as i64,
                body: EventBody::Status(state),
                is_final: terminal(state),
            },
        ]
    } else {
        seq![
            Event {
                seq: (last_seq + 1) as i64,
                body: EventBody::Status(state),
                is_final: terminal(state),
            },
        ]
    }
}

/// The events of one front.
#[derive(Debug)]
pub struct Appended {
    pub a2a_task_id: u128,
    pub events: Vec<Event>,
}

fn plan(last_seq: i64, has_final: bool, state: TaskState, review_persisted: bool) -> (r: Vec<Event>)
    requires
        !has_final ==> last_seq <= i64::MAX - 2,
    ensures
        r@ == transition_events(last_seq, has_final, state, review_persisted),
{
    let mut events: Vec<Event> = Vec::new();
    if has_final {
        return events;
    }
    let mut seq: i64 = last_seq + 1;
    if state.is_completed() && review_persisted {
        events.push(Event { seq, body: EventBody::Artifact, is_final: false });
        seq = seq + 1;
    }
    events.push(Event { seq, body: EventBody::Status(state), is_final: state.is_terminal() });
    assert(events@ =~= transition_events(last_seq, has_final, state, review_persisted));
    events
}

/// The events that a run's change to `status` appends, for every task that fronts the run.
pub fn append_transition_events(fronts: &Vec<Front>, status: &str, review_persisted: bool) -> (r:
    Vec<Appended>)
    requires
        forall|i: int|
            0 <= i < fronts@.len() && !(#[trigger] fronts@[i]).has_final ==> fronts@[i].last_seq
                <= i64::MAX - 2,
    ensures
        r@.len() == fronts@.len(),
        forall|i: int|
            0 <= i < fronts@.len() ==> (#[trigger] r@[i]).a2a_task_id == fronts@[i].a2a_task_id
                && r@[i].events@ == transition_events(
                fronts@[i].last_seq,
                fronts@[i].has_final,
                state_of_status(status@),
                review_persisted,
            ),
{
    let state: TaskState = task_state_from_status(status);
    let mut out: Vec<Appended> = Vec::new();
    let mut i: usize = 0;
    while i < fronts.len()
        invariant
            i <= fronts@.len(),
            out@.len() == i,
            state == state_of_status(status@),
            forall|k: int|
                0 <= k < fronts@.len() && !(#[trigger] fronts@[k]).has_final ==> fronts@[k].last_seq
                    <= i64::MAX - 2,
            forall|k: int|
                0 <= k < i ==> (#[trigger] out@[k]).a2a_task_id == fronts@[k].a2a_task_id
                    && out@[k].events@ == transition_events(
                    fronts@[k].last_seq,
                    fronts@[k].has_final,
                    state,
                    review_persisted,
                ),
        decreases fronts@.len() - i,
    {
        let front = &fronts[i];
        let events = plan(front.last_seq, front.has_final, state, review_persisted);
        out.push(Appended { a2a_task_id: front.a2a_task_id, events });
        i = i + 1;
    }
    out
}

/// Whether an update is what an event of a front sends: it names the task and its context, and carries
/// the state that changed or the artifact.
pub open spec fn is_update_of(
    update: StreamUpdate,
    front: Front,
    event: Event,
    artifact: Option<Artifact>,
) -> bool {
    &&& update.task_id@ == text_of_uuid(front.a2a_task_id)
    &&& update.context_id@ == front.context_id@
    &&& match event.body {
        EventBody::Status(state) => update.body == StreamBody::Status(state) && update.last_chunk
            is None,
        EventBody::Artifact => artifact matches Some(a) && update.body == StreamBody::Artifact(a)
            && update.last_chunk == Some(true),
    }
}

/// What an event of a front sends; `None` only for an artifact that is not there.
pub fn update_of(front: &Front, event: &Event, artifact: Option<Artifact>) -> (r: Option<StreamUpdate>)
    ensures
        match r {
            Some(update) => is_update_of(update, *front, *event, artifact),
            None => event.body == EventBody::Artifact && artifact is None,
        },
{
    match event.body {
        EventBody::Status(state) => Some(
            status_update_payload(front.a2a_task_id, front.context_id.as_str(), state),
        ),
        EventBody::Artifact => match artifact {
            Some(artifact) => Some(
                artifact_update_payload(front.a2a_task_id, front.context_id.as_str(), artifact),
            ),
            None => None,
        },
    }
}

/// The events an outcome appends that no run reports: a rejected submission, or a caller's
/// cancellation.
pub open spec fn terminal_events(last_seq: i64, has_final: bool, state: TaskState) -> Seq<Event> {
    if has_final {
        Seq::empty()
    } else {
        seq![
            Event {
                seq: (last_seq + 1) as i64,
                body: EventBody::Status(state),
                is_final: true,
            },
        ]
    }
}

/// The final event of an outcome that no run reports, unless the log is frozen.
pub fn append_terminal_status(last_seq: i64, has_final: bool, state: TaskState) -> (r: Vec<Event>)
    requires
        !has_final ==> last_seq < i64::MAX,
    ensures
        r@ == terminal_events(last_seq, has_final, state),
{
    let mut events: Vec<Event> = Vec::new();
    if !has_final {
        events.push(
            Event { seq: last_seq + 1, body: EventBody::Status(state), is_final: true },
        );
    }
    assert(events@ =~= terminal_events(last_seq, has_final, state));
    events
}

/// A sound log: numbered from one without a gap, and nothing stands after a final event.
pub open spec fn log_wf(log: Seq<Event>) -> bool {
    &&& forall|i: int| 0 <= i < log.len() ==> (#[trigger] log[i]).seq == i + 1
    &&& forall|i: int| 0 <= i < log.len() - 1 ==> !(#[trigger] log[i]).is_final
}

/// Whether a log holds a final event.
pub open spec fn frozen(log: Seq<Event>) -> bool {
    exists|i: int| 0 <= i < log.len() && (#[trigger] log[i]).is_final
}

/// The log stays sound under every status change, and its numbering stays free of gaps.
pub proof fn law_transition_keeps_log_sound(
    log: Seq<Event>,
    state: TaskState,
    review_persisted: bool,
)
    requires
        log_wf(log),
        log.len() <= i64::MAX - 2,
    ensures
        log_wf(log + transition_events(log.len() as i64, frozen(log), state, review_persisted)),
{
    let more = transition_events(log.len() as i64, frozen(log), state, review_persisted);
    let all = log + more;
    if frozen(log) {
        assert(all =~= log);
    } else {
        assert forall|i: int| 0 <= i < all.len() implies (#[trigger] all[i]).seq == i + 1 by {
            if i < log.len() {
                assert(all[i] == log[i]);
            } else {
                assert(all[i] == more[i - log.len()]);
            }
        }
        assert forall|i: int| 0 <= i < all.len() - 1 implies !(#[trigger] all[i]).is_final by {
            if i < log.len() {
                assert(all[i] == log[i]);
            } else {
                assert(all[i] == more[i - log.len()]);
            }
        }
    }
}

/// The log stays sound under an outcome that no run reports, and is frozen by it.
pub proof fn law_terminal_outcome_freezes_log(log: Seq<Event>, state: TaskState)
    requires
        log_wf(log),
        log.len() < i64::MAX,
    ensures
        log_wf(log + terminal_events(log.len() as i64, frozen(log), state)),
        frozen(log + terminal_events(log.len() as i64, frozen(log), state)),
{
    let more = terminal_events(log.len() as i64, frozen(log), state);
    let all = log + more;
    if frozen(log) {
        assert(all =~= log);
    } else {
        assert(all[log.len() as int].is_final);
        assert forall|i: int| 0 <= i < all.len() implies (#[trigger] all[i]).seq == i + 1 by {
            if i < log.len() {
                assert(all[i] == log[i]);
            }
        }
        assert forall|i: int| 0 <= i < all.len() - 1 implies !(#[trigger] all[i]).is_final by {
            assert(all[i] == log[i]);
        }
    }
}

/// A frozen log never grows: neither a late report of a run nor a cancellation that comes after
/// appends anything behind the final event.
pub proof fn law_frozen_log_never_grows(
    log: Seq<Event>,
    state: TaskState,
    review_persisted: bool,
)
    requires
        frozen(log),
    ensures
        log + transition_events(log.len() as i64, frozen(log), state, review_persisted) == log,
        log + terminal_events(log.len() as i64, frozen(log), state) == log,
{
    assert(log + transition_events(log.len() as i64, frozen(log), state, review_persisted)
        =~= log);
    assert(log + terminal_events(log.len() as i64, frozen(log), state) =~= log);
}

/// Streaming and polling cannot disagree: after a run's change to `status`, the last event of a log
/// that was open reports the very state a poller reads, it is final exactly where that state is
/// terminal, and an artifact of the same change stands before it.
pub proof fn law_last_event_is_the_polled_state(
    log: Seq<Event>,
    status: Seq<char>,
    review_persisted: bool,
)
    requires
        !frozen(log),
        log.len() <= i64::MAX - 2,
    ensures
        ({
            let state = state_of_status(status);
            let all = log + transition_events(
                log.len() as i64,
                frozen(log),
                state,
                review_persisted,
            );
            &&& all.len() > log.len()
            &&& all.last().body == EventBody::Status(state)
            &&& all.last().is_final == terminal(state)
            &&& all.len() == log.len() + 2 ==> all[log.len() as int].body == EventBody::Artifact
        }),
{
}

/// A logged event with its payload, as it is fetched.
#[derive(Debug)]
pub struct LoggedEvent<P> {
    pub seq: i64,
    pub payload: P,
    pub is_final: bool,
}

/// The events after a number.
pub open spec fn later<P>(log: Seq<LoggedEvent<P>>, after_seq: i64) -> Seq<bool> {
    Seq::new(log.len(), |i: int| log[i].seq > after_seq)
}

/// Events by number; of several with one number, the lowest place comes first.
pub open spec fn by_number<P>(log: Seq<LoggedEvent<P>>) -> Seq<Key> {
    Seq::new(log.len(), |i: int| Key { major: log[i].seq as i128, minor: 0, id: i as u128 })
}

/// Whether `r` are the events at places of a log.
pub open spec fn are_at<P>(r: Seq<&LoggedEvent<P>>, log: Seq<LoggedEvent<P>>, places: Seq<usize>) -> bool {
    &&& r.len() == places.len()
    &&& forall|a: int| 0 <= a < r.len() ==> *(#[trigger] r[a]) == log[places[a] as int]
}

/// The events of a log after a number, in the order of their numbers.
pub fn fetch_events_after<'a, P>(log: &'a Vec<LoggedEvent<P>>, after_seq: i64) -> (r: Vec<
    &'a LoggedEvent<P>,
>)
    ensures
        exists|places: Seq<usize>| #[trigger]
            arranges(places, later(log@, after_seq), by_number(log@)) && are_at(
                r@,
                log@,
                places,
            ),
{
    let mut selected: Vec<bool> = Vec::new();
    let mut keys: Vec<Key> = Vec::new();
    let mut i: usize = 0;
    while i < log.len()
        invariant
            i <= log@.len(),
            selected@ =~= later(log@, after_seq).take(i as int),
            keys@ =~= by_number(log@).take(i as int),
        decreases log@.len() - i,
    {
        selected.push(log[i].seq > after_seq);
        keys.push(Key { major: log[i].seq as i128, minor: 0, id: i as u128 });
        i = i + 1;
    }
    assert(selected@ =~= later(log@, after_seq));
    assert(keys@ =~= by_number(log@));
    let places: Vec<usize> = order::arrange(&selected, &keys);
    let mut out: Vec<&'a LoggedEvent<P>> = Vec::new();
    while out.len() < places.len()
        invariant
            out@.len() <= places@.len(),
            forall|a: int| 0 <= a < places@.len() ==> (#[trigger] places@[a]) < log@.len(),
            forall|a: int| 0 <= a < out@.len() ==> *(#[trigger] out@[a]) == log@[places@[a] as int],
        decreases places@.len() - out@.len(),
    {
        let at: usize = places[out.len()];
        out.push(&log[at]);
    }
    assert(are_at(out@, log@, places@));
    out
}

/// An event that is fetched is in the log, behind the cursor, and no event before it in the answer has a
/// greater number; every event behind the cursor is fetched.
pub proof fn law_fetch_is_what_lies_behind<P>(
    r: Seq<&LoggedEvent<P>>,
    log: Seq<LoggedEvent<P>>,
    after_seq: i64,
    places: Seq<usize>,
)
    requires
        arranges(places, later(log, after_seq), by_number(log)),
        are_at(r, log, places),
    ensures
        forall|a: int| 0 <= a < r.len() ==> (#[trigger] r[a]).seq > after_seq,
        forall|a: int, b: int| 0 <= a < b < r.len() ==> (#[trigger] r[a]).seq <= (#[trigger] r[b]).seq,
        forall|i: int|
            0 <= i < log.len() && (#[trigger] log[i]).seq > after_seq ==> exists|a: int|
                0 <= a < r.len() && *(#[trigger] r[a]) == log[i],
{
    assert forall|a: int| 0 <= a < r.len() implies (#[trigger] r[a]).seq > after_seq by {
        assert(later(log, after_seq)[places[a] as int]);
    }
    assert forall|a: int, b: int| 0 <= a < b < r.len() implies (#[trigger] r[a]).seq <= (
    #[trigger] r[b]).seq by {
        assert(key_le(
            by_number(log)[places[a] as int],
            by_number(log)[places[b] as int],
        ));
    }
    assert forall|i: int| 0 <= i < log.len() && (#[trigger] log[i]).seq > after_seq implies exists|
        a: int,
    | 0 <= a < r.len() && *(#[trigger] r[a]) == log[i] by {
        assert(later(log, after_seq)[i]);
        let a = choose|a: int| 0 <= a < places.len() && #[trigger] places[a] == i;
        assert(*r[a] == log[i]);
    }
}

} // verus!
