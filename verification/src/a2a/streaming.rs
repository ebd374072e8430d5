//! The replay-then-tail stream of a task.
//!
//! A stream sends the task as it stands, then every logged event in order, then waits for more. The
//! event log is the truth: a wake-up is a hint to look again. [`start_stream`] and [`Stream::next`] say
//! what to do after each answer; whoever drives them fetches, sends and waits.

use vstd::prelude::*;

use crate::a2a::limits::MAX_STREAM_LIFETIME_SECS;
use crate::a2a::mapping::{state_of_status, task_state_from_status};
use crate::a2a::model::{error_view, terminal, A2aError, ErrorKind, ErrorView};

verus! {

/// A fetched event: its number, whether it is final, and whether its payload could be decoded.
#[derive(Clone, Copy, Debug, PartialEq, Eq, Structural)]
pub struct Fetched {
    pub seq: i64,
    pub is_final: bool,
    pub decodes: bool,
}

/// How a batch of fetched events ends.
#[derive(Clone, Copy, Debug, PartialEq, Eq, Structural)]
pub enum BatchEnd {
    /// All of it was sent.
    Open,
    /// The final event was sent.
    Final,
    /// An event could not be decoded.
    Corrupt,
}

/// How many events of a batch are sent.
pub open spec fn sent(batch: Seq<Fetched>) -> nat
    decreases batch.len(),
{
    if batch.len() == 0 || !batch[0].decodes {
        0
    } else if batch[0].is_final {
        1
    } else {
        1 + sent(batch.drop_first())
    }
}

/// How a batch ends: at its first event that cannot be decoded or is final, else open.
pub open spec fn batch_end(batch: Seq<Fetched>) -> BatchEnd
    decreases batch.len(),
{
    if batch.len() == 0 {
        BatchEnd::Open
    } else if !batch[0].decodes {
        BatchEnd::Corrupt
    } else if batch[0].is_final {
        BatchEnd::Final
    } else {
        batch_end(batch.drop_first())
    }
}

/// The number of the last event sent of a batch, else the number before it.
pub open spec fn cursor_after(last_seq: i64, batch: Seq<Fetched>) -> i64 {
    if sent(batch) == 0 {
        last_seq
    } else {
        batch[sent(batch) - 1].seq
    }
}

pub proof fn lemma_sent_bound(batch: Seq<Fetched>)
    ensures
        sent(batch) <= batch.len(),
        batch_end(batch) == BatchEnd::Open ==> sent(batch) == batch.len(),
        batch_end(batch) == BatchEnd::Corrupt ==> sent(batch) < batch.len()
            && !batch[sent(batch) as int].decodes,
        batch_end(batch) == BatchEnd::Final ==> 0 < sent(batch) && batch[sent(batch) - 1].is_final,
        forall|i: int| 0 <= i < sent(batch) ==> (#[trigger] batch[i]).decodes,
        forall|i: int| 0 <= i < sent(batch) - 1 ==> !(#[trigger] batch[i]).is_final,
        batch_end(batch) != BatchEnd::Final ==> forall|i: int|
            0 <= i < sent(batch) ==> !(#[trigger] batch[i]).is_final,
    decreases batch.len(),
{
    if batch.len() > 0 && batch[0].decodes && !batch[0].is_final {
        let rest = batch.drop_first();
        lemma_sent_bound(rest);
        assert forall|i: int| 0 <= i < sent(batch) implies (#[trigger] batch[i]).decodes by {
            if i > 0 {
                assert(batch[i] == rest[i - 1]);
            }
        }
        assert forall|i: int| 0 <= i < sent(batch) - 1 implies !(#[trigger] batch[i]).is_final by {
            if i > 0 {
                assert(batch[i] == rest[i - 1]);
            }
        }
        if batch_end(batch) != BatchEnd::Final {
            assert forall|i: int| 0 <= i < sent(batch) implies !(#[trigger] batch[i]).is_final by {
                if i > 0 {
                    assert(batch[i] == rest[i - 1]);
                }
            }
        }
        if batch_end(batch) == BatchEnd::Corrupt {
            assert(batch[sent(batch) as int] == rest[sent(rest) as int]);
        }
        if batch_end(batch) == BatchEnd::Final {
            assert(batch[sent(batch) - 1] == rest[sent(rest) - 1]);
        }
    }
}

fn drain(batch: &Vec<Fetched>) -> (r: (usize, BatchEnd))
    ensures
        r.0 == sent(batch@),
        r.1 == batch_end(batch@),
        r.0 <= batch@.len(),
{
    let mut i: usize = 0;
    assert(batch@.skip(0) =~= batch@);
    while i < batch.len()
        invariant
            i <= batch@.len(),
            sent(batch@) == i + sent(batch@.skip(i as int)),
            batch_end(batch@) == batch_end(batch@.skip(i as int)),
        decreases batch@.len() - i,
    {
        let e: Fetched = batch[i];
        assert(batch@.skip(i as int)[0] == e);
        assert(batch@.skip(i as int).drop_first() =~= batch@.skip(i + 1));
        if !e.decodes {
            return (i, BatchEnd::Corrupt);
        }
        if e.is_final {
            return (i + 1, BatchEnd::Final);
        }
        i = i + 1;
    }
    (i, BatchEnd::Open)
}

/// Where a stream stands.
#[derive(Clone, Copy, Debug, PartialEq, Eq, Structural)]
pub enum Phase {
    /// The log as it was at the start is being fetched.
    Replaying,
    /// The listener is being set up.
    Connecting,
    /// Events behind the cursor are being fetched.
    Draining,
    /// Whether the run is finished is being asked.
    Probing,
    /// The run is finished: the last events are being fetched.
    Finishing,
    /// A wake-up is being waited for.
    Waiting,
    /// The stream is over.
    Closed,
}

/// What is asked of the driver next.
#[derive(Clone, Copy, Debug, PartialEq, Eq, Structural)]
pub enum Request {
    /// Fetch the events after a number.
    Fetch(i64),
    /// Connect the listener and listen on the task's channel.
    Listen,
    /// Ask whether the run is finished, and how long the tail has lasted.
    Probe,
    /// Wait for a wake-up, at most the fallback interval.
    Wait,
    /// End the stream.
    Close,
}

/// What the driver answers.
#[derive(Debug)]
pub enum Answer {
    /// The events behind the cursor, in order.
    Events(Vec<Fetched>),
    /// The events could not be fetched.
    FetchFailed,
    /// The listener is listening.
    Listening,
    /// No listener could be had.
    NoListener,
    /// The listener could not listen.
    ListenFailed,
    /// Whether the run is finished, and the seconds the tail has lasted.
    Live(bool, u64),
    /// A wake-up came, or the interval passed.
    Woken,
}

/// The error a stream ends with.
#[derive(Clone, Copy, Debug, PartialEq, Eq, Structural)]
pub enum Failure {
    Internal,
    Capacity,
}

/// The error sent for a failure.
pub open spec fn failure_error(f: Failure) -> ErrorView {
    match f {
        Failure::Internal => error_view(ErrorKind::Internal, "internal error"@),
        Failure::Capacity => error_view(
            ErrorKind::Internal,
            "streaming capacity reached; retry shortly or poll GetTask"@,
        ),
    }
}

impl Failure {
    /// The error sent for the failure.
    pub fn error(&self) -> (r: A2aError)
        ensures
            r@ == failure_error(*self),
    {
        match self {
            Failure::Internal => A2aError::new(ErrorKind::Internal, "internal error"),
            Failure::Capacity => A2aError::new(
                ErrorKind::Internal,
                "streaming capacity reached; retry shortly or poll GetTask",
            ),
        }
    }
}

/// What to do after an answer: send the first `emit` events of the batch, then the failure if there is
/// one, then do as asked.
#[derive(Clone, Copy, Debug, PartialEq, Eq, Structural)]
pub struct Step {
    pub emit: usize,
    pub failure: Option<Failure>,
    pub request: Request,
}

/// A stream.
#[derive(Clone, Copy, Debug, PartialEq, Eq, Structural)]
pub struct Stream {
    pub phase: Phase,
    /// The number of the last event sent.
    pub last_seq: i64,
    /// Whether the task was finished when the stream began.
    pub already_terminal: bool,
}

/// Begins a stream, once the task as it stands has been sent.
pub fn start_stream(already_terminal: bool) -> (r: (Stream, Request))
    ensures
        r.0 == (Stream { phase: Phase::Replaying, last_seq: 0, already_terminal }),
        r.1 == Request::Fetch(0),
{
    (Stream { phase: Phase::Replaying, last_seq: 0, already_terminal }, Request::Fetch(0))
}

/// The stream, closed.
pub open spec fn closed(s: Stream) -> Stream {
    Stream { phase: Phase::Closed, ..s }
}

/// A step that sends nothing.
pub open spec fn silent(request: Request) -> Step {
    Step { emit: 0, failure: None, request }
}

/// A step that ends the stream with an error.
pub open spec fn failing(emit: usize, f: Failure) -> Step {
    Step { emit, failure: Some(f), request: Request::Close }
}

/// A stream after a batch, and what follows where the batch stays open.
pub open spec fn after_batch(s: Stream, batch: Seq<Fetched>, phase: Phase, request: Request) -> (
    Stream,
    Step,
) {
    let at = Stream { last_seq: cursor_after(s.last_seq, batch), ..s };
    let emit = sent(batch) as usize;
    match batch_end(batch) {
        BatchEnd::Corrupt => (closed(at), failing(emit, Failure::Internal)),
        BatchEnd::Final => (closed(at), Step { emit, failure: None, request: Request::Close }),
        BatchEnd::Open => (Stream { phase, ..at }, Step { emit, failure: None, request }),
    }
}

/// What a stream does after an answer.
pub open spec fn step_of(s: Stream, answer: Answer) -> (Stream, Step) {
    match (s.phase, answer) {
        (Phase::Replaying, Answer::Events(batch)) => if s.already_terminal {
            after_batch(s, batch@, Phase::Closed, Request::Close)
        } else {
            after_batch(s, batch@, Phase::Connecting, Request::Listen)
        },
        (Phase::Draining, Answer::Events(batch)) => after_batch(
            s,
            batch@,
            Phase::Probing,
            Request::Probe,
        ),
        (Phase::Finishing, Answer::Events(batch)) => after_batch(
            s,
            batch@,
            Phase::Closed,
            Request::Close,
        ),
        (Phase::Replaying, Answer::FetchFailed) => (closed(s), failing(0, Failure::Internal)),
        (Phase::Draining, Answer::FetchFailed) => (closed(s), failing(0, Failure::Internal)),
        (Phase::Finishing, Answer::FetchFailed) => (closed(s), failing(0, Failure::Internal)),
        (Phase::Connecting, Answer::Listening) => (
            Stream { phase: Phase::Draining, ..s },
            silent(Request::Fetch(s.last_seq)),
        ),
        (Phase::Connecting, Answer::NoListener) => (closed(s), failing(0, Failure::Capacity)),
        (Phase::Connecting, Answer::ListenFailed) => (closed(s), failing(0, Failure::Internal)),
        (Phase::Probing, Answer::Live(finished, elapsed)) => if finished {
            (Stream { phase: Phase::Finishing, ..s }, silent(Request::Fetch(s.last_seq)))
        } else if elapsed >= MAX_STREAM_LIFETIME_SECS {
            (closed(s), silent(Request::Close))
        } else {
            (Stream { phase: Phase::Waiting, ..s }, silent(Request::Wait))
        },
        (Phase::Waiting, Answer::Woken) => (
            Stream { phase: Phase::Draining, ..s },
            silent(Request::Fetch(s.last_seq)),
        ),
        _ => (closed(s), silent(Request::Close)),
    }
}

impl Stream {
    fn take_batch(&mut self, batch: &Vec<Fetched>, phase: Phase, request: Request) -> (r: Step)
        ensures
            (*final(self), r) == after_batch(*old(self), batch@, phase, request),
    {
        let (emit, end) = drain(batch);
        if emit > 0 {
            self.last_seq = batch[emit - 1].seq;
        }
        match end {
            BatchEnd::Corrupt => {
                self.phase = Phase::Closed;
                Step { emit, failure: Some(Failure::Internal), request: Request::Close }
            },
            BatchEnd::Final => {
                self.phase = Phase::Closed;
                Step { emit, failure: None, request: Request::Close }
            },
            BatchEnd::Open => {
                self.phase = phase;
                Step { emit, failure: None, request }
            },
        }
    }

    fn close(&mut self, failure: Option<Failure>) -> (r: Step)
        ensures
            *final(self) == closed(*old(self)),
            r == (Step { emit: 0, failure, request: Request::Close }),
    {
        self.phase = Phase::Closed;
        Step { emit: 0, failure, request: Request::Close }
    }

    fn fetch(&mut self, phase: Phase) -> (r: Step)
        ensures
            *final(self) == (Stream { phase, ..*old(self) }),
            r == silent(Request::Fetch(old(self).last_seq)),
    {
        self.phase = phase;
        Step { emit: 0, failure: None, request: Request::Fetch(self.last_seq) }
    }

    /// Takes an answer and says what to do next. An answer that was not asked for ends the stream.
    pub fn next(&mut self, answer: Answer) -> (r: Step)
        ensures
            (*final(self), r) == step_of(*old(self), answer),
    {
        match (self.phase, answer) {
            (Phase::Replaying, Answer::Events(batch)) => {
                if self.already_terminal {
                    self.take_batch(&batch, Phase::Closed, Request::Close)
                } else {
                    self.take_batch(&batch, Phase::Connecting, Request::Listen)
                }
            },
            (Phase::Draining, Answer::Events(batch)) => self.take_batch(
                &batch,
                Phase::Probing,
                Request::Probe,
            ),
            (Phase::Finishing, Answer::Events(batch)) => self.take_batch(
                &batch,
                Phase::Closed,
                Request::Close,
            ),
            (Phase::Replaying, Answer::FetchFailed) => self.close(Some(Failure::Internal)),
            (Phase::Draining, Answer::FetchFailed) => self.close(Some(Failure::Internal)),
            (Phase::Finishing, Answer::FetchFailed) => self.close(Some(Failure::Internal)),
            (Phase::Connecting, Answer::Listening) => self.fetch(Phase::Draining),
            (Phase::Connecting, Answer::NoListener) => self.close(Some(Failure::Capacity)),
            (Phase::Connecting, Answer::ListenFailed) => self.close(Some(Failure::Internal)),
            (Phase::Probing, Answer::Live(finished, elapsed)) => {
                if finished {
                    self.fetch(Phase::Finishing)
                } else if elapsed >= MAX_STREAM_LIFETIME_SECS {
                    self.close(None)
                } else {
                    self.phase = Phase::Waiting;
                    Step { emit: 0, failure: None, request: Request::Wait }
                }
            },
            (Phase::Waiting, Answer::Woken) => self.fetch(Phase::Draining),
            _ => self.close(None),
        }
    }
}

/// A log as a stream fetches it: numbered from one without a gap, nothing behind a final event.
pub open spec fn fetchable(log: Seq<Fetched>) -> bool {
    &&& forall|i: int| 0 <= i < log.len() ==> (#[trigger] log[i]).seq == i + 1
    &&& forall|i: int| 0 <= i < log.len() - 1 ==> !(#[trigger] log[i]).is_final
}

/// A stream neither loses, repeats nor reorders an event. Whatever it has sent so far is the log up to
/// its cursor; fetching what stands behind the cursor and sending of it what a batch sends makes it the
/// log up to the new cursor. A batch that stays open was sent to its end, and one that closes on a
/// final event sent that event.
pub proof fn law_stream_sends_the_log_in_order(log: Seq<Fetched>, last_seq: i64)
    requires
        fetchable(log),
        0 <= last_seq <= log.len(),
    ensures
        ({
            let batch = log.skip(last_seq as int);
            let after = cursor_after(last_seq, batch);
            &&& last_seq <= after <= log.len()
            &&& after == last_seq + sent(batch)
            &&& log.take(last_seq as int) + batch.take(sent(batch) as int) == log.take(after as int)
            &&& batch_end(batch) == BatchEnd::Open ==> after == log.len()
            &&& batch_end(batch) == BatchEnd::Final ==> after == log.len()
                && log.last().is_final
        }),
{
    let batch = log.skip(last_seq as int);
    lemma_sent_bound(batch);
    let after = cursor_after(last_seq, batch);
    if sent(batch) > 0 {
        assert(batch[sent(batch) - 1] == log[last_seq + sent(batch) - 1]);
    }
    assert(log.take(last_seq as int) + batch.take(sent(batch) as int) =~= log.take(after as int));
    if batch_end(batch) == BatchEnd::Final {
        assert(log[after - 1] == batch[sent(batch) - 1]);
        assert(log[after - 1].is_final);
        if after < log.len() {
            assert(!log[after - 1].is_final);
        }
    }
}

/// A finished run never cuts its last events off: where the run is found finished, the stream fetches
/// once more behind its cursor before it closes.
pub proof fn law_finished_run_is_drained_before_closing(s: Stream, elapsed: u64)
    requires
        s.phase == Phase::Probing,
    ensures
        ({
            let (next, step) = step_of(s, Answer::Live(true, elapsed));
            next.phase == Phase::Finishing && next.last_seq == s.last_seq && step == silent(
                Request::Fetch(s.last_seq),
            )
        }),
{
}

/// A task that was finished at the start is replayed and the stream closes without a tail.
pub proof fn law_terminal_task_is_not_tailed(s: Stream, answer: Answer)
    requires
        s.phase == Phase::Replaying,
        s.already_terminal,
    ensures
        step_of(s, answer).0.phase == Phase::Closed,
        step_of(s, answer).1.request == Request::Close,
{
}

/// What the look at a task's run found.
#[derive(Debug)]
pub enum LiveRun {
    /// The task fronts no run.
    NoRun,
    /// The run is gone.
    Gone,
    /// The run has a status.
    Status(String),
    /// The look failed.
    Failed,
}

/// Whether nothing more can happen to a run: one that is absent, gone or in a terminal state. A look
/// that failed is no reason to end a stream.
pub fn is_live_terminal(run: &LiveRun) -> (r: bool)
    ensures
        r == (match *run {
            LiveRun::NoRun => true,
            LiveRun::Gone => true,
            LiveRun::Status(status) => terminal(state_of_status(status@)),
            LiveRun::Failed => false,
        }),
{
    match run {
        LiveRun::NoRun => true,
        LiveRun::Gone => true,
        LiveRun::Status(status) => task_state_from_status(status.as_str()).is_terminal(),
        LiveRun::Failed => false,
    }
}

} // verus!
