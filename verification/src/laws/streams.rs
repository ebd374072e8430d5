//! What a subscriber of a task gets, and when a stream ends.

use vstd::prelude::*;

use crate::a2a::model::ErrorKind;
use crate::a2a::streaming::{
    failure_error, lemma_sent_bound, sent, step_of, Answer, Failure, Fetched, Phase, Request, Stream,
};

verus! {

/// Three hours, after which a stream of a run that does not finish is ended.
pub const LIFETIME: u64 = 10800;

/// A stream of a run that is not finished keeps waiting for more, whatever the time so far, until three
/// hours are over; then it is ended without an error.
pub proof fn law_unfinished_run_is_tailed_for_three_hours(s: Stream, elapsed: u64)
    requires
        s.phase == Phase::Probing,
    ensures
        ({
            let (next, step) = step_of(s, Answer::Live(false, elapsed));
            &&& step.emit == 0
            &&& step.failure is None
            &&& next.last_seq == s.last_seq
            &&& elapsed < LIFETIME ==> next.phase == Phase::Waiting && step.request == Request::Wait
            &&& elapsed >= LIFETIME ==> next.phase == Phase::Closed && step.request
                == Request::Close
        }),
{
}

/// Whether an answer is of the kind that a phase asks for.
pub open spec fn is_asked_for(phase: Phase, answer: Answer) -> bool {
    match answer {
        Answer::Events(_) | Answer::FetchFailed => phase == Phase::Replaying || phase
            == Phase::Draining || phase == Phase::Finishing,
        Answer::Listening | Answer::NoListener | Answer::ListenFailed => phase
            == Phase::Connecting,
        Answer::Live(_, _) => phase == Phase::Probing,
        Answer::Woken => phase == Phase::Waiting,
    }
}

/// The events that go with an answer.
pub open spec fn events_of(answer: Answer) -> Seq<Fetched> {
    match answer {
        Answer::Events(batch) => batch@,
        _ => Seq::empty(),
    }
}

/// An open stream is ended without an error only behind a final event, behind the whole log of a task
/// that was finished at the start or of a run that was found finished, or after three hours. It asks to
/// be closed exactly where it is closed, and it never skips an event that it has fetched.
pub proof fn law_stream_ends_only_at_an_end(s: Stream, answer: Answer)
    requires
        is_asked_for(s.phase, answer),
        events_of(answer).len() <= usize::MAX,
    ensures
        ({
            let (next, step) = step_of(s, answer);
            let batch = events_of(answer);
            &&& step.request == Request::Close <==> next.phase == Phase::Closed
            &&& step.failure is Some ==> next.phase == Phase::Closed
            &&& next.already_terminal == s.already_terminal
            &&& next.phase == Phase::Closed && step.failure is None ==> {
                ||| 0 < step.emit <= batch.len() && batch[step.emit - 1].is_final
                ||| answer is Events && step.emit == batch.len() && (s.phase == Phase::Finishing || (
                s.phase == Phase::Replaying && s.already_terminal))
                ||| answer matches Answer::Live(finished, elapsed) && !finished && elapsed
                    >= LIFETIME
            }
        }),
{
    lemma_sent_bound(events_of(answer));
}

/// Of a batch of events a stream sends all up to the first that is final, that one among them, or up to
/// the first that cannot be decoded, which ends it with an error; else all. Its cursor is then the number
/// of the last event it sent.
pub proof fn law_stream_sends_what_it_fetches(s: Stream, answer: Answer)
    requires
        s.phase == Phase::Replaying || s.phase == Phase::Draining || s.phase == Phase::Finishing,
        answer is Events,
        events_of(answer).len() <= usize::MAX,
    ensures
        ({
            let (next, step) = step_of(s, answer);
            let batch = events_of(answer);
            &&& step.emit <= batch.len()
            &&& forall|i: int| 0 <= i < step.emit ==> (#[trigger] batch[i]).decodes
            &&& forall|i: int| 0 <= i < step.emit - 1 ==> !(#[trigger] batch[i]).is_final
            &&& step.emit < batch.len() ==> (step.emit > 0 && batch[step.emit - 1].is_final)
                || !batch[step.emit as int].decodes
            &&& step.failure is Some <==> step.emit < batch.len() && !batch[step.emit as int].decodes
                && !(step.emit > 0 && batch[step.emit - 1].is_final)
            &&& step.failure is Some ==> step.failure == Some(Failure::Internal)
            &&& step.emit > 0 && batch[step.emit - 1].is_final ==> next.phase == Phase::Closed
            &&& next.last_seq == (if step.emit == 0 {
                s.last_seq
            } else {
                batch[step.emit - 1].seq
            })
        }),
{
    lemma_sent_bound(events_of(answer));
}

/// Behind a batch that leaves the stream open it goes on: after the replay it listens, after what came
/// since it asks whether the run is finished; a wake-up, the listener and a finished run each make it
/// fetch from where it stands.
pub proof fn law_open_stream_goes_on(s: Stream, answer: Answer)
    requires
        is_asked_for(s.phase, answer),
        events_of(answer).len() <= usize::MAX,
        forall|i: int|
            0 <= i < events_of(answer).len() ==> (#[trigger] events_of(answer)[i]).decodes
                && !events_of(answer)[i].is_final,
    ensures
        ({
            let (next, step) = step_of(s, answer);
            &&& s.phase == Phase::Replaying && answer is Events && !s.already_terminal
                ==> next.phase == Phase::Connecting && step.request == Request::Listen
            &&& s.phase == Phase::Draining && answer is Events ==> next.phase == Phase::Probing
                && step.request == Request::Probe
            &&& answer is Listening ==> next.phase == Phase::Draining && step.request
                == Request::Fetch(s.last_seq)
            &&& answer is Woken ==> next.phase == Phase::Draining && step.request
                == Request::Fetch(s.last_seq)
            &&& answer matches Answer::Live(finished, _) ==> (finished ==> next.phase
                == Phase::Finishing && step.request == Request::Fetch(s.last_seq)
                && step.failure is None)
        }),
{
    lemma_sent_bound(events_of(answer));
    let batch = events_of(answer);
    let n = sent(batch);
    if n > 0 {
        assert(!batch[n - 1].is_final);
    }
    if n < batch.len() {
        assert(batch[n as int].decodes);
    }
}

/// What cannot be fetched or listened for ends the stream with an error and sends nothing: for want of a
/// listener the caller is told to come back, for anything else no more than that it failed.
pub proof fn law_broken_stream_says_so(s: Stream, answer: Answer)
    requires
        is_asked_for(s.phase, answer),
        answer is FetchFailed || answer is NoListener || answer is ListenFailed,
    ensures
        ({
            let (next, step) = step_of(s, answer);
            &&& next.phase == Phase::Closed
            &&& step.emit == 0
            &&& step.request == Request::Close
            &&& step.failure is Some
            &&& failure_error(step.failure->0).kind == ErrorKind::Internal
            &&& failure_error(step.failure->0).message == (if answer is NoListener {
                "streaming capacity reached; retry shortly or poll GetTask"@
            } else {
                "internal error"@
            })
        }),
{
}

} // verus!
