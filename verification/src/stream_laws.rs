//! What holds of every step of a sender, and of every run of steps.

use crate::sender::{ErrorHandler, RetryLevel, RetryManager, SenderError, Timestamp};
use crate::stream::{intake, Action, Event, Intake, Stage, StreamSender};
use crate::stream_model::{
    added, lemma_asked_only, lemma_failure_only, lemma_handler_left_alone, lemma_reported_last,
    lemma_reset_only, silent, Call, SenderState, Step,
};
use vstd::prelude::*;

verus! {

/// Exactly one call in `calls` goes to the error handler: the last, with
/// `error` and `buffer`.
pub open spec fn reports_once(calls: Seq<Call>, error: SenderError, buffer: Seq<u8>) -> bool {
    &&& calls.len() >= 1
    &&& calls.last() is HandleError
    &&& calls.last()->error == error
    &&& calls.last()->buffer == buffer
    &&& silent(calls.drop_last())
}

/// A step only adds calls. Where it ends the operation with an error, the
/// handler has heard exactly once in it, of that error, with the buffer as
/// the step leaves it; in any other step the handler has heard nothing.
pub open spec fn reports_what_it_returns(before: SenderState, step: Step) -> bool {
    let calls = added(before, step.next);
    &&& step.next.calls == before.calls + calls
    &&& match step.action {
        Action::Done(Err(error)) => reports_once(calls, error, step.next.buffer),
        _ => silent(calls),
    }
}

/// A step keeps the capacity, and keeps the buffer within it.
pub open spec fn keeps_bound(before: SenderState, step: Step) -> bool {
    &&& step.next.capacity == before.capacity
    &&& before.wf() ==> step.next.wf()
}

/// How many calls in `calls` go to the error handler.
pub open spec fn reports(calls: Seq<Call>) -> nat
    decreases calls.len(),
{
    if calls.len() == 0 {
        0
    } else {
        reports(calls.drop_last()) + if calls.last() is HandleError {
            1nat
        } else {
            0nat
        }
    }
}

/// One thing that happens to a sender: an operation begins, or an outcome
/// arrives. `level` is what the policy answers if it is asked.
pub enum Input {
    Emit { now: Timestamp, data: Seq<u8>, level: RetryLevel },
    Flush,
    Resume { event: Event, level: RetryLevel },
}

/// The step that `input` brings about in `state`.
pub open spec fn apply(state: SenderState, input: Input) -> Step {
    match input {
        Input::Emit { now, data, level } => state.start_emit(now, data, level),
        Input::Flush => state.start_flush(),
        Input::Resume { event, level } => state.resume(event, level),
    }
}

/// The state after `inputs`, one after another.
pub open spec fn run(state: SenderState, inputs: Seq<Input>) -> SenderState
    decreases inputs.len(),
{
    if inputs.len() == 0 {
        state
    } else {
        apply(run(state, inputs.drop_last()), inputs.last()).next
    }
}

/// How many of the steps that `inputs` bring about end with an error.
pub open spec fn failures(state: SenderState, inputs: Seq<Input>) -> nat
    decreases inputs.len(),
{
    if inputs.len() == 0 {
        0
    } else {
        failures(state, inputs.drop_last()) + if apply(
            run(state, inputs.drop_last()),
            inputs.last(),
        ).action matches Action::Done(Err(_)) {
            1nat
        } else {
            0nat
        }
    }
}

proof fn lemma_reports_of_concat(first: Seq<Call>, second: Seq<Call>)
    ensures
        reports(first + second) == reports(first) + reports(second),
    decreases second.len(),
{
    if second.len() == 0 {
        assert(first + second =~= first);
    } else {
        assert((first + second).drop_last() =~= first + second.drop_last());
        lemma_reports_of_concat(first, second.drop_last());
    }
}

proof fn lemma_silent_reports_nothing(calls: Seq<Call>)
    requires
        silent(calls),
    ensures
        reports(calls) == 0,
    decreases calls.len(),
{
    if calls.len() > 0 {
        assert(calls.last() == calls[calls.len() - 1]);
        assert forall|i: int| 0 <= i < calls.drop_last().len() implies !(
        #[trigger] calls.drop_last()[i] is HandleError) by {
            assert(calls.drop_last()[i] == calls[i]);
        }
        lemma_silent_reports_nothing(calls.drop_last());
    }
}

/// A failing step adds one handler call to the count, any other step none.
proof fn lemma_step_counts(before: SenderState, step: Step)
    requires
        reports_what_it_returns(before, step),
    ensures
        reports(step.next.calls) == reports(before.calls) + if step.action matches Action::Done(
            Err(_),
        ) {
            1nat
        } else {
            0nat
        },
{
    let calls = added(before, step.next);
    lemma_reports_of_concat(before.calls, calls);
    match step.action {
        Action::Done(Err(_)) => {
            lemma_silent_reports_nothing(calls.drop_last());
        },
        _ => {
            lemma_silent_reports_nothing(calls);
        },
    }
}

proof fn lemma_fail_reports(
    before: SenderState,
    state: SenderState,
    at: Timestamp,
    error: SenderError,
)
    requires
        state.calls.len() >= before.calls.len(),
        state.calls == before.calls + added(before, state),
        silent(added(before, state)),
    ensures
        reports_what_it_returns(before, state.fail(at, error)),
        state.fail(at, error).next.buffer == state.buffer,
{
    let step = state.fail(at, error);
    let calls = added(before, step.next);
    let earlier = added(before, state);
    assert(calls =~= earlier.push(
        Call::HandleError { timestamp: at, error, buffer: state.buffer },
    ));
    assert(calls.drop_last() =~= earlier);
    assert(step.next.calls =~= before.calls + calls);
}

proof fn lemma_said_silently(before: SenderState, state: SenderState, call: Call)
    requires
        state.calls == before.calls + added(before, state),
        silent(added(before, state)),
        !(call is HandleError),
    ensures
        state.said(call).calls == before.calls + added(before, state.said(call)),
        silent(added(before, state.said(call))),
{
    let earlier = added(before, state);
    let calls = added(before, state.said(call));
    assert(calls =~= earlier.push(call));
    assert(state.said(call).calls =~= before.calls + calls);
}

proof fn lemma_begin_flush_is_silent(before: SenderState, state: SenderState)
    requires
        state.calls == before.calls + added(before, state),
        silent(added(before, state)),
    ensures
        reports_what_it_returns(before, state.begin_flush()),
{
    lemma_said_silently(before, state, Call::Reset);
}

proof fn lemma_append_is_silent(
    before: SenderState,
    state: SenderState,
    data: Seq<u8>,
    level: RetryLevel,
)
    requires
        state.calls == before.calls + added(before, state),
        silent(added(before, state)),
    ensures
        reports_what_it_returns(before, state.append(data, level)),
{
    let kept = SenderState { buffer: state.buffer + data, ..state };
    assert(added(before, kept) == added(before, state));
    lemma_begin_flush_is_silent(before, kept);
}

proof fn lemma_nothing_added(state: SenderState)
    ensures
        state.calls == state.calls + added(state, state),
        silent(added(state, state)),
{
    assert(added(state, state) =~= Seq::<Call>::empty());
    assert(state.calls =~= state.calls + added(state, state));
}

/// `flush`, as it begins, tells the handler nothing: it has not failed yet.
pub proof fn lemma_start_flush_reports(state: SenderState)
    ensures
        reports_what_it_returns(state, state.start_flush()),
{
    lemma_nothing_added(state);
    assert(added(state, state.idle()) == added(state, state));
    lemma_begin_flush_is_silent(state, state.idle());
}

/// `emit`, as it begins, tells the handler of the error that it returns, and
/// of nothing else.
pub proof fn lemma_start_emit_reports(
    state: SenderState,
    now: Timestamp,
    data: Seq<u8>,
    level: RetryLevel,
)
    ensures
        reports_what_it_returns(state, state.start_emit(now, data, level)),
{
    lemma_nothing_added(state);
    assert(added(state, state.idle()) == added(state, state));
    let asked = state.idle().said(Call::Attempt { now, level });
    lemma_said_silently(state, state.idle(), Call::Attempt { now, level });
    match intake(level, asked.buffer.len(), data.len(), asked.capacity) {
        Intake::GiveUp => {
            lemma_fail_reports(state, asked, now, SenderError::RetryAttemptsExceeded);
        },
        Intake::TooLarge { after_reset } => {
            if after_reset {
                lemma_said_silently(state, asked, Call::Reset);
                lemma_fail_reports(state, asked.said(Call::Reset), now, SenderError::TooLargeData);
            } else {
                lemma_fail_reports(state, asked, now, SenderError::TooLargeData);
            }
        },
        Intake::FlushFirst => {},
        Intake::Keep => {
            lemma_append_is_silent(state, asked, data, level);
        },
        Intake::Send => {
            lemma_append_is_silent(state, asked, data, level);
        },
    }
}

/// A step that takes an outcome tells the handler of the error that it
/// returns, and of nothing else.
pub proof fn lemma_resume_reports(state: SenderState, event: Event, level: RetryLevel)
    ensures
        reports_what_it_returns(state, state.resume(event, level)),
{
    lemma_nothing_added(state);
    match (state.stage, event) {
        (Stage::FirstWrite, Event::Written) => {
            lemma_sent_reports(state, level);
        },
        (Stage::SecondWrite, Event::Written) => {
            lemma_sent_reports(state, level);
        },
        (Stage::FirstWrite, Event::WriteFailed(_)) => {},
        (Stage::Connect, Event::Connected) => {},
        (Stage::Connect, Event::ConnectFailed(_)) => {},
        (Stage::SecondWrite, Event::WriteFailed(_)) => {},
        (Stage::FailureTime(error), Event::Clock(now)) => {
            lemma_said_silently(state, state, Call::RecordError { now });
            lemma_fail_reports(
                state,
                state.said(Call::RecordError { now }),
                now,
                SenderError::IO(error),
            );
        },
        _ => {},
    }
}

proof fn lemma_sent_reports(state: SenderState, level: RetryLevel)
    ensures
        reports_what_it_returns(state, state.sent(level)),
{
    lemma_nothing_added(state);
    let emptied = SenderState { buffer: Seq::empty(), ..state }.idle();
    assert(added(state, emptied) == added(state, state));
    lemma_said_silently(state, emptied, Call::Reset);
    let cleared = emptied.said(Call::Reset);
    match state.pending {
        None => {},
        Some(frame) => {
            if frame.data.len() > cleared.capacity {
                lemma_fail_reports(state, cleared, frame.now, SenderError::TooLargeData);
            } else {
                let call = Call::Attempt { now: frame.now, level };
                lemma_said_silently(state, cleared, call);
                lemma_append_is_silent(state, cleared.said(call), frame.data, level);
            }
        },
    }
}

/// No step changes the capacity, and none takes the buffer over it.
pub proof fn lemma_steps_keep_bound(state: SenderState, input: Input)
    ensures
        keeps_bound(state, apply(state, input)),
{
}

/// Whatever happens to a sender, in whatever order, its buffer stays within
/// its capacity, and the capacity stays what it was.
pub proof fn lemma_run_keeps_bound(state: SenderState, inputs: Seq<Input>)
    requires
        state.wf(),
    ensures
        run(state, inputs).wf(),
        run(state, inputs).capacity == state.capacity,
    decreases inputs.len(),
{
    if inputs.len() > 0 {
        lemma_run_keeps_bound(state, inputs.drop_last());
        lemma_steps_keep_bound(run(state, inputs.drop_last()), inputs.last());
    }
}

/// Every step tells the handler of the error it returns and of nothing
/// else.
pub proof fn lemma_steps_report(state: SenderState, input: Input)
    ensures
        reports_what_it_returns(state, apply(state, input)),
{
    match input {
        Input::Emit { now, data, level } => lemma_start_emit_reports(state, now, data, level),
        Input::Flush => lemma_start_flush_reports(state),
        Input::Resume { event, level } => lemma_resume_reports(state, event, level),
    }
}

/// Whatever happens to a sender, the handler has been called as many times
/// as an operation has ended with an error.
pub proof fn lemma_one_report_per_failure(state: SenderState, inputs: Seq<Input>)
    ensures
        reports(run(state, inputs).calls) == reports(state.calls) + failures(state, inputs),
    decreases inputs.len(),
{
    if inputs.len() > 0 {
        let before = run(state, inputs.drop_last());
        lemma_one_report_per_failure(state, inputs.drop_last());
        lemma_steps_report(before, inputs.last());
        lemma_step_counts(before, apply(before, inputs.last()));
    }
}

/// A flush whose write succeeds, on the stream it had or on the new one,
/// empties the buffer and resets the policy, and that is all it does.
pub proof fn lemma_flush_success(state: SenderState, level: RetryLevel)
    requires
        state.stage is FirstWrite || state.stage is SecondWrite,
        state.pending is None,
    ensures
        state.resume(Event::Written, level) == (Step {
            next: SenderState {
                buffer: Seq::empty(),
                calls: state.calls.push(Call::Reset),
                stage: Stage::Idle,
                ..state
            },
            action: Action::Done(Ok(())),
        }),
{
}

/// A flush with nothing to write succeeds at once: the policy is reset and
/// the stream is not touched.
pub proof fn lemma_flush_of_nothing(state: SenderState)
    requires
        state.buffer.len() == 0,
    ensures
        state.start_flush() == (Step {
            next: state.idle().said(Call::Reset),
            action: Action::Done(Ok(())),
        }),
{
}

/// A flush that has failed keeps the buffer, tells the policy of the
/// failure and then the handler, both with the time that the clock gave, and
/// returns the error of the last thing that was tried.
pub proof fn lemma_flush_failure(
    state: SenderState,
    error: std::io::Error,
    now: Timestamp,
    level: RetryLevel,
)
    requires
        state.stage == Stage::FailureTime(error),
    ensures
        state.resume(Event::Clock(now), level) == (Step {
            next: SenderState {
                calls: state.calls.push(Call::RecordError { now }).push(
                    Call::HandleError {
                        timestamp: now,
                        error: SenderError::IO(error),
                        buffer: state.buffer,
                    },
                ),
                stage: Stage::Idle,
                pending: None,
                ..state
            },
            action: Action::Done(Err(SenderError::IO(error))),
        }),
{
}

/// A flush whose write fails, whose reconnect succeeds and whose write on the
/// new stream succeeds has succeeded: the buffer is empty, the policy is
/// reset, and neither the policy nor the handler has heard of the failed
/// write.
pub proof fn lemma_reconnect_recovers(state: SenderState, error: std::io::Error, level: RetryLevel)
    requires
        state.stage is FirstWrite,
        state.pending is None,
    ensures
        ({
            let failed = state.resume(Event::WriteFailed(error), level);
            let dialed = failed.next.resume(Event::Connected, level);
            let written = dialed.next.resume(Event::Written, level);
            &&& failed.action == Action::Connect
            &&& dialed.action == Action::Write
            &&& dialed.next.buffer == state.buffer
            &&& written.action == Action::Done(Ok(()))
            &&& written.next.buffer.len() == 0
            &&& written.next.stage is Idle
            &&& written.next.calls == state.calls.push(Call::Reset)
        }),
{
}

/// A flush whose write fails and whose reconnect fails with `refused` has
/// failed with `refused`; so has one whose reconnect succeeds and whose
/// write on the new stream fails with `refused`. Either way the buffer is
/// what it was, the policy has been told of one failure, at the time that
/// the clock gave, and the handler has heard once.
pub proof fn lemma_reconnect_fails(
    state: SenderState,
    error: std::io::Error,
    refused: std::io::Error,
    now: Timestamp,
    level: RetryLevel,
)
    requires
        state.stage is FirstWrite,
    ensures
        ({
            let failed = state.resume(Event::WriteFailed(error), level);
            let undialed = failed.next.resume(Event::ConnectFailed(refused), level);
            let dialed = failed.next.resume(Event::Connected, level);
            let unwritten = dialed.next.resume(Event::WriteFailed(refused), level);
            let told = state.calls.push(Call::RecordError { now }).push(
                Call::HandleError {
                    timestamp: now,
                    error: SenderError::IO(refused),
                    buffer: state.buffer,
                },
            );
            &&& undialed.action == Action::ReadClock
            &&& unwritten.action == Action::ReadClock
            &&& undialed.next.resume(Event::Clock(now), level) == unwritten.next.resume(
                Event::Clock(now),
                level,
            )
            &&& undialed.next.resume(Event::Clock(now), level) == (Step {
                next: SenderState { calls: told, stage: Stage::Idle, pending: None, ..state },
                action: Action::Done(Err(SenderError::IO(refused))),
            })
        }),
{
}

/// Where a step ends the operation with an error, the handler is as its
/// `handle_error` may leave it when called with that error, with the buffer
/// as the step leaves it; after any other step the handler is what it was.
pub proof fn lemma_handler_hears_what_is_returned<R: RetryManager, H: ErrorHandler>(
    before: StreamSender<R, H>,
    after: StreamSender<R, H>,
    action: Action,
)
    requires
        reports_what_it_returns(before@, Step { next: after@, action }),
        after.only_called(&before),
    ensures
        match action {
            Action::Done(Err(error)) => exists|at: Timestamp| #[trigger]
                before.handler().hears(at, error, after@.buffer, &after.handler()),
            _ => after.handler() == before.handler(),
        },
{
    let calls = added(before@, after@);
    match action {
        Action::Done(Err(error)) => {
            lemma_reported_last(before.handler(), calls, after.handler());
            assert(before.handler().hears(
                calls.last()->timestamp,
                error,
                after@.buffer,
                &after.handler(),
            ));
        },
        _ => {
            lemma_handler_left_alone(before.handler(), calls, after.handler());
        },
    }
}

/// After a flush whose write has succeeded, the buffer is empty, the policy
/// is as its `reset` leaves it, and the handler has not been touched.
pub proof fn lemma_success_resets_policy<R: RetryManager, H: ErrorHandler>(
    before: StreamSender<R, H>,
    after: StreamSender<R, H>,
    level: RetryLevel,
)
    requires
        before@.stage is FirstWrite || before@.stage is SecondWrite,
        before@.pending is None,
        after@ == before@.resume(Event::Written, level).next,
        after.only_called(&before),
    ensures
        after@.buffer.len() == 0,
        before.policy().resets_to(&after.policy()),
        after.handler() == before.handler(),
{
    assert(added(before@, after@) =~= seq![Call::Reset]);
    lemma_reset_only(before.policy(), after.policy());
    lemma_handler_left_alone(before.handler(), added(before@, after@), after.handler());
}

/// After a flush that has failed, the buffer is what it was and the policy
/// is as its `record_error` leaves it at the time that the clock gave.
pub proof fn lemma_failure_tells_policy<R: RetryManager, H: ErrorHandler>(
    before: StreamSender<R, H>,
    after: StreamSender<R, H>,
    error: std::io::Error,
    now: Timestamp,
    level: RetryLevel,
)
    requires
        before@.stage == Stage::FailureTime(error),
        after@ == before@.resume(Event::Clock(now), level).next,
        after.only_called(&before),
    ensures
        after@.buffer == before@.buffer,
        before.policy().records_to(now, &after.policy()),
{
    let reported = Call::HandleError {
        timestamp: now,
        error: SenderError::IO(error),
        buffer: before@.buffer,
    };
    assert(added(before@, after@) =~= seq![Call::RecordError { now }, reported]);
    lemma_failure_only(before.policy(), now, reported, after.policy());
}

/// While the policy says wait and the frame fits, `emit` touches neither
/// the policy nor the handler.
pub proof fn lemma_wait_touches_nothing<R: RetryManager, H: ErrorHandler>(
    before: StreamSender<R, H>,
    after: StreamSender<R, H>,
    now: Timestamp,
    data: Seq<u8>,
)
    requires
        before@.buffer.len() + data.len() <= before@.capacity,
        after@ == before@.start_emit(now, data, RetryLevel::Wait).next,
        after.only_called(&before),
    ensures
        after@.buffer == before@.buffer + data,
        after.policy() == before.policy(),
        after.handler() == before.handler(),
{
    assert(added(before@, after@) =~= seq![Call::Attempt { now, level: RetryLevel::Wait }]);
    lemma_asked_only(before.policy(), now, RetryLevel::Wait, after.policy());
    lemma_handler_left_alone(before.handler(), added(before@, after@), after.handler());
}

/// One flush dials at most once: after the reconnect, whether it has
/// succeeded or not, no step of that flush asks for another.
pub proof fn lemma_reconnects_once(state: SenderState, event: Event, level: RetryLevel)
    requires
        state.stage is SecondWrite || state.stage is FailureTime,
    ensures
        !(state.resume(event, level).action is Connect),
        !(state.resume(event, level).next.stage is Connect),
        !(state.resume(event, level).next.stage is FirstWrite) || state.pending is Some,
{
}

/// While the policy says wait and the frame fits, `emit` buffers the frame
/// behind what is there and returns: nothing is written, the handler hears
/// nothing, the policy is asked and not told anything.
pub proof fn lemma_wait_buffers(state: SenderState, now: Timestamp, data: Seq<u8>)
    requires
        state.buffer.len() + data.len() <= state.capacity,
    ensures
        state.start_emit(now, data, RetryLevel::Wait) == (Step {
            next: SenderState {
                buffer: state.buffer + data,
                calls: state.calls.push(Call::Attempt { now, level: RetryLevel::Wait }),
                stage: Stage::Idle,
                pending: None,
                ..state
            },
            action: Action::Done(Ok(())),
        }),
{
}

/// A frame that is refused leaves the buffer as it was.
pub proof fn lemma_refusal_keeps_buffer(
    state: SenderState,
    now: Timestamp,
    data: Seq<u8>,
    level: RetryLevel,
)
    ensures
        state.start_emit(now, data, level).action matches Action::Done(Err(_))
            ==> state.start_emit(now, data, level).next.buffer == state.buffer,
        state.start_emit(now, data, level).action == Action::Done(
            Err(SenderError::RetryAttemptsExceeded),
        ) <==> level == RetryLevel::AttemptsExceeded,
        state.start_emit(now, data, level).action == Action::Done(Err(SenderError::TooLargeData))
            <==> level != RetryLevel::AttemptsExceeded && state.buffer.len() + data.len()
            > state.capacity && !(level == RetryLevel::Ready && state.buffer.len() > 0),
{
}

} // verus!
