//! What holds of `emit` and of `flush` as a whole: of every operation that
//! a sender begins and the stream's outcomes carry to its end.

use crate::retry::ConstantDelay;
use crate::sender::{RetryLevel, SenderError, Timestamp};
use crate::stream::{Action, Event, Stage};
use crate::stream_laws::{
    keeps_bound, lemma_resume_reports, lemma_start_emit_reports, lemma_start_flush_reports,
    lemma_steps_keep_bound, lemma_wait_buffers, reports_once, reports_what_it_returns, Input,
};
use crate::stream_model::{
    added, drive, lemma_asked_then_failed, policy_went, taken, Call, SenderState, Step,
};
use vstd::prelude::*;

verus! {

/// A run of outcomes takes one outcome, then the rest.
pub proof fn lemma_drive_unrolls(step: Step, event: Event, rest: Seq<Event>, level: RetryLevel)
    ensures
        drive(step, seq![event] + rest, level) == if step.action is Done {
            step
        } else {
            drive(step.next.resume(event, level), rest, level)
        },
        drive(step, Seq::<Event>::empty(), level) == step,
{
    let events = seq![event] + rest;
    assert(events.first() == event);
    assert(events.drop_first() =~= rest);
}

/// A run of up to three outcomes is those outcomes taken one by one.
pub proof fn lemma_drive_three(
    step: Step,
    first: Event,
    second: Event,
    third: Event,
    level: RetryLevel,
)
    ensures
        ({
            let one = taken(step, first, level);
            let two = taken(one, second, level);
            let three = taken(two, third, level);
            &&& drive(step, seq![first], level) == one
            &&& drive(step, seq![first, second], level) == two
            &&& drive(step, seq![first, second, third], level) == three
        }),
{
    let one = taken(step, first, level);
    let two = taken(one, second, level);
    let none = Seq::<Event>::empty();
    assert(seq![first] + seq![second] =~= seq![first, second]);
    assert(seq![second] + seq![third] =~= seq![second, third]);
    assert(seq![first] + seq![second, third] =~= seq![first, second, third]);
    lemma_drive_unrolls(two, third, none, level);
    lemma_drive_unrolls(one, second, none, level);
    lemma_drive_unrolls(one, second, seq![third], level);
    lemma_drive_unrolls(step, first, none, level);
    lemma_drive_unrolls(step, first, seq![second], level);
    lemma_drive_unrolls(step, first, seq![second, third], level);
}

/// An operation that is done stays where it is, whatever comes.
pub proof fn lemma_done_is_done(step: Step, events: Seq<Event>, level: RetryLevel)
    requires
        step.action is Done,
    ensures
        drive(step, events, level) == step,
{
}

/// However the stream answers, an operation keeps the capacity and keeps
/// the buffer within it.
pub proof fn lemma_drive_keeps_bound(step: Step, events: Seq<Event>, level: RetryLevel)
    ensures
        drive(step, events, level).next.capacity == step.next.capacity,
        step.next.wf() ==> drive(step, events, level).next.wf(),
    decreases events.len(),
{
    if events.len() > 0 && !(step.action is Done) {
        lemma_steps_keep_bound(step.next, Input::Resume { event: events.first(), level });
        lemma_drive_keeps_bound(
            step.next.resume(events.first(), level),
            events.drop_first(),
            level,
        );
    }
}

/// `emit`, whatever the verdicts and however the stream answers, keeps the
/// capacity and keeps the buffer within it.
pub proof fn lemma_emit_keeps_bound(
    state: SenderState,
    now: Timestamp,
    data: Seq<u8>,
    level: RetryLevel,
    events: Seq<Event>,
    again: RetryLevel,
)
    ensures
        keeps_bound(state, state.emit(now, data, level, events, again)),
{
    lemma_steps_keep_bound(state, Input::Emit { now, data, level });
    lemma_drive_keeps_bound(state.start_emit(now, data, level), events, again);
}

/// `flush`, however the stream answers, keeps the capacity and keeps the
/// buffer within it.
pub proof fn lemma_flush_keeps_bound(state: SenderState, events: Seq<Event>)
    ensures
        keeps_bound(state, state.flush(events)),
{
    lemma_steps_keep_bound(state, Input::Flush);
    lemma_drive_keeps_bound(state.start_flush(), events, RetryLevel::Ready);
}

/// A step that reports nothing, then a step: what the second reports is
/// what the two report.
proof fn lemma_reports_in_turn(before: SenderState, step: Step, later: Step)
    requires
        reports_what_it_returns(before, step),
        !(step.action is Done),
        reports_what_it_returns(step.next, later),
    ensures
        reports_what_it_returns(before, later),
{
    let first = added(before, step.next);
    let second = added(step.next, later.next);
    let both = added(before, later.next);
    assert(both =~= first + second);
    assert(later.next.calls =~= before.calls + both);
    match later.action {
        Action::Done(Err(error)) => {
            assert(both.last() == second.last());
            assert(both.drop_last() =~= first + second.drop_last());
            assert forall|i: int| 0 <= i < both.drop_last().len() implies !(
            #[trigger] both.drop_last()[i] is HandleError) by {
                if i < first.len() {
                    assert(both.drop_last()[i] == first[i]);
                } else {
                    assert(both.drop_last()[i] == second.drop_last()[i - first.len()]);
                }
            }
        },
        _ => {
            assert forall|i: int| 0 <= i < both.len() implies !(
            #[trigger] both[i] is HandleError) by {
                if i < first.len() {
                    assert(both[i] == first[i]);
                } else {
                    assert(both[i] == second[i - first.len()]);
                }
            }
        },
    }
}

/// However the stream answers, an operation that ends with an error has
/// told the handler exactly once, last, of that error, with the buffer as
/// it leaves it; one that does not has told the handler nothing.
pub proof fn lemma_drive_reports(
    before: SenderState,
    step: Step,
    events: Seq<Event>,
    level: RetryLevel,
)
    requires
        reports_what_it_returns(before, step),
    ensures
        reports_what_it_returns(before, drive(step, events, level)),
    decreases events.len(),
{
    if events.len() > 0 && !(step.action is Done) {
        let later = step.next.resume(events.first(), level);
        lemma_resume_reports(step.next, events.first(), level);
        lemma_reports_in_turn(before, step, later);
        lemma_drive_reports(before, later, events.drop_first(), level);
    }
}

/// Where `emit` returns an error, the handler has heard exactly once in it,
/// before the return, of that error, with the buffer as `emit` leaves it;
/// where it returns well, or has not returned yet, the handler has heard
/// nothing.
pub proof fn lemma_emit_reports(
    state: SenderState,
    now: Timestamp,
    data: Seq<u8>,
    level: RetryLevel,
    events: Seq<Event>,
    again: RetryLevel,
)
    ensures
        reports_what_it_returns(state, state.emit(now, data, level, events, again)),
{
    lemma_start_emit_reports(state, now, data, level);
    lemma_drive_reports(state, state.start_emit(now, data, level), events, again);
}

/// What holds of a flush on the way, for the buffer `buffer` that it began
/// with: while it is not done it waits for the stream, holds no frame back
/// and keeps the buffer; where it ends with an error, the error is the
/// stream's and the buffer is kept; where it ends well, the buffer is empty.
pub open spec fn flushing(step: Step, buffer: Seq<u8>) -> bool {
    match step.action {
        Action::Done(Ok(())) => step.next.buffer.len() == 0,
        Action::Done(Err(error)) => error is IO && step.next.buffer == buffer,
        _ => step.next.buffer == buffer && step.next.pending is None && !(step.next.stage is Idle),
    }
}

proof fn lemma_drive_flushes(step: Step, buffer: Seq<u8>, events: Seq<Event>, level: RetryLevel)
    requires
        flushing(step, buffer),
    ensures
        flushing(drive(step, events, level), buffer),
    decreases events.len(),
{
    if events.len() > 0 && !(step.action is Done) {
        let later = step.next.resume(events.first(), level);
        assert(flushing(later, buffer));
        lemma_drive_flushes(later, buffer, events.drop_first(), level);
    }
}

/// Where `flush` returns an error, the error is the stream's, the buffer is
/// what it was, and the handler has heard exactly once, of that error and
/// with that buffer; where it returns well the buffer is empty and the
/// handler has heard nothing.
pub proof fn lemma_flush_reports(state: SenderState, events: Seq<Event>)
    ensures
        reports_what_it_returns(state, state.flush(events)),
        flushing(state.flush(events), state.buffer),
        state.flush(events).action matches Action::Done(Err(error)) ==> error is IO
            && reports_once(
            added(state, state.flush(events).next),
            error,
            state.buffer,
        ),
{
    lemma_start_flush_reports(state);
    lemma_drive_reports(state, state.start_flush(), events, RetryLevel::Ready);
    lemma_drive_flushes(state.start_flush(), state.buffer, events, RetryLevel::Ready);
}

/// `flush` does not depend on what the policy would answer: it is not
/// asked.
pub proof fn lemma_flush_asks_nothing(state: SenderState, events: Seq<Event>, level: RetryLevel)
    ensures
        drive(state.start_flush(), events, level) == state.flush(events),
{
    lemma_drive_asks_nothing(state.start_flush(), state.buffer, events, level);
}

proof fn lemma_drive_asks_nothing(
    step: Step,
    buffer: Seq<u8>,
    events: Seq<Event>,
    level: RetryLevel,
)
    requires
        flushing(step, buffer),
    ensures
        drive(step, events, level) == drive(step, events, RetryLevel::Ready),
    decreases events.len(),
{
    if events.len() > 0 && !(step.action is Done) {
        let later = step.next.resume(events.first(), level);
        assert(later == step.next.resume(events.first(), RetryLevel::Ready));
        assert(flushing(later, buffer));
        lemma_drive_asks_nothing(later, buffer, events.drop_first(), level);
    }
}

/// While the policy says wait and the frame fits, `emit` is done at once:
/// the frame stands behind what was buffered, the stream is not touched
/// whatever it would answer, and the only call is the question to the
/// policy.
pub proof fn lemma_emit_waits(
    state: SenderState,
    now: Timestamp,
    data: Seq<u8>,
    events: Seq<Event>,
    again: RetryLevel,
)
    requires
        state.buffer.len() + data.len() <= state.capacity,
    ensures
        state.emit(now, data, RetryLevel::Wait, events, again) == (Step {
            next: SenderState {
                buffer: state.buffer + data,
                calls: state.calls.push(Call::Attempt { now, level: RetryLevel::Wait }),
                stage: Stage::Idle,
                pending: None,
                ..state
            },
            action: Action::Done(Ok(())),
        }),
{
    lemma_wait_buffers(state, now, data);
}

/// An `emit` under a ready policy whose frame fits, whose write fails, whose
/// reconnect succeeds and whose write on the new stream succeeds: the new
/// stream is handed what was buffered and the frame behind it, in one
/// write; `emit` returns well with an empty buffer; the policy has been
/// asked and reset, and neither it nor the handler has heard of a failure.
pub proof fn lemma_emit_recovers(
    state: SenderState,
    now: Timestamp,
    data: Seq<u8>,
    error: std::io::Error,
    again: RetryLevel,
)
    requires
        state.buffer.len() + data.len() <= state.capacity,
        state.buffer.len() + data.len() > 0,
    ensures
        ({
            let ready = RetryLevel::Ready;
            let dialed = state.emit(
                now,
                data,
                ready,
                seq![Event::WriteFailed(error), Event::Connected],
                again,
            );
            let done = state.emit(
                now,
                data,
                ready,
                seq![Event::WriteFailed(error), Event::Connected, Event::Written],
                again,
            );
            let failed = state.emit(now, data, ready, seq![Event::WriteFailed(error)], again);
            &&& state.start_emit(now, data, ready).action == Action::Write
            &&& failed.action == Action::Connect
            &&& dialed.action == Action::Write
            &&& dialed.next.buffer == state.buffer + data
            &&& done == (Step {
                next: SenderState {
                    buffer: Seq::empty(),
                    calls: state.calls.push(Call::Attempt { now, level: ready }).push(Call::Reset),
                    stage: Stage::Idle,
                    pending: None,
                    ..state
                },
                action: Action::Done(Ok(())),
            })
        }),
{
    let begun = state.start_emit(now, data, RetryLevel::Ready);
    lemma_drive_three(begun, Event::WriteFailed(error), Event::Connected, Event::Written, again);
}

/// An `emit` under a ready policy whose frame fits, whose write fails and
/// whose reconnect fails with `refused`: `emit` returns `refused`, after
/// one dial and without another write; the frame stays buffered behind
/// what was there; the policy has been asked, then told of one failure at
/// the time that the clock gave, and the handler has heard once.
pub proof fn lemma_emit_fails(
    state: SenderState,
    now: Timestamp,
    data: Seq<u8>,
    error: std::io::Error,
    refused: std::io::Error,
    failed_at: Timestamp,
    again: RetryLevel,
)
    requires
        state.buffer.len() + data.len() <= state.capacity,
        state.buffer.len() + data.len() > 0,
    ensures
        ({
            let ready = RetryLevel::Ready;
            let events = seq![
                Event::WriteFailed(error),
                Event::ConnectFailed(refused),
                Event::Clock(failed_at),
            ];
            let reported = Call::HandleError {
                timestamp: failed_at,
                error: SenderError::IO(refused),
                buffer: state.buffer + data,
            };
            let failed = state.emit(now, data, ready, seq![Event::WriteFailed(error)], again);
            let undialed = state.emit(
                now,
                data,
                ready,
                seq![Event::WriteFailed(error), Event::ConnectFailed(refused)],
                again,
            );
            &&& state.start_emit(now, data, ready).action == Action::Write
            &&& failed.action == Action::Connect
            &&& undialed.action == Action::ReadClock
            &&& state.emit(now, data, ready, events, again) == (Step {
                next: SenderState {
                    buffer: state.buffer + data,
                    calls: state.calls.push(Call::Attempt { now, level: ready }).push(
                        Call::RecordError { now: failed_at },
                    ).push(reported),
                    stage: Stage::Idle,
                    pending: None,
                    ..state
                },
                action: Action::Done(Err(SenderError::IO(refused))),
            })
        }),
{
    let begun = state.start_emit(now, data, RetryLevel::Ready);
    lemma_drive_three(
        begun,
        Event::WriteFailed(error),
        Event::ConnectFailed(refused),
        Event::Clock(failed_at),
        again,
    );
}

/// An `emit` whose frame does not fit behind what is buffered, under a ready
/// policy, with the stream down: the flush that should make room fails, and
/// `emit` returns the error of the reconnect. What was buffered is still
/// there, all of it and nothing else: the frame has not been taken.
pub proof fn lemma_emit_keeps_buffer_when_room_cannot_be_made(
    state: SenderState,
    now: Timestamp,
    data: Seq<u8>,
    error: std::io::Error,
    refused: std::io::Error,
    failed_at: Timestamp,
    again: RetryLevel,
)
    requires
        state.buffer.len() > 0,
        state.buffer.len() + data.len() > state.capacity,
    ensures
        ({
            let events = seq![
                Event::WriteFailed(error),
                Event::ConnectFailed(refused),
                Event::Clock(failed_at),
            ];
            let end = state.emit(now, data, RetryLevel::Ready, events, again);
            &&& end.action == Action::Done(Err(SenderError::IO(refused)))
            &&& end.next.buffer == state.buffer
            &&& end.next.pending is None
            &&& end.next.stage is Idle
            &&& reports_once(added(state, end.next), SenderError::IO(refused), state.buffer)
        }),
{
    let ready = RetryLevel::Ready;
    let events = seq![
        Event::WriteFailed(error),
        Event::ConnectFailed(refused),
        Event::Clock(failed_at),
    ];
    let begun = state.start_emit(now, data, ready);
    lemma_drive_three(
        begun,
        Event::WriteFailed(error),
        Event::ConnectFailed(refused),
        Event::Clock(failed_at),
        again,
    );
    lemma_emit_reports(state, now, data, ready, events, again);
}

/// The default policy, having seen no failure, after an `emit` whose flush
/// has failed: it was ready, and it remembers exactly that one failure.
pub proof fn lemma_default_policy_after_failed_emit(
    before: ConstantDelay,
    now: Timestamp,
    level: RetryLevel,
    failed_at: Timestamp,
    reported: Call,
    after: ConstantDelay,
)
    requires
        reported is HandleError,
        before@.history.len() == 0,
        before@.max_errors > 0,
        policy_went(
            before,
            seq![Call::Attempt { now, level }, Call::RecordError { now: failed_at }, reported],
            after,
        ),
    ensures
        level == RetryLevel::Ready,
        after@.history == seq![failed_at],
        after@.max_errors == before@.max_errors,
        after@.wait == before@.wait,
{
    lemma_asked_then_failed(before, now, level, failed_at, reported, after);
    assert(after@.history =~= seq![failed_at]);
}

} // verus!
