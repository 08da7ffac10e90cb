//! The sender as its contracts see it: what it holds, what it has called,
//! and what each step makes of both.

use crate::sender::{ErrorHandler, RetryLevel, RetryManager, SenderError, Timestamp};
use crate::stream::{intake, Action, Event, Intake, Stage};
use vstd::prelude::*;

verus! {

/// One call that the sender made into its retry policy or its error handler.
pub enum Call {
    /// `attempt(now)`, and what the policy answered.
    Attempt { now: Timestamp, level: RetryLevel },
    /// `reset()`.
    Reset,
    /// `record_error(now)`.
    RecordError { now: Timestamp },
    /// `handle_error(timestamp, &error, buffer)`.
    HandleError { timestamp: Timestamp, error: SenderError, buffer: Seq<u8> },
}

/// A frame that waits for the flush that makes room for it.
pub struct Pending {
    /// The clock reading of the `emit` that brought it.
    pub now: Timestamp,
    /// The frame.
    pub data: Seq<u8>,
}

/// The sender as its contracts see it.
#[verifier::ext_equal]
pub struct SenderState {
    /// The bytes that were taken and not yet written, oldest first.
    pub buffer: Seq<u8>,
    /// How many bytes the buffer may hold.
    pub capacity: nat,
    /// What the sender is waiting for.
    pub stage: Stage,
    /// The frame to take once the flush under way has made room.
    pub pending: Option<Pending>,
    /// Every call into the policy and the handler so far, in order.
    pub calls: Seq<Call>,
}

/// A state and what the owner of the stream is to do in it.
pub struct Step {
    pub next: SenderState,
    pub action: Action,
}

impl SenderState {
    /// A sender that holds nothing, waits for nothing and has called no one.
    pub open spec fn empty(capacity: nat) -> SenderState {
        SenderState {
            buffer: Seq::empty(),
            capacity,
            stage: Stage::Idle,
            pending: None,
            calls: Seq::empty(),
        }
    }

    /// The buffer is within its capacity.
    pub open spec fn wf(self) -> bool {
        self.buffer.len() <= self.capacity
    }

    /// The state after one more call.
    pub open spec fn said(self, call: Call) -> SenderState {
        SenderState { calls: self.calls.push(call), ..self }
    }

    /// The state with no flush under way and no frame waiting.
    pub open spec fn idle(self) -> SenderState {
        SenderState { stage: Stage::Idle, pending: None, ..self }
    }

    /// The action that the sender is waiting on the outcome of.
    pub open spec fn awaited(self) -> Action {
        match self.stage {
            Stage::Idle => Action::Done(Ok(())),
            Stage::FirstWrite => Action::Write,
            Stage::Connect => Action::Connect,
            Stage::SecondWrite => Action::Write,
            Stage::FailureTime(_) => Action::ReadClock,
        }
    }

    /// The operation ends well.
    pub open spec fn finish(self) -> Step {
        Step { next: self.idle(), action: Action::Done(Ok(())) }
    }

    /// The operation ends with `error`: the handler hears of it, with the
    /// buffer as it stands, and the buffer stays.
    pub open spec fn fail(self, at: Timestamp, error: SenderError) -> Step {
        Step {
            next: self.idle().said(
                Call::HandleError { timestamp: at, error, buffer: self.buffer },
            ),
            action: Action::Done(Err(error)),
        }
    }

    /// A flush begins. With nothing buffered there is nothing to write: it
    /// has succeeded, and the policy is reset.
    pub open spec fn begin_flush(self) -> Step {
        if self.buffer.len() == 0 {
            self.said(Call::Reset).finish()
        } else {
            Step {
                next: SenderState { stage: Stage::FirstWrite, pending: None, ..self },
                action: Action::Write,
            }
        }
    }

    /// The frame `data` is buffered; a flush follows where the verdict is
    /// ready.
    pub open spec fn append(self, data: Seq<u8>, level: RetryLevel) -> Step {
        let kept = SenderState { buffer: self.buffer + data, ..self };
        if level == RetryLevel::Ready {
            kept.begin_flush()
        } else {
            kept.finish()
        }
    }

    /// `flush` begins. An operation that was under way is abandoned.
    pub open spec fn start_flush(self) -> Step {
        self.idle().begin_flush()
    }

    /// `emit` of the frame `data` begins at `now`, and the policy's verdict
    /// at `now` is `level`. An operation that was under way is abandoned.
    pub open spec fn start_emit(self, now: Timestamp, data: Seq<u8>, level: RetryLevel) -> Step {
        let asked = self.idle().said(Call::Attempt { now, level });
        match intake(level, asked.buffer.len(), data.len(), asked.capacity) {
            Intake::GiveUp => asked.fail(now, SenderError::RetryAttemptsExceeded),
            Intake::TooLarge { after_reset } => if after_reset {
                asked.said(Call::Reset).fail(now, SenderError::TooLargeData)
            } else {
                asked.fail(now, SenderError::TooLargeData)
            },
            Intake::FlushFirst => Step {
                next: SenderState {
                    stage: Stage::FirstWrite,
                    pending: Some(Pending { now, data }),
                    ..asked
                },
                action: Action::Write,
            },
            Intake::Keep => asked.append(data, level),
            Intake::Send => asked.append(data, level),
        }
    }

    /// The buffer has been written: it is emptied and the policy reset. A
    /// frame that waited for the room is looked at again: where it still
    /// does not fit it is refused; else the policy is asked at the frame's
    /// own clock reading, answers `level`, and the frame is buffered.
    pub open spec fn sent(self, level: RetryLevel) -> Step {
        let cleared = SenderState { buffer: Seq::empty(), ..self }.idle().said(Call::Reset);
        match self.pending {
            None => cleared.finish(),
            Some(frame) => if frame.data.len() > cleared.capacity {
                cleared.fail(frame.now, SenderError::TooLargeData)
            } else {
                cleared.said(Call::Attempt { now: frame.now, level }).append(frame.data, level)
            },
        }
    }

    /// The flush has failed with `error` at `now`: the policy is told, the
    /// handler hears of it, and the buffer stays for the next flush.
    pub open spec fn broken(self, now: Timestamp, error: std::io::Error) -> Step {
        self.said(Call::RecordError { now }).fail(now, SenderError::IO(error))
    }

    /// `event` arrives. Where it is not an outcome of the action that the
    /// sender waits on, nothing changes and the action is asked for again.
    /// `level` is what the policy answers if it is asked in this step.
    pub open spec fn resume(self, event: Event, level: RetryLevel) -> Step {
        match (self.stage, event) {
            (Stage::FirstWrite, Event::Written) => self.sent(level),
            (Stage::SecondWrite, Event::Written) => self.sent(level),
            (Stage::FirstWrite, Event::WriteFailed(_)) => Step {
                next: SenderState { stage: Stage::Connect, ..self },
                action: Action::Connect,
            },
            (Stage::Connect, Event::Connected) => Step {
                next: SenderState { stage: Stage::SecondWrite, ..self },
                action: Action::Write,
            },
            (Stage::Connect, Event::ConnectFailed(error)) => Step {
                next: SenderState { stage: Stage::FailureTime(error), ..self },
                action: Action::ReadClock,
            },
            (Stage::SecondWrite, Event::WriteFailed(error)) => Step {
                next: SenderState { stage: Stage::FailureTime(error), ..self },
                action: Action::ReadClock,
            },
            (Stage::FailureTime(error), Event::Clock(now)) => self.broken(now, error),
            _ => Step { next: self, action: self.awaited() },
        }
    }
}

/// Where an operation that stands at `step` ends when the stream's outcomes
/// are `events`, in that order: `resume` takes one after the other until the
/// operation is done or the outcomes have run out. `level` is what the
/// policy answers if it is asked on the way.
pub open spec fn drive(step: Step, events: Seq<Event>, level: RetryLevel) -> Step
    decreases events.len(),
{
    if events.len() == 0 || step.action is Done {
        step
    } else {
        drive(step.next.resume(events.first(), level), events.drop_first(), level)
    }
}

/// The step after `step` when the stream's next outcome is `event`. An
/// operation that is done stays as it is.
pub open spec fn taken(step: Step, event: Event, level: RetryLevel) -> Step {
    if step.action is Done {
        step
    } else {
        step.next.resume(event, level)
    }
}

impl SenderState {
    /// `emit` of the frame `data` as a whole: it begins at `now` under the
    /// verdict `level`, and the stream's outcomes are `events`. `again` is
    /// what the policy answers if it is asked once more, after the flush
    /// that made room for the frame.
    pub open spec fn emit(
        self,
        now: Timestamp,
        data: Seq<u8>,
        level: RetryLevel,
        events: Seq<Event>,
        again: RetryLevel,
    ) -> Step {
        drive(self.start_emit(now, data, level), events, again)
    }

    /// `flush` as a whole, when the stream's outcomes are `events`. The
    /// policy is not asked.
    pub open spec fn flush(self, events: Seq<Event>) -> Step {
        drive(self.start_flush(), events, RetryLevel::Ready)
    }
}

/// The calls made in going from the state `before` to the state `after`.
pub open spec fn added(before: SenderState, after: SenderState) -> Seq<Call> {
    after.calls.skip(before.calls.len() as int)
}

/// No call in `calls` goes to the error handler.
pub open spec fn silent(calls: Seq<Call>) -> bool {
    forall|i: int| 0 <= i < calls.len() ==> !(#[trigger] calls[i] is HandleError)
}

/// No call in `calls` tells the policy anything: it is asked at most.
pub open spec fn leaves_policy(calls: Seq<Call>) -> bool {
    forall|i: int|
        0 <= i < calls.len() ==> !(#[trigger] calls[i] is Reset) && !(calls[i] is RecordError)
}

/// Whether the calls `calls`, made in that order, may have taken a policy
/// from `before` to `after`, by what the policy promises of its operations:
/// each answer was one that the policy may give as it stood, each `reset`
/// and `record_error` left it as it may leave it, and nothing else touched
/// it.
pub open spec fn policy_went<R: RetryManager>(before: R, calls: Seq<Call>, after: R) -> bool
    decreases calls.len(),
{
    if calls.len() == 0 {
        after == before
    } else {
        let rest = calls.drop_first();
        match calls.first() {
            Call::Attempt { now, level } => before.answers(now, level) && policy_went(
                before,
                rest,
                after,
            ),
            Call::Reset => exists|between: R| #[trigger]
                before.resets_to(&between) && policy_went(between, rest, after),
            Call::RecordError { now } => exists|between: R| #[trigger]
                before.records_to(now, &between) && policy_went(between, rest, after),
            Call::HandleError { .. } => policy_went(before, rest, after),
        }
    }
}

/// Whether the calls `calls`, made in that order, may have taken a handler
/// from `before` to `after`, by what the handler promises: each
/// `handle_error` left it as it may leave it, and nothing else touched it.
pub open spec fn handler_went<H: ErrorHandler>(before: H, calls: Seq<Call>, after: H) -> bool
    decreases calls.len(),
{
    if calls.len() == 0 {
        after == before
    } else {
        let rest = calls.drop_first();
        match calls.first() {
            Call::HandleError { timestamp, error, buffer } => exists|between: H| #[trigger]
                before.hears(timestamp, error, buffer, &between) && handler_went(
                    between,
                    rest,
                    after,
                ),
            _ => handler_went(before, rest, after),
        }
    }
}

/// Calls made one after the other take the handler where they take it in
/// turn.
pub proof fn lemma_handler_went_in_turn<H: ErrorHandler>(
    start: H,
    first: Seq<Call>,
    middle: H,
    second: Seq<Call>,
    end: H,
)
    requires
        handler_went(start, first, middle),
        handler_went(middle, second, end),
    ensures
        handler_went(start, first + second, end),
    decreases first.len(),
{
    if first.len() == 0 {
        assert(first + second =~= second);
    } else {
        let both = first + second;
        assert(both.first() == first.first());
        assert(both.drop_first() =~= first.drop_first() + second);
        match first.first() {
            Call::HandleError { timestamp, error, buffer } => {
                let between = choose|between: H| #[trigger]
                    start.hears(timestamp, error, buffer, &between) && handler_went(
                        between,
                        first.drop_first(),
                        middle,
                    );
                lemma_handler_went_in_turn(between, first.drop_first(), middle, second, end);
            },
            _ => {
                lemma_handler_went_in_turn(start, first.drop_first(), middle, second, end);
            },
        }
    }
}

/// Calls that do not go to the handler leave it what it was.
pub proof fn lemma_handler_left_alone<H: ErrorHandler>(before: H, calls: Seq<Call>, after: H)
    requires
        handler_went(before, calls, after),
        silent(calls),
    ensures
        after == before,
    decreases calls.len(),
{
    if calls.len() > 0 {
        assert(calls.first() == calls[0]);
        assert forall|i: int| 0 <= i < calls.drop_first().len() implies !(
        #[trigger] calls.drop_first()[i] is HandleError) by {
            assert(calls.drop_first()[i] == calls[i + 1]);
        }
        lemma_handler_left_alone(before, calls.drop_first(), after);
    }
}

/// One report at the end of calls that are otherwise silent: the handler is
/// as `handle_error` may leave it.
pub proof fn lemma_reported_last<H: ErrorHandler>(before: H, calls: Seq<Call>, after: H)
    requires
        calls.len() >= 1,
        calls.last() is HandleError,
        silent(calls.drop_last()),
        handler_went(before, calls, after),
    ensures
        before.hears(
            calls.last()->timestamp,
            calls.last()->error,
            calls.last()->buffer,
            &after,
        ),
    decreases calls.len(),
{
    if calls.len() == 1 {
        assert(calls.first() == calls.last());
        assert(calls.drop_first() =~= Seq::<Call>::empty());
        let between = choose|between: H| #[trigger]
            before.hears(
                calls.last()->timestamp,
                calls.last()->error,
                calls.last()->buffer,
                &between,
            ) && handler_went(between, calls.drop_first(), after);
        assert(between == after);
    } else {
        let rest = calls.drop_first();
        assert(calls.first() == calls.drop_last()[0]);
        assert(rest.last() == calls.last());
        assert(rest.drop_last() =~= calls.drop_last().drop_first());
        assert forall|i: int| 0 <= i < rest.drop_last().len() implies !(
        #[trigger] rest.drop_last()[i] is HandleError) by {
            assert(rest.drop_last()[i] == calls.drop_last()[i + 1]);
        }
        lemma_reported_last(before, rest, after);
    }
}

/// Calls made one after the other take the policy where they take it in
/// turn.
pub proof fn lemma_policy_went_in_turn<R: RetryManager>(
    start: R,
    first: Seq<Call>,
    middle: R,
    second: Seq<Call>,
    end: R,
)
    requires
        policy_went(start, first, middle),
        policy_went(middle, second, end),
    ensures
        policy_went(start, first + second, end),
    decreases first.len(),
{
    if first.len() == 0 {
        assert(first + second =~= second);
    } else {
        let both = first + second;
        assert(both.first() == first.first());
        assert(both.drop_first() =~= first.drop_first() + second);
        match first.first() {
            Call::Attempt { now, level } => {
                lemma_policy_went_in_turn(start, first.drop_first(), middle, second, end);
            },
            Call::Reset => {
                let between = choose|between: R| #[trigger]
                    start.resets_to(&between) && policy_went(between, first.drop_first(), middle);
                lemma_policy_went_in_turn(between, first.drop_first(), middle, second, end);
            },
            Call::RecordError { now } => {
                let between = choose|between: R| #[trigger]
                    start.records_to(now, &between) && policy_went(
                        between,
                        first.drop_first(),
                        middle,
                    );
                lemma_policy_went_in_turn(between, first.drop_first(), middle, second, end);
            },
            Call::HandleError { .. } => {
                lemma_policy_went_in_turn(start, first.drop_first(), middle, second, end);
            },
        }
    }
}

/// One question and nothing else: the policy is what it was, and the answer
/// was one that it may give.
pub proof fn lemma_asked_only<R: RetryManager>(
    before: R,
    now: Timestamp,
    level: RetryLevel,
    after: R,
)
    requires
        policy_went(before, seq![Call::Attempt { now, level }], after),
    ensures
        after == before,
        before.answers(now, level),
{
    let calls = seq![Call::Attempt { now, level }];
    assert(calls.first() == calls[0]);
    assert(calls.drop_first() =~= Seq::<Call>::empty());
    assert(policy_went(before, calls.drop_first(), after));
}

/// One `reset` and nothing else: the policy is as `reset` may leave it.
pub proof fn lemma_reset_only<R: RetryManager>(before: R, after: R)
    requires
        policy_went(before, seq![Call::Reset], after),
    ensures
        before.resets_to(&after),
{
    let calls = seq![Call::Reset];
    assert(calls.first() == calls[0]);
    assert(calls.drop_first() =~= Seq::<Call>::empty());
    let between = choose|between: R| #[trigger]
        before.resets_to(&between) && policy_went(between, calls.drop_first(), after);
    assert(between == after);
}

/// What a failed flush calls, and nothing else: the policy is as
/// `record_error` may leave it at the time of the failure.
pub proof fn lemma_failure_only<R: RetryManager>(
    before: R,
    now: Timestamp,
    reported: Call,
    after: R,
)
    requires
        reported is HandleError,
        policy_went(before, seq![Call::RecordError { now }, reported], after),
    ensures
        before.records_to(now, &after),
{
    let calls = seq![Call::RecordError { now }, reported];
    assert(calls.first() == calls[0]);
    assert(calls.drop_first() =~= seq![reported]);
    let rest = calls.drop_first();
    assert(rest.first() == rest[0]);
    assert(rest.drop_first() =~= Seq::<Call>::empty());
    let between = choose|between: R| #[trigger]
        before.records_to(now, &between) && policy_went(between, rest, after);
    assert(policy_went(between, rest.drop_first(), after));
    assert(between == after);
}

/// What an `emit` calls whose flush fails, and nothing else: the answer was
/// one that the policy may give, and the policy is as `record_error` may
/// leave it at the time of the failure.
pub proof fn lemma_asked_then_failed<R: RetryManager>(
    before: R,
    now: Timestamp,
    level: RetryLevel,
    failed_at: Timestamp,
    reported: Call,
    after: R,
)
    requires
        reported is HandleError,
        policy_went(
            before,
            seq![Call::Attempt { now, level }, Call::RecordError { now: failed_at }, reported],
            after,
        ),
    ensures
        before.answers(now, level),
        before.records_to(failed_at, &after),
{
    let calls = seq![Call::Attempt { now, level }, Call::RecordError { now: failed_at }, reported];
    assert(calls.first() == calls[0]);
    assert(calls.drop_first() =~= seq![Call::RecordError { now: failed_at }, reported]);
    lemma_failure_only(before, failed_at, reported, after);
}

/// Calls that tell the policy nothing leave it what it was.
pub proof fn lemma_policy_left_alone<R: RetryManager>(before: R, calls: Seq<Call>, after: R)
    requires
        policy_went(before, calls, after),
        leaves_policy(calls),
    ensures
        after == before,
    decreases calls.len(),
{
    if calls.len() > 0 {
        assert(calls.first() == calls[0]);
        assert forall|i: int| 0 <= i < calls.drop_first().len() implies !(
        #[trigger] calls.drop_first()[i] is Reset) && !(calls.drop_first()[i] is RecordError) by {
            assert(calls.drop_first()[i] == calls[i + 1]);
        }
        lemma_policy_left_alone(before, calls.drop_first(), after);
    }
}

} // verus!
