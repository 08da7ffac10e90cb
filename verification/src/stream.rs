//! The sender over a stream, without the stream: the buffer, the decisions
//! of `emit` and `flush`, and the calls into the retry policy and the error
//! handler. Whoever owns the stream drives it: `start_emit` or `start_flush`
//! says what to do with the stream first, `resume` takes what came of it and
//! says what to do next, until the answer is `Action::Done`.
//!
//! ```text
//! let mut action = sender.start_emit(now, frame);
//! loop {
//!     let event = match action {
//!         Action::Done(result) => return result,
//!         Action::Write => match stream.write(sender.buffer()) {
//!             Ok(_) => Event::Written,
//!             Err(error) => Event::WriteFailed(error),
//!         },
//!         Action::Connect => match dial() {
//!             Ok(new) => { stream = new; Event::Connected }
//!             Err(error) => Event::ConnectFailed(error),
//!         },
//!         Action::ReadClock => Event::Clock(clock()),
//!     };
//!     action = sender.resume(event);
//! }
//! ```

use crate::msgpack_util::extend_bytes;
use crate::sender::{ErrorHandler, RetryLevel, RetryManager, SenderError, Timestamp};
use crate::stream_model::{
    added, handler_went, lemma_handler_went_in_turn, lemma_policy_went_in_turn, policy_went, Call,
    Pending, SenderState, Step,
};
use crate::stream_laws::{
    lemma_resume_reports, lemma_start_emit_reports, lemma_start_flush_reports,
    reports_what_it_returns,
};
use vstd::prelude::*;

verus! {

/// The buffer's capacity where none is given: 8 MiB.
pub const DEFAULT_CAPACITY: usize = 8 * 1024 * 1024;

/// What the owner of the stream is asked to do.
pub enum Action {
    /// Write the buffered bytes to the stream, then resume with `Written`
    /// or `WriteFailed`.
    Write,
    /// Dial the address again and take the new stream in place of the old,
    /// then resume with `Connected` or `ConnectFailed`.
    Connect,
    /// Read the monotonic clock, then resume with `Clock`.
    ReadClock,
    /// Nothing more: this is what `emit` or `flush` returns.
    Done(Result<(), SenderError>),
}

/// What came of an action.
pub enum Event {
    /// The write returned without error, whatever the count it gave.
    Written,
    /// The write returned this error.
    WriteFailed(std::io::Error),
    /// A new stream is in place.
    Connected,
    /// Dialing returned this error.
    ConnectFailed(std::io::Error),
    /// The clock read this.
    Clock(Timestamp),
}

/// What the sender is waiting for.
pub enum Stage {
    /// Nothing: no flush is under way.
    Idle,
    /// The outcome of the write on the stream it had.
    FirstWrite,
    /// The outcome of the one reconnect.
    Connect,
    /// The outcome of the write on the new stream.
    SecondWrite,
    /// The time at which the flush failed with this error.
    FailureTime(std::io::Error),
}

/// What to do with a frame that arrives, once the policy has given its
/// verdict.
#[derive(Clone, Copy, Debug, PartialEq, Eq, Structural)]
pub enum Intake {
    /// The policy has given up: refuse with `RetryAttemptsExceeded`.
    GiveUp,
    /// The frame does not fit and no flush can make room: refuse with
    /// `TooLargeData`. With `after_reset`, the buffer is empty and the
    /// policy ready, so the flush that comes first has nothing to write and
    /// only resets the policy.
    TooLarge { after_reset: bool },
    /// The frame does not fit, the policy is ready and the buffer holds
    /// something: flush, then look at the frame again.
    FlushFirst,
    /// The frame fits and the policy says wait: buffer it and return.
    Keep,
    /// The frame fits and the policy is ready: buffer it and flush.
    Send,
}

/// The decision on a frame of `incoming` bytes, for a buffer that holds
/// `buffered` bytes of `capacity`, under the verdict `level`.
pub open spec fn intake(level: RetryLevel, buffered: nat, incoming: nat, capacity: nat) -> Intake {
    if level == RetryLevel::AttemptsExceeded {
        Intake::GiveUp
    } else if buffered + incoming > capacity {
        if level == RetryLevel::Ready {
            if buffered > 0 {
                Intake::FlushFirst
            } else {
                Intake::TooLarge { after_reset: true }
            }
        } else {
            Intake::TooLarge { after_reset: false }
        }
    } else if level == RetryLevel::Ready {
        Intake::Send
    } else {
        Intake::Keep
    }
}

/// Decides what to do with a frame of `incoming` bytes under the verdict
/// `level`.
pub fn decide_intake(level: RetryLevel, buffered: usize, incoming: usize, capacity: usize) -> (d:
    Intake)
    ensures
        d == intake(level, buffered as nat, incoming as nat, capacity as nat),
{
    if level == RetryLevel::AttemptsExceeded {
        Intake::GiveUp
    } else if buffered > capacity || incoming > capacity - buffered {
        if level == RetryLevel::Ready {
            if buffered > 0 {
                Intake::FlushFirst
            } else {
                Intake::TooLarge { after_reset: true }
            }
        } else {
            Intake::TooLarge { after_reset: false }
        }
    } else if level == RetryLevel::Ready {
        Intake::Send
    } else {
        Intake::Keep
    }
}

/// A sender over a stream that someone else owns. It holds the buffer, the
/// retry policy and the error handler, and decides; the owner of the stream
/// writes and dials.
pub struct StreamSender<R: RetryManager, H: ErrorHandler> {
    retry_manager: R,
    error_handler: H,
    buffer: Vec<u8>,
    capacity: usize,
    stage: Stage,
    pending: Option<(Timestamp, Vec<u8>)>,
    calls: Ghost<Seq<Call>>,
}

impl<R: RetryManager, H: ErrorHandler> View for StreamSender<R, H> {
    type V = SenderState;

    closed spec fn view(&self) -> SenderState {
        SenderState {
            buffer: self.buffer@,
            capacity: self.capacity as nat,
            stage: self.stage,
            pending: match self.pending {
                Some(frame) => Some(Pending { now: frame.0, data: frame.1@ }),
                None => None,
            },
            calls: self.calls@,
        }
    }
}

impl<R: RetryManager, H: ErrorHandler> StreamSender<R, H> {
    /// The retry policy as it stands.
    pub closed spec fn policy(&self) -> R {
        self.retry_manager
    }

    /// The error handler as it stands.
    pub closed spec fn handler(&self) -> H {
        self.error_handler
    }

    /// Since `before`, the sender has only added to its calls, and they are
    /// all that has happened to the policy and the handler: each is where
    /// those calls have taken it.
    pub open spec fn only_called(&self, before: &Self) -> bool {
        let calls = added(before@, self@);
        &&& self@.calls == before@.calls + calls
        &&& policy_went(before.policy(), calls, self.policy())
        &&& handler_went(before.handler(), calls, self.handler())
    }

    /// A sender with an empty buffer of 8 MiB.
    pub fn new(retry_manager: R, error_handler: H) -> (sender: Self)
        ensures
            sender@ == SenderState::empty(DEFAULT_CAPACITY as nat),
            sender@.wf(),
            sender.policy() == retry_manager,
            sender.handler() == error_handler,
    {
        Self::with_capacity(DEFAULT_CAPACITY, retry_manager, error_handler)
    }

    /// A sender with an empty buffer of `capacity` bytes. Room is set aside
    /// at once for as much of it as the default capacity.
    pub fn with_capacity(capacity: usize, retry_manager: R, error_handler: H) -> (sender: Self)
        ensures
            sender@ == SenderState::empty(capacity as nat),
            sender@.wf(),
            sender.policy() == retry_manager,
            sender.handler() == error_handler,
    {
        let reserved = if capacity <= DEFAULT_CAPACITY {
            capacity
        } else {
            DEFAULT_CAPACITY
        };
        StreamSender {
            retry_manager,
            error_handler,
            buffer: Vec::with_capacity(reserved),
            capacity,
            stage: Stage::Idle,
            pending: None,
            calls: Ghost(Seq::empty()),
        }
    }

    /// The bytes that are buffered: what `Action::Write` asks to be written.
    pub fn buffer(&self) -> (bytes: &[u8])
        ensures
            bytes@ == self@.buffer,
    {
        self.buffer.as_slice()
    }

    /// How many bytes the buffer may hold.
    pub fn capacity(&self) -> (capacity: usize)
        ensures
            capacity == self@.capacity,
    {
        self.capacity
    }

    /// Whether a flush is under way.
    pub fn is_busy(&self) -> (busy: bool)
        ensures
            busy == !(self@.stage is Idle),
    {
        match self.stage {
            Stage::Idle => false,
            _ => true,
        }
    }

    /// The retry policy.
    pub fn retry_manager(&self) -> (policy: &R)
        ensures
            *policy == self.policy(),
    {
        &self.retry_manager
    }

    /// The error handler.
    pub fn error_handler(&self) -> (handler: &H)
        ensures
            *handler == self.handler(),
    {
        &self.error_handler
    }

    /// Nothing has been called since the state at hand.
    proof fn lemma_nothing_called(&self, before: &Self)
        requires
            self@.calls == before@.calls,
            self.policy() == before.policy(),
            self.handler() == before.handler(),
        ensures
            self.only_called(before),
    {
        assert(added(before@, self@) =~= Seq::<Call>::empty());
        assert(self@.calls =~= before@.calls + added(before@, self@));
    }

    /// One call has been made since the state at hand.
    proof fn lemma_one_called(&self, before: &Self, call: Call)
        requires
            self@.calls == before@.calls.push(call),
            match call {
                Call::Attempt { now, level } => before.policy().answers(now, level)
                    && self.policy() == before.policy(),
                Call::Reset => before.policy().resets_to(&self.policy()),
                Call::RecordError { now } => before.policy().records_to(now, &self.policy()),
                Call::HandleError { .. } => self.policy() == before.policy(),
            },
            match call {
                Call::HandleError { timestamp, error, buffer } => before.handler().hears(
                    timestamp,
                    error,
                    buffer,
                    &self.handler(),
                ),
                _ => self.handler() == before.handler(),
            },
        ensures
            self.only_called(before),
    {
        let calls = added(before@, self@);
        assert(calls =~= seq![call]);
        assert(calls[0] == call);
        assert(calls.first() == call);
        assert(calls.drop_first() =~= Seq::<Call>::empty());
        assert(self@.calls =~= before@.calls + calls);
        assert(policy_went(self.policy(), calls.drop_first(), self.policy()));
        assert(policy_went(before.policy(), calls, self.policy()));
        assert(handler_went(self.handler(), calls.drop_first(), self.handler()));
        assert(handler_went(before.handler(), calls, self.handler()));
    }

    /// What has been called since `start` is what was called up to `middle`
    /// and what has been called since.
    pub proof fn lemma_called_in_turn(&self, start: &Self, middle: &Self)
        requires
            middle.only_called(start),
            self.only_called(middle),
        ensures
            self.only_called(start),
    {
        let first = added(start@, middle@);
        let second = added(middle@, self@);
        let both = added(start@, self@);
        assert(both =~= first + second);
        assert(self@.calls =~= start@.calls + both);
        lemma_policy_went_in_turn(start.policy(), first, middle.policy(), second, self.policy());
        lemma_handler_went_in_turn(
            start.handler(),
            first,
            middle.handler(),
            second,
            self.handler(),
        );
    }

    /// Asks the policy.
    fn ask(&mut self, now: Timestamp) -> (level: RetryLevel)
        ensures
            final(self)@ == old(self)@.said(Call::Attempt { now, level }),
            final(self).only_called(old(self)),
            old(self).policy().answers(now, level),
    {
        let level = self.retry_manager.attempt(now);
        proof {
            self.calls@ = self.calls@.push(Call::Attempt { now, level });
            self.lemma_one_called(old(self), Call::Attempt { now, level });
        }
        level
    }

    /// Resets the policy.
    fn forget(&mut self)
        ensures
            final(self)@ == old(self)@.said(Call::Reset),
            final(self).only_called(old(self)),
    {
        self.retry_manager.reset();
        proof {
            self.calls@ = self.calls@.push(Call::Reset);
            self.lemma_one_called(old(self), Call::Reset);
        }
    }

    /// Tells the policy of a failure at `now`.
    fn note_failure(&mut self, now: Timestamp)
        ensures
            final(self)@ == old(self)@.said(Call::RecordError { now }),
            final(self).only_called(old(self)),
    {
        self.retry_manager.record_error(now);
        proof {
            self.calls@ = self.calls@.push(Call::RecordError { now });
            self.lemma_one_called(old(self), Call::RecordError { now });
        }
    }

    /// Leaves whatever was under way.
    fn abandon(&mut self)
        ensures
            final(self)@ == old(self)@.idle(),
            final(self).only_called(old(self)),
    {
        self.stage = Stage::Idle;
        self.pending = None;
        proof {
            self.lemma_nothing_called(old(self));
        }
    }

    /// Ends the operation well.
    fn finish(&mut self) -> (action: Action)
        ensures
            (Step { next: final(self)@, action }) == old(self)@.finish(),
            final(self).only_called(old(self)),
    {
        self.abandon();
        Action::Done(Ok(()))
    }

    /// Ends the operation with `error`, after the handler has heard of it.
    fn fail(&mut self, at: Timestamp, error: SenderError) -> (action: Action)
        ensures
            (Step { next: final(self)@, action }) == old(self)@.fail(at, error),
            final(self).only_called(old(self)),
    {
        self.abandon();
        let ghost idle = *self;
        self.error_handler.handle_error(at, &error, self.buffer.as_slice());
        proof {
            let call = Call::HandleError { timestamp: at, error, buffer: self.buffer@ };
            self.calls@ = self.calls@.push(call);
            self.lemma_one_called(&idle, call);
            self.lemma_called_in_turn(old(self), &idle);
        }
        Action::Done(Err(error))
    }

    /// Begins a flush.
    fn begin_flush(&mut self) -> (action: Action)
        ensures
            (Step { next: final(self)@, action }) == old(self)@.begin_flush(),
            final(self).only_called(old(self)),
    {
        if self.buffer.len() == 0 {
            self.forget();
            let ghost reset = *self;
            let action = self.finish();
            proof {
                self.lemma_called_in_turn(old(self), &reset);
            }
            action
        } else {
            self.stage = Stage::FirstWrite;
            self.pending = None;
            proof {
                self.lemma_nothing_called(old(self));
            }
            Action::Write
        }
    }

    /// Buffers `data`, and flushes where the verdict is ready.
    fn append(&mut self, data: &[u8], level: RetryLevel) -> (action: Action)
        ensures
            (Step { next: final(self)@, action }) == old(self)@.append(data@, level),
            final(self).only_called(old(self)),
    {
        extend_bytes(&mut self.buffer, data);
        let ghost kept = *self;
        proof {
            kept.lemma_nothing_called(old(self));
        }
        let action = if level == RetryLevel::Ready {
            self.begin_flush()
        } else {
            self.finish()
        };
        proof {
            self.lemma_called_in_turn(old(self), &kept);
        }
        action
    }

    /// Takes up the frame that waited for the flush, now that the buffer
    /// has been written.
    fn sent(&mut self) -> (action: Action)
        ensures
            exists|level: RetryLevel|
                (Step { next: final(self)@, action }) == #[trigger] old(self)@.sent(level),
            final(self).only_called(old(self)),
    {
        let waiting = self.pending.take();
        self.stage = Stage::Idle;
        self.buffer.clear();
        let ghost emptied = *self;
        proof {
            emptied.lemma_nothing_called(old(self));
        }
        self.forget();
        let ghost cleared = *self;
        proof {
            cleared.lemma_called_in_turn(old(self), &emptied);
        }
        match waiting {
            None => {
                let action = self.finish();
                proof {
                    self.lemma_called_in_turn(old(self), &cleared);
                }
                assert((Step { next: self@, action }) == old(self)@.sent(RetryLevel::Ready));
                action
            },
            Some(frame) => {
                let now = frame.0;
                let data = frame.1;
                if data.len() > self.capacity {
                    let action = self.fail(now, SenderError::TooLargeData);
                    proof {
                        self.lemma_called_in_turn(old(self), &cleared);
                    }
                    assert((Step { next: self@, action }) == old(self)@.sent(RetryLevel::Ready));
                    action
                } else {
                    let level = self.ask(now);
                    let ghost asked = *self;
                    proof {
                        asked.lemma_called_in_turn(old(self), &cleared);
                    }
                    let action = self.append(data.as_slice(), level);
                    proof {
                        self.lemma_called_in_turn(old(self), &asked);
                    }
                    assert((Step { next: self@, action }) == old(self)@.sent(level));
                    action
                }
            },
        }
    }

    /// Begins `flush`: the buffer is to be written now, whatever the policy
    /// says. Returns what to do with the stream, or `Done` where there is
    /// nothing to write.
    pub fn start_flush(&mut self) -> (action: Action)
        ensures
            (Step { next: final(self)@, action }) == old(self)@.start_flush(),
            final(self)@.capacity == old(self)@.capacity,
            old(self)@.wf() ==> final(self)@.wf(),
            reports_what_it_returns(old(self)@, Step { next: final(self)@, action }),
            final(self).only_called(old(self)),
    {
        self.abandon();
        let ghost idle = *self;
        let action = self.begin_flush();
        proof {
            self.lemma_called_in_turn(old(self), &idle);
            lemma_start_flush_reports(old(self)@);
        }
        action
    }

    /// Begins `emit` of one frame, `data`, at the clock reading `now`. The
    /// policy is asked once, and for the verdict it gives the frame is
    /// refused, buffered, or buffered and flushed, as `intake` says. The
    /// verdict is one that the policy may give at `now` as it stands.
    pub fn start_emit(&mut self, now: Timestamp, data: &[u8]) -> (action: Action)
        ensures
            exists|level: RetryLevel|
                old(self).policy().answers(now, level) && (Step { next: final(self)@, action })
                    == #[trigger] old(self)@.start_emit(now, data@, level),
            final(self)@.capacity == old(self)@.capacity,
            old(self)@.wf() ==> final(self)@.wf(),
            reports_what_it_returns(old(self)@, Step { next: final(self)@, action }),
            final(self).only_called(old(self)),
    {
        self.abandon();
        let ghost idle = *self;
        let level = self.ask(now);
        let ghost asked = *self;
        proof {
            asked.lemma_called_in_turn(old(self), &idle);
        }
        let action = match decide_intake(level, self.buffer.len(), data.len(), self.capacity) {
            Intake::GiveUp => self.fail(now, SenderError::RetryAttemptsExceeded),
            Intake::TooLarge { after_reset } => {
                if after_reset {
                    self.forget();
                }
                let ghost reset = *self;
                proof {
                    if !after_reset {
                        reset.lemma_nothing_called(&asked);
                    }
                }
                let action = self.fail(now, SenderError::TooLargeData);
                proof {
                    self.lemma_called_in_turn(&asked, &reset);
                }
                action
            },
            Intake::FlushFirst => {
                let mut frame: Vec<u8> = Vec::new();
                extend_bytes(&mut frame, data);
                self.stage = Stage::FirstWrite;
                self.pending = Some((now, frame));
                proof {
                    self.lemma_nothing_called(&asked);
                }
                Action::Write
            },
            Intake::Keep => self.append(data, level),
            Intake::Send => self.append(data, level),
        };
        proof {
            self.lemma_called_in_turn(old(self), &asked);
            lemma_start_emit_reports(old(self)@, now, data@, level);
        }
        assert((Step { next: self@, action }) == old(self)@.start_emit(now, data@, level));
        action
    }

    /// Takes the outcome of the action that was asked for and says what to
    /// do next. An event that is no outcome of that action changes nothing.
    pub fn resume(&mut self, event: Event) -> (action: Action)
        ensures
            exists|level: RetryLevel|
                (Step { next: final(self)@, action }) == #[trigger] old(self)@.resume(
                    event,
                    level,
                ),
            final(self)@.capacity == old(self)@.capacity,
            old(self)@.wf() ==> final(self)@.wf(),
            reports_what_it_returns(old(self)@, Step { next: final(self)@, action }),
            final(self).only_called(old(self)),
    {
        let mut stage = Stage::Idle;
        core::mem::swap(&mut self.stage, &mut stage);
        let action = match (stage, event) {
            (Stage::FirstWrite, Event::Written) | (Stage::SecondWrite, Event::Written) => {
                // `sent` does not look at the stage, so it need not be put back.
                let ghost taken = *self;
                proof {
                    taken.lemma_nothing_called(old(self));
                }
                let action = self.sent();
                proof {
                    self.lemma_called_in_turn(old(self), &taken);
                    let step = Step { next: self@, action };
                    let level = choose|level: RetryLevel| step == taken@.sent(level);
                    assert(taken@.sent(level) == old(self)@.sent(level));
                    assert(step == old(self)@.resume(event, level));
                }
                action
            },
            (Stage::FirstWrite, Event::WriteFailed(_)) => {
                self.stage = Stage::Connect;
                proof {
                    self.lemma_nothing_called(old(self));
                }
                assert((Step { next: self@, action: Action::Connect }) == old(self)@.resume(
                    event,
                    RetryLevel::Ready,
                ));
                Action::Connect
            },
            (Stage::Connect, Event::Connected) => {
                self.stage = Stage::SecondWrite;
                proof {
                    self.lemma_nothing_called(old(self));
                }
                assert((Step { next: self@, action: Action::Write }) == old(self)@.resume(
                    event,
                    RetryLevel::Ready,
                ));
                Action::Write
            },
            (Stage::Connect, Event::ConnectFailed(error)) => {
                self.stage = Stage::FailureTime(error);
                proof {
                    self.lemma_nothing_called(old(self));
                }
                assert((Step { next: self@, action: Action::ReadClock }) == old(self)@.resume(
                    event,
                    RetryLevel::Ready,
                ));
                Action::ReadClock
            },
            (Stage::SecondWrite, Event::WriteFailed(error)) => {
                self.stage = Stage::FailureTime(error);
                proof {
                    self.lemma_nothing_called(old(self));
                }
                assert((Step { next: self@, action: Action::ReadClock }) == old(self)@.resume(
                    event,
                    RetryLevel::Ready,
                ));
                Action::ReadClock
            },
            (Stage::FailureTime(error), Event::Clock(now)) => {
                let ghost taken = *self;
                proof {
                    taken.lemma_nothing_called(old(self));
                }
                self.note_failure(now);
                let ghost noted = *self;
                proof {
                    noted.lemma_called_in_turn(old(self), &taken);
                }
                let action = self.fail(now, SenderError::IO(error));
                proof {
                    self.lemma_called_in_turn(old(self), &noted);
                }
                assert((Step { next: self@, action }) == old(self)@.resume(
                    event,
                    RetryLevel::Ready,
                ));
                action
            },
            (waited, _) => {
                self.stage = waited;
                proof {
                    self.lemma_nothing_called(old(self));
                }
                let action = match self.stage {
                    Stage::Idle => Action::Done(Ok(())),
                    Stage::FirstWrite => Action::Write,
                    Stage::Connect => Action::Connect,
                    Stage::SecondWrite => Action::Write,
                    Stage::FailureTime(_) => Action::ReadClock,
                };
                assert((Step { next: self@, action }) == old(self)@.resume(
                    event,
                    RetryLevel::Ready,
                ));
                action
            },
        };
        proof {
            let step = Step { next: self@, action };
            let level = choose|level: RetryLevel| step == old(self)@.resume(event, level);
            lemma_resume_reports(old(self)@, event, level);
        }
        action
    }
}

} // verus!
