use fluent::retry::ConstantDelay;
use fluent::sender::{ErrorHandler, NullHandler, RetryLevel, RetryManager, SenderError, Timestamp};
use fluent::stream::{decide_intake, Action, Event, Intake, StreamSender, DEFAULT_CAPACITY};
use std::cell::RefCell;
use std::collections::VecDeque;
use std::io::{Error, ErrorKind};

fn ms(millis: u64) -> Timestamp {
    Timestamp::from_millis(millis)
}

fn kind_of(error: &SenderError) -> &'static str {
    match error {
        SenderError::IO(_) => "io",
        SenderError::TooLargeData => "too large",
        SenderError::RetryAttemptsExceeded => "exceeded",
    }
}

/// A handler that writes down what it hears.
struct Recorder {
    heard: Vec<(Timestamp, &'static str, Vec<u8>)>,
}

impl Recorder {
    fn new() -> Recorder {
        Recorder { heard: Vec::new() }
    }
}

impl ErrorHandler for Recorder {
    fn handle_error(&mut self, timestamp: Timestamp, error: &SenderError, current_buffer: &[u8]) {
        self.heard.push((timestamp, kind_of(error), current_buffer.to_vec()));
    }
}

/// A policy that answers what it is told to, and writes down its calls.
struct Scripted {
    answers: RefCell<VecDeque<RetryLevel>>,
    asked: RefCell<Vec<Timestamp>>,
    resets: usize,
    errors: Vec<Timestamp>,
}

impl Scripted {
    fn new(answers: &[RetryLevel]) -> Scripted {
        Scripted {
            answers: RefCell::new(answers.iter().copied().collect()),
            asked: RefCell::new(Vec::new()),
            resets: 0,
            errors: Vec::new(),
        }
    }
}

impl RetryManager for Scripted {
    fn reset(&mut self) {
        self.resets += 1;
    }

    fn record_error(&mut self, now: Timestamp) {
        self.errors.push(now);
    }

    fn attempt(&self, now: Timestamp) -> RetryLevel {
        self.asked.borrow_mut().push(now);
        self.answers.borrow_mut().pop_front().unwrap_or(RetryLevel::Ready)
    }
}

/// A stream that does what it is told to.
struct Wire {
    writes: VecDeque<Result<(), ErrorKind>>,
    dials: VecDeque<Result<(), ErrorKind>>,
    clock: Timestamp,
    written: Vec<Vec<u8>>,
    dialed: usize,
    clock_reads: usize,
}

impl Wire {
    fn new(writes: &[Result<(), ErrorKind>], dials: &[Result<(), ErrorKind>]) -> Wire {
        Wire {
            writes: writes.iter().cloned().collect(),
            dials: dials.iter().cloned().collect(),
            clock: ms(0),
            written: Vec::new(),
            dialed: 0,
            clock_reads: 0,
        }
    }

    /// Performs actions until the sender is done.
    fn drive<R: RetryManager, H: ErrorHandler>(
        &mut self,
        sender: &mut StreamSender<R, H>,
        first: Action,
    ) -> Result<(), SenderError> {
        let mut action = first;
        loop {
            let event = match action {
                Action::Done(result) => return result,
                Action::Write => match self.writes.pop_front().unwrap_or(Ok(())) {
                    Ok(()) => {
                        self.written.push(sender.buffer().to_vec());
                        Event::Written
                    }
                    Err(kind) => Event::WriteFailed(Error::new(kind, "write")),
                },
                Action::Connect => {
                    self.dialed += 1;
                    match self.dials.pop_front().unwrap_or(Ok(())) {
                        Ok(()) => Event::Connected,
                        Err(kind) => Event::ConnectFailed(Error::new(kind, "dial")),
                    }
                }
                Action::ReadClock => {
                    self.clock_reads += 1;
                    Event::Clock(self.clock)
                }
            };
            action = sender.resume(event);
        }
    }

    fn emit<R: RetryManager, H: ErrorHandler>(
        &mut self,
        sender: &mut StreamSender<R, H>,
        now: Timestamp,
        data: &[u8],
    ) -> Result<(), SenderError> {
        let first = sender.start_emit(now, data);
        self.drive(sender, first)
    }

    fn flush<R: RetryManager, H: ErrorHandler>(
        &mut self,
        sender: &mut StreamSender<R, H>,
    ) -> Result<(), SenderError> {
        let first = sender.start_flush();
        self.drive(sender, first)
    }
}

fn io_kind(result: &Result<(), SenderError>) -> Option<ErrorKind> {
    match result {
        Err(SenderError::IO(error)) => Some(error.kind()),
        _ => None,
    }
}

#[test]
fn a_new_sender_is_empty_and_idle() {
    let sender = StreamSender::new(ConstantDelay::default(), NullHandler);
    assert_eq!(sender.capacity(), 8 * 1024 * 1024);
    assert_eq!(DEFAULT_CAPACITY, 8 * 1024 * 1024);
    assert_eq!(sender.buffer().len(), 0);
    assert!(!sender.is_busy());
    let sender = StreamSender::with_capacity(16, ConstantDelay::default(), NullHandler);
    assert_eq!(sender.capacity(), 16);
}

#[test]
fn a_huge_capacity_is_not_set_aside_at_once() {
    let mut sender = StreamSender::with_capacity(usize::MAX, ConstantDelay::default(), NullHandler);
    assert_eq!(sender.capacity(), usize::MAX);
    let mut wire = Wire::new(&[], &[]);
    assert!(wire.emit(&mut sender, ms(0), b"frame").is_ok());
    assert_eq!(wire.written, vec![b"frame".to_vec()]);
}

#[test]
fn emit_on_a_healthy_stream_writes_the_frame_and_empties_the_buffer() {
    let mut sender = StreamSender::with_capacity(64, ConstantDelay::default(), Recorder::new());
    let mut wire = Wire::new(&[], &[]);
    let action = sender.start_emit(ms(5), b"frame one");
    assert!(matches!(action, Action::Write));
    assert!(sender.is_busy());
    assert_eq!(sender.buffer(), b"frame one");
    let result = wire.drive(&mut sender, action);
    assert!(result.is_ok());
    assert_eq!(wire.written, vec![b"frame one".to_vec()]);
    assert_eq!(sender.buffer().len(), 0);
    assert!(!sender.is_busy());
    assert_eq!(wire.dialed, 0);
    assert_eq!(wire.clock_reads, 0);
    assert!(sender.error_handler().heard.is_empty());
    assert_eq!(sender.retry_manager().error_count(), 0);
}

#[test]
fn wait_gate_buffers_without_writing() {
    let policy = Scripted::new(&[RetryLevel::Wait, RetryLevel::Wait]);
    let mut sender = StreamSender::with_capacity(16, policy, Recorder::new());
    let action = sender.start_emit(ms(1), b"0123456789");
    assert!(matches!(action, Action::Done(Ok(()))));
    assert!(!sender.is_busy());
    assert_eq!(sender.buffer(), b"0123456789");
    let action = sender.start_emit(ms(2), b"abcdef");
    assert!(matches!(action, Action::Done(Ok(()))));
    assert_eq!(sender.buffer(), b"0123456789abcdef");
    assert!(sender.error_handler().heard.is_empty());
    assert_eq!(sender.retry_manager().resets, 0);
    assert!(sender.retry_manager().errors.is_empty());
    assert_eq!(*sender.retry_manager().asked.borrow(), vec![ms(1), ms(2)]);
}

#[test]
fn wait_gate_with_the_default_policy() {
    let mut sender = StreamSender::with_capacity(64, ConstantDelay::default(), Recorder::new());
    let mut wire = Wire::new(&[Err(ErrorKind::BrokenPipe)], &[Err(ErrorKind::ConnectionRefused)]);
    wire.clock = ms(100);
    assert!(wire.emit(&mut sender, ms(100), b"one").is_err());
    assert_eq!(sender.retry_manager().error_count(), 1);
    // 10 ms after the failure: wait.
    let action = sender.start_emit(ms(110), b"two");
    assert!(matches!(action, Action::Done(Ok(()))));
    assert_eq!(sender.buffer(), b"onetwo");
    assert_eq!(sender.error_handler().heard.len(), 1);
    assert!(wire.written.is_empty());
    // 50 ms after the failure: ready, and both frames go out in order.
    assert!(wire.emit(&mut sender, ms(150), b"three").is_ok());
    assert_eq!(wire.written, vec![b"onetwothree".to_vec()]);
    assert_eq!(sender.buffer().len(), 0);
    assert_eq!(sender.retry_manager().error_count(), 0);
}

#[test]
fn reconnect_once_success() {
    let mut sender = StreamSender::with_capacity(64, ConstantDelay::default(), Recorder::new());
    let mut wire = Wire::new(&[Err(ErrorKind::BrokenPipe), Ok(())], &[Ok(())]);
    let action = sender.start_emit(ms(0), b"frame");
    assert!(matches!(action, Action::Write));
    let action = sender.resume(Event::WriteFailed(Error::new(ErrorKind::BrokenPipe, "gone")));
    assert!(matches!(action, Action::Connect));
    assert_eq!(sender.buffer(), b"frame");
    let action = sender.resume(Event::Connected);
    assert!(matches!(action, Action::Write));
    assert_eq!(sender.buffer(), b"frame");
    let action = sender.resume(Event::Written);
    assert!(matches!(action, Action::Done(Ok(()))));
    assert_eq!(sender.buffer().len(), 0);
    assert_eq!(sender.retry_manager().error_count(), 0);
    assert!(sender.error_handler().heard.is_empty());

    // The same through the driver.
    let result = wire.emit(&mut sender, ms(1), b"again");
    assert!(result.is_ok());
    assert_eq!(wire.dialed, 1);
    assert_eq!(wire.clock_reads, 0);
    assert_eq!(wire.written, vec![b"again".to_vec()]);
    assert_eq!(sender.retry_manager().error_count(), 0);
}

#[test]
fn reconnect_once_success_clears_an_older_failure() {
    let mut sender = StreamSender::with_capacity(64, ConstantDelay::default(), Recorder::new());
    let mut wire = Wire::new(
        &[Err(ErrorKind::BrokenPipe), Err(ErrorKind::BrokenPipe), Ok(())],
        &[Err(ErrorKind::ConnectionRefused), Ok(())],
    );
    assert!(wire.emit(&mut sender, ms(0), b"a").is_err());
    assert_eq!(sender.retry_manager().error_count(), 1);
    assert!(wire.emit(&mut sender, ms(60), b"b").is_ok());
    assert_eq!(sender.retry_manager().error_count(), 0);
    assert_eq!(wire.written, vec![b"ab".to_vec()]);
    assert_eq!(wire.dialed, 2);
}

#[test]
fn reconnect_once_failure_when_dialing_fails() {
    let mut sender = StreamSender::with_capacity(64, ConstantDelay::default(), Recorder::new());
    let mut wire = Wire::new(&[Err(ErrorKind::BrokenPipe)], &[Err(ErrorKind::ConnectionRefused)]);
    wire.clock = ms(7);
    let result = wire.emit(&mut sender, ms(3), b"frame");
    assert_eq!(io_kind(&result), Some(ErrorKind::ConnectionRefused));
    assert_eq!(wire.dialed, 1);
    assert_eq!(wire.clock_reads, 1);
    assert!(wire.written.is_empty());
    assert_eq!(sender.retry_manager().error_count(), 1);
    assert_eq!(sender.buffer(), b"frame");
    assert!(!sender.is_busy());
    assert_eq!(sender.error_handler().heard, vec![(ms(7), "io", b"frame".to_vec())]);
    // The failure was recorded at the clock's reading, 7 ms, not at the
    // reading that emit was given.
    assert_eq!(sender.retry_manager().attempt(ms(56)), RetryLevel::Wait);
    assert_eq!(sender.retry_manager().attempt(ms(57)), RetryLevel::Ready);
}

#[test]
fn reconnect_once_failure_when_the_second_write_fails() {
    let mut sender = StreamSender::with_capacity(64, ConstantDelay::default(), Recorder::new());
    let mut wire = Wire::new(
        &[Err(ErrorKind::BrokenPipe), Err(ErrorKind::ConnectionReset), Ok(())],
        &[Ok(()), Ok(())],
    );
    wire.clock = ms(9);
    let result = wire.emit(&mut sender, ms(3), b"frame");
    // The error of the last thing tried, and no second dial.
    assert_eq!(io_kind(&result), Some(ErrorKind::ConnectionReset));
    assert_eq!(wire.dialed, 1);
    assert_eq!(wire.writes.len(), 1);
    assert_eq!(sender.buffer(), b"frame");
    assert_eq!(sender.retry_manager().error_count(), 1);
    assert_eq!(sender.error_handler().heard, vec![(ms(9), "io", b"frame".to_vec())]);
}

#[test]
fn a_failed_flush_keeps_the_bytes_for_the_next() {
    let mut sender = StreamSender::with_capacity(64, ConstantDelay::default(), Recorder::new());
    let mut wire = Wire::new(&[Err(ErrorKind::BrokenPipe)], &[Err(ErrorKind::ConnectionRefused)]);
    assert!(wire.emit(&mut sender, ms(0), b"first,").is_err());
    assert_eq!(sender.buffer(), b"first,");
    assert!(wire.emit(&mut sender, ms(1000), b"second").is_ok());
    assert_eq!(wire.written, vec![b"first,second".to_vec()]);
    assert_eq!(sender.buffer().len(), 0);
}

#[test]
fn buffer_overflow_while_the_stream_is_down() {
    // Capacity 16. A first frame of 10 bytes is buffered while the policy
    // says wait. A second of 10 bytes comes when the policy is ready and the
    // stream is down: the flush that should make room fails, and emit
    // returns its error. The frame comes again while the policy says wait:
    // it does not fit and is refused.
    let policy = Scripted::new(&[RetryLevel::Wait, RetryLevel::Ready, RetryLevel::Wait]);
    let mut sender = StreamSender::with_capacity(16, policy, Recorder::new());
    let mut wire = Wire::new(
        &[Err(ErrorKind::BrokenPipe), Err(ErrorKind::BrokenPipe)],
        &[Err(ErrorKind::ConnectionRefused), Err(ErrorKind::ConnectionRefused)],
    );
    wire.clock = ms(21);
    assert!(wire.emit(&mut sender, ms(10), b"0123456789").is_ok());
    assert_eq!(sender.buffer(), b"0123456789");

    let result = wire.emit(&mut sender, ms(20), b"abcdefghij");
    assert_eq!(io_kind(&result), Some(ErrorKind::ConnectionRefused));
    assert_eq!(sender.buffer(), b"0123456789");
    assert_eq!(sender.retry_manager().errors, vec![ms(21)]);

    let result = wire.emit(&mut sender, ms(30), b"abcdefghij");
    assert!(matches!(result, Err(SenderError::TooLargeData)));
    assert_eq!(sender.buffer(), b"0123456789");
    assert!(wire.written.is_empty());
    assert_eq!(
        sender.error_handler().heard,
        vec![
            (ms(21), "io", b"0123456789".to_vec()),
            (ms(30), "too large", b"0123456789".to_vec()),
        ]
    );
    assert_eq!(sender.retry_manager().resets, 0);
}

#[test]
fn buffer_overflow_with_the_default_policy() {
    let mut sender = StreamSender::with_capacity(16, ConstantDelay::default(), Recorder::new());
    let mut wire = Wire::new(
        &[Err(ErrorKind::BrokenPipe), Err(ErrorKind::BrokenPipe)],
        &[Err(ErrorKind::ConnectionRefused), Err(ErrorKind::ConnectionRefused)],
    );
    wire.clock = ms(0);
    let result = wire.emit(&mut sender, ms(0), b"0123456789");
    assert_eq!(io_kind(&result), Some(ErrorKind::ConnectionRefused));
    assert_eq!(sender.buffer(), b"0123456789");
    // Within the pause: no flush, and no room.
    let result = wire.emit(&mut sender, ms(10), b"abcdefghij");
    assert!(matches!(result, Err(SenderError::TooLargeData)));
    assert_eq!(sender.buffer(), b"0123456789");
    assert_eq!(
        sender.error_handler().heard,
        vec![(ms(0), "io", b"0123456789".to_vec()), (ms(10), "too large", b"0123456789".to_vec())]
    );
    // After the pause: the flush is tried and fails again.
    wire.clock = ms(61);
    let result = wire.emit(&mut sender, ms(60), b"abcdefghij");
    assert_eq!(io_kind(&result), Some(ErrorKind::ConnectionRefused));
    assert_eq!(sender.buffer(), b"0123456789");
    assert_eq!(sender.retry_manager().error_count(), 2);
    assert_eq!(sender.error_handler().heard.len(), 3);
}

#[test]
fn a_flush_makes_room_and_frames_leave_in_order() {
    let policy = Scripted::new(&[RetryLevel::Wait, RetryLevel::Ready, RetryLevel::Ready]);
    let mut sender = StreamSender::with_capacity(16, policy, Recorder::new());
    let mut wire = Wire::new(&[], &[]);
    assert!(wire.emit(&mut sender, ms(1), b"0123456789").is_ok());
    assert!(wire.written.is_empty());
    let action = sender.start_emit(ms(2), b"abcdefghij");
    assert!(matches!(action, Action::Write));
    // What is to be written first is what was buffered; the new frame waits.
    assert_eq!(sender.buffer(), b"0123456789");
    let action = sender.resume(Event::Written);
    assert!(matches!(action, Action::Write));
    assert_eq!(sender.buffer(), b"abcdefghij");
    let action = sender.resume(Event::Written);
    assert!(matches!(action, Action::Done(Ok(()))));
    assert_eq!(sender.buffer().len(), 0);
    assert_eq!(sender.retry_manager().resets, 2);
    // Asked once as emit began, once more for the frame after the reset,
    // both times at emit's own clock reading.
    assert_eq!(*sender.retry_manager().asked.borrow(), vec![ms(1), ms(2), ms(2)]);
    assert!(sender.error_handler().heard.is_empty());
}

#[test]
fn after_the_flush_that_made_room_the_policy_may_say_wait() {
    let policy = Scripted::new(&[RetryLevel::Wait, RetryLevel::Ready, RetryLevel::Wait]);
    let mut sender = StreamSender::with_capacity(16, policy, Recorder::new());
    let mut wire = Wire::new(&[], &[]);
    assert!(wire.emit(&mut sender, ms(1), b"0123456789").is_ok());
    assert!(wire.emit(&mut sender, ms(2), b"abcdefghij").is_ok());
    assert_eq!(wire.written, vec![b"0123456789".to_vec()]);
    assert_eq!(sender.buffer(), b"abcdefghij");
}

#[test]
fn after_the_flush_that_made_room_a_policy_that_gave_up_only_stops_the_flush() {
    let policy =
        Scripted::new(&[RetryLevel::Wait, RetryLevel::Ready, RetryLevel::AttemptsExceeded]);
    let mut sender = StreamSender::with_capacity(16, policy, Recorder::new());
    let mut wire = Wire::new(&[], &[]);
    assert!(wire.emit(&mut sender, ms(1), b"0123456789").is_ok());
    assert!(wire.emit(&mut sender, ms(2), b"abcdefghij").is_ok());
    assert_eq!(sender.buffer(), b"abcdefghij");
    assert!(sender.error_handler().heard.is_empty());
}

#[test]
fn a_frame_larger_than_the_whole_buffer_is_refused_after_the_flush() {
    let policy = Scripted::new(&[RetryLevel::Wait, RetryLevel::Ready]);
    let mut sender = StreamSender::with_capacity(16, policy, Recorder::new());
    let mut wire = Wire::new(&[], &[]);
    assert!(wire.emit(&mut sender, ms(1), b"0123456789").is_ok());
    let result = wire.emit(&mut sender, ms(2), b"a frame of 26 bytes in all");
    assert!(matches!(result, Err(SenderError::TooLargeData)));
    // The flush went through before the frame was looked at again.
    assert_eq!(wire.written, vec![b"0123456789".to_vec()]);
    assert_eq!(sender.buffer().len(), 0);
    assert_eq!(sender.error_handler().heard, vec![(ms(2), "too large", Vec::new())]);
    assert_eq!(sender.retry_manager().resets, 1);
    assert_eq!(sender.retry_manager().asked.borrow().len(), 2);
}

#[test]
fn a_frame_larger_than_an_empty_buffer_is_refused() {
    let policy = Scripted::new(&[RetryLevel::Ready, RetryLevel::Wait]);
    let mut sender = StreamSender::with_capacity(4, policy, Recorder::new());
    let action = sender.start_emit(ms(1), b"12345");
    assert!(matches!(action, Action::Done(Err(SenderError::TooLargeData))));
    // Ready and nothing buffered: the flush had nothing to write and reset
    // the policy.
    assert_eq!(sender.retry_manager().resets, 1);
    let action = sender.start_emit(ms(2), b"12345");
    assert!(matches!(action, Action::Done(Err(SenderError::TooLargeData))));
    assert_eq!(sender.retry_manager().resets, 1);
    assert_eq!(
        sender.error_handler().heard,
        vec![(ms(1), "too large", Vec::new()), (ms(2), "too large", Vec::new())]
    );
    assert_eq!(sender.buffer().len(), 0);
}

#[test]
fn a_frame_that_fills_the_buffer_exactly_is_taken() {
    let policy = Scripted::new(&[RetryLevel::Wait, RetryLevel::Wait, RetryLevel::Wait]);
    let mut sender = StreamSender::with_capacity(4, policy, Recorder::new());
    assert!(matches!(sender.start_emit(ms(1), b"12"), Action::Done(Ok(()))));
    assert!(matches!(sender.start_emit(ms(1), b"34"), Action::Done(Ok(()))));
    assert_eq!(sender.buffer(), b"1234");
    assert!(matches!(sender.start_emit(ms(1), b"5"), Action::Done(Err(SenderError::TooLargeData))));
    assert_eq!(sender.buffer(), b"1234");
}

#[test]
fn a_policy_that_has_given_up_refuses_every_frame() {
    let policy = Scripted::new(&[RetryLevel::Wait, RetryLevel::AttemptsExceeded]);
    let mut sender = StreamSender::with_capacity(16, policy, Recorder::new());
    assert!(matches!(sender.start_emit(ms(1), b"kept"), Action::Done(Ok(()))));
    let action = sender.start_emit(ms(2), b"x");
    assert!(matches!(action, Action::Done(Err(SenderError::RetryAttemptsExceeded))));
    assert_eq!(sender.buffer(), b"kept");
    assert_eq!(sender.error_handler().heard, vec![(ms(2), "exceeded", b"kept".to_vec())]);
    assert_eq!(sender.retry_manager().resets, 0);
    assert!(sender.retry_manager().errors.is_empty());
}

#[test]
fn flush_writes_whatever_the_policy_says() {
    let policy = Scripted::new(&[RetryLevel::Wait]);
    let mut sender = StreamSender::with_capacity(16, policy, Recorder::new());
    let mut wire = Wire::new(&[], &[]);
    assert!(wire.emit(&mut sender, ms(1), b"kept").is_ok());
    assert!(wire.flush(&mut sender).is_ok());
    assert_eq!(wire.written, vec![b"kept".to_vec()]);
    assert_eq!(sender.buffer().len(), 0);
    assert_eq!(sender.retry_manager().resets, 1);
    // The policy was asked by emit only.
    assert_eq!(sender.retry_manager().asked.borrow().len(), 1);
}

#[test]
fn flush_of_an_empty_buffer_resets_the_policy_and_touches_nothing() {
    let mut sender = StreamSender::with_capacity(16, Scripted::new(&[]), Recorder::new());
    let action = sender.start_flush();
    assert!(matches!(action, Action::Done(Ok(()))));
    assert_eq!(sender.retry_manager().resets, 1);
    assert!(!sender.is_busy());
}

#[test]
fn flush_that_fails_reports_and_keeps_the_bytes() {
    let policy = Scripted::new(&[RetryLevel::Wait]);
    let mut sender = StreamSender::with_capacity(16, policy, Recorder::new());
    let mut wire = Wire::new(&[Err(ErrorKind::TimedOut)], &[Err(ErrorKind::NotFound)]);
    wire.clock = ms(77);
    assert!(wire.emit(&mut sender, ms(1), b"kept").is_ok());
    let result = wire.flush(&mut sender);
    assert_eq!(io_kind(&result), Some(ErrorKind::NotFound));
    assert_eq!(sender.buffer(), b"kept");
    assert_eq!(sender.retry_manager().errors, vec![ms(77)]);
    assert_eq!(sender.error_handler().heard, vec![(ms(77), "io", b"kept".to_vec())]);
}

#[test]
fn an_empty_frame_on_an_empty_buffer_only_resets() {
    let mut sender = StreamSender::with_capacity(16, Scripted::new(&[]), Recorder::new());
    let action = sender.start_emit(ms(1), b"");
    assert!(matches!(action, Action::Done(Ok(()))));
    assert_eq!(sender.retry_manager().resets, 1);
    assert_eq!(sender.buffer().len(), 0);
}

#[test]
fn an_event_that_was_not_asked_for_changes_nothing() {
    let mut sender = StreamSender::with_capacity(16, Scripted::new(&[]), Recorder::new());
    assert!(matches!(sender.resume(Event::Written), Action::Done(Ok(()))));
    assert!(matches!(sender.resume(Event::Clock(ms(1))), Action::Done(Ok(()))));
    let action = sender.start_emit(ms(1), b"frame");
    assert!(matches!(action, Action::Write));
    assert!(matches!(sender.resume(Event::Connected), Action::Write));
    assert!(matches!(sender.resume(Event::Clock(ms(2))), Action::Write));
    let refused = Event::ConnectFailed(Error::new(ErrorKind::Other, "stray"));
    assert!(matches!(sender.resume(refused), Action::Write));
    assert_eq!(sender.buffer(), b"frame");
    let failed = Event::WriteFailed(Error::new(ErrorKind::Other, "down"));
    assert!(matches!(sender.resume(failed), Action::Connect));
    assert!(matches!(sender.resume(Event::Written), Action::Connect));
    let refused = Event::ConnectFailed(Error::new(ErrorKind::Other, "down"));
    assert!(matches!(sender.resume(refused), Action::ReadClock));
    assert!(matches!(sender.resume(Event::Written), Action::ReadClock));
    assert!(matches!(sender.resume(Event::Connected), Action::ReadClock));
    assert!(sender.error_handler().heard.is_empty());
    assert!(matches!(sender.resume(Event::Clock(ms(3))), Action::Done(Err(SenderError::IO(_)))));
    assert_eq!(sender.error_handler().heard.len(), 1);
    assert_eq!(sender.retry_manager().errors, vec![ms(3)]);
}

#[test]
fn starting_anew_abandons_what_was_under_way() {
    let policy = Scripted::new(&[RetryLevel::Wait, RetryLevel::Ready, RetryLevel::Wait]);
    let mut sender = StreamSender::with_capacity(16, policy, Recorder::new());
    assert!(matches!(sender.start_emit(ms(1), b"0123456789"), Action::Done(Ok(()))));
    assert!(matches!(sender.start_emit(ms(2), b"abcdefghij"), Action::Write));
    assert!(sender.is_busy());
    // The frame that waited for room is dropped with the flush.
    assert!(matches!(sender.start_emit(ms(3), b"xyz"), Action::Done(Ok(()))));
    assert!(!sender.is_busy());
    assert_eq!(sender.buffer(), b"0123456789xyz");
    assert!(matches!(sender.resume(Event::Written), Action::Done(Ok(()))));
    assert_eq!(sender.buffer(), b"0123456789xyz");
}

#[test]
fn the_buffer_never_exceeds_its_capacity() {
    let mut sender = StreamSender::with_capacity(32, ConstantDelay::default(), Recorder::new());
    let mut wire = Wire::new(&[], &[]);
    let mut seed: u64 = 0x2545_f491_4f6c_dd1d;
    let mut now: u64 = 0;
    for _ in 0..2000 {
        seed ^= seed << 13;
        seed ^= seed >> 7;
        seed ^= seed << 17;
        let len = (seed % 41) as usize;
        let frame = vec![(seed >> 8) as u8; len];
        now += (seed >> 16) % 30;
        if seed % 3 == 0 {
            wire.writes.push_back(Err(ErrorKind::BrokenPipe));
            if seed % 2 == 0 {
                wire.dials.push_back(Err(ErrorKind::ConnectionRefused));
            }
        }
        wire.clock = ms(now);
        if seed % 11 == 0 {
            let _ = wire.flush(&mut sender);
        } else {
            let _ = wire.emit(&mut sender, ms(now), &frame);
        }
        assert!(sender.buffer().len() <= sender.capacity());
        assert_eq!(sender.capacity(), 32);
        assert!(!sender.is_busy());
        wire.writes.clear();
        wire.dials.clear();
    }
}

#[test]
fn the_handler_hears_once_of_every_error_that_is_returned() {
    let mut sender = StreamSender::with_capacity(32, ConstantDelay::default(), Recorder::new());
    let mut wire = Wire::new(&[], &[]);
    let mut seed: u64 = 0x9e37_79b9_7f4a_7c15;
    let mut now: u64 = 0;
    let mut failures = 0;
    for _ in 0..2000 {
        seed ^= seed << 13;
        seed ^= seed >> 7;
        seed ^= seed << 17;
        let len = (seed % 41) as usize;
        let frame = vec![(seed >> 8) as u8; len];
        now += (seed >> 16) % 30;
        if seed % 3 != 0 {
            wire.writes.push_back(Err(ErrorKind::BrokenPipe));
            wire.dials.push_back(Err(ErrorKind::ConnectionRefused));
        }
        wire.clock = ms(now + 1);
        let before = sender.error_handler().heard.len();
        let result = if seed % 11 == 0 {
            wire.flush(&mut sender)
        } else {
            wire.emit(&mut sender, ms(now), &frame)
        };
        let heard = &sender.error_handler().heard;
        match result {
            Ok(()) => assert_eq!(heard.len(), before),
            Err(error) => {
                failures += 1;
                assert_eq!(heard.len(), before + 1);
                let (at, kind, buffer) = heard.last().unwrap();
                assert_eq!(*kind, kind_of(&error));
                assert_eq!(&buffer[..], sender.buffer());
                match error {
                    SenderError::IO(_) => assert_eq!(*at, ms(now + 1)),
                    _ => assert_eq!(*at, ms(now)),
                }
            }
        }
        wire.writes.clear();
        wire.dials.clear();
    }
    assert_eq!(sender.error_handler().heard.len(), failures);
    assert!(failures > 100);
}

#[test]
fn the_decision_table() {
    assert_eq!(decide_intake(RetryLevel::AttemptsExceeded, 0, 0, 16), Intake::GiveUp);
    assert_eq!(decide_intake(RetryLevel::AttemptsExceeded, 10, 10, 16), Intake::GiveUp);
    assert_eq!(decide_intake(RetryLevel::Ready, 10, 6, 16), Intake::Send);
    assert_eq!(decide_intake(RetryLevel::Wait, 10, 6, 16), Intake::Keep);
    assert_eq!(decide_intake(RetryLevel::Ready, 10, 7, 16), Intake::FlushFirst);
    assert_eq!(decide_intake(RetryLevel::Wait, 10, 7, 16), Intake::TooLarge { after_reset: false });
    assert_eq!(decide_intake(RetryLevel::Ready, 0, 17, 16), Intake::TooLarge { after_reset: true });
    assert_eq!(decide_intake(RetryLevel::Wait, 0, 17, 16), Intake::TooLarge { after_reset: false });
    assert_eq!(decide_intake(RetryLevel::Ready, 0, 16, 16), Intake::Send);
    assert_eq!(decide_intake(RetryLevel::Ready, 0, 0, 0), Intake::Send);
    assert_eq!(decide_intake(RetryLevel::Wait, 0, 0, 0), Intake::Keep);
    assert_eq!(decide_intake(RetryLevel::Ready, 1, usize::MAX, usize::MAX), Intake::FlushFirst);
    assert_eq!(decide_intake(RetryLevel::Wait, usize::MAX, usize::MAX, usize::MAX), Intake::TooLarge { after_reset: false });
    assert_eq!(decide_intake(RetryLevel::Ready, 20, 0, 16), Intake::FlushFirst);
}
