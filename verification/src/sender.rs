//! What a sender is made of: the retry policy that gates its flushes, the
//! handler that hears of its failures, and the errors it returns.

pub use crate::retry::ConstantDelay;
use vstd::prelude::*;

verus! {

/// `std::io::Error`, the error of a write or of a dial. It is carried from
/// where it arose to where it is returned; nothing of it is read.
#[verifier::external_type_specification]
#[verifier::external_body]
pub struct ExIoError(std::io::Error);

/// A reading of a monotonic clock: nanoseconds since an origin that the
/// caller fixes once, for instance the start of the process.
#[derive(Clone, Copy, Debug, PartialEq, Eq, Structural)]
pub struct Timestamp {
    pub nanos: u128,
}

/// Nanoseconds in a millisecond.
pub const NANOS_PER_MILLI: u128 = 1_000_000;

impl Timestamp {
    /// The time that has passed from `earlier` to `self`, in nanoseconds;
    /// zero where `earlier` is the later of the two.
    pub open spec fn since(self, earlier: Timestamp) -> nat {
        if self.nanos >= earlier.nanos {
            (self.nanos - earlier.nanos) as nat
        } else {
            0
        }
    }

    /// The reading `nanos` nanoseconds after the origin.
    pub fn from_nanos(nanos: u128) -> (t: Timestamp)
        ensures
            t.nanos == nanos,
    {
        Timestamp { nanos }
    }

    /// The reading `millis` milliseconds after the origin.
    pub fn from_millis(millis: u64) -> (t: Timestamp)
        ensures
            t.nanos == millis * NANOS_PER_MILLI,
    {
        assert(millis * NANOS_PER_MILLI <= u128::MAX) by (nonlinear_arith)
            requires
                millis <= u64::MAX,
                NANOS_PER_MILLI == 1_000_000,
        ;
        let wide = millis as u128;
        Timestamp { nanos: wide * NANOS_PER_MILLI }
    }

    /// Nanoseconds from `earlier` to `self`, zero where `earlier` is later.
    pub fn elapsed_since(self, earlier: Timestamp) -> (d: u128)
        ensures
            d == self.since(earlier),
    {
        if self.nanos >= earlier.nanos {
            self.nanos - earlier.nanos
        } else {
            0
        }
    }
}

/// Whether a flush may be tried now.
#[derive(Clone, Copy, Debug, PartialEq, Eq, Structural)]
pub enum RetryLevel {
    /// Try it.
    Ready,
    /// Too soon after a failure: keep buffering.
    Wait,
    /// Too many failures: give up.
    AttemptsExceeded,
}

/// A retry policy: it is told of every failed and every successful flush, and
/// says from what it remembers whether the next may be tried.
///
/// The policy is the implementor's. What it promises of its three
/// operations it says in `answers`, `resets_to` and `records_to`; one that
/// does not say promises nothing, and nothing is then assumed of it.
pub trait RetryManager {
    /// Whether `attempt` may answer `level` at `now`.
    open spec fn answers(&self, now: Timestamp, level: RetryLevel) -> bool {
        true
    }

    /// Whether `reset` may leave the policy as `after`.
    open spec fn resets_to(&self, after: &Self) -> bool {
        true
    }

    /// Whether `record_error` at `now` may leave the policy as `after`.
    open spec fn records_to(&self, now: Timestamp, after: &Self) -> bool {
        true
    }

    /// Forgets every failure.
    fn reset(&mut self)
        ensures
            old(self).resets_to(final(self)),
    ;

    /// Takes note of a failure at `now`.
    fn record_error(&mut self, now: Timestamp)
        ensures
            old(self).records_to(now, final(self)),
    ;

    /// Says whether a flush may be tried at `now`.
    fn attempt(&self, now: Timestamp) -> (level: RetryLevel)
        ensures
            self.answers(now, level),
    ;
}

/// Why a sender did not take or deliver a frame.
pub enum SenderError {
    /// The stream failed on the write and on the one retry after a reconnect.
    IO(std::io::Error),
    /// The frame does not fit into what is left of the buffer.
    TooLargeData,
    /// The retry policy has given up.
    RetryAttemptsExceeded,
}

/// Hears of every failure that a sender returns, before it is returned.
///
/// What the handler does is the implementor's. What it promises it says in
/// `hears`; one that does not say promises nothing.
pub trait ErrorHandler {
    /// Whether `handle_error`, called with these, may leave the handler as
    /// `after`.
    open spec fn hears(
        &self,
        timestamp: Timestamp,
        error: SenderError,
        buffer: Seq<u8>,
        after: &Self,
    ) -> bool {
        true
    }

    /// Called with the time of the failure, the error, and the bytes that
    /// were buffered and unsent at that time.
    fn handle_error(&mut self, timestamp: Timestamp, error: &SenderError, current_buffer: &[u8])
        ensures
            old(self).hears(timestamp, *error, current_buffer@, final(self)),
    ;
}

/// The handler that does nothing.
pub struct NullHandler;

impl ErrorHandler for NullHandler {
    open spec fn hears(
        &self,
        timestamp: Timestamp,
        error: SenderError,
        buffer: Seq<u8>,
        after: &Self,
    ) -> bool {
        *after == *self
    }

    fn handle_error(
        &mut self,
        _timestamp: Timestamp,
        _error: &SenderError,
        _current_buffer: &[u8],
    ) {
    }
}

/// What takes encoded frames and delivers them.
///
/// How it does so is the implementor's. What it promises it says in `emits`
/// and `flushes`; one that does not say promises nothing.
pub trait Sender {
    /// Whether `emit` of `data` may leave the sender as `after` and answer
    /// `answer`.
    open spec fn emits(
        &self,
        data: Seq<u8>,
        after: &Self,
        answer: Result<(), SenderError>,
    ) -> bool {
        true
    }

    /// Whether `flush` may leave the sender as `after` and answer `answer`.
    open spec fn flushes(&self, after: &Self, answer: Result<(), SenderError>) -> bool {
        true
    }

    /// Takes one whole frame. It may be sent at once or kept for later.
    fn emit(&mut self, data: &[u8]) -> (answer: Result<(), SenderError>)
        ensures
            old(self).emits(data@, final(self), answer),
    ;

    /// Sends what has been kept.
    fn flush(&mut self) -> (answer: Result<(), SenderError>)
        ensures
            old(self).flushes(final(self), answer),
    ;
}

} // verus!
