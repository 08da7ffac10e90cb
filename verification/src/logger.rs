//! The loggers: they encode an event as one frame and hand the frame to a
//! sender.

use crate::frame::{json_frame, json_frame_bytes, msgpack_frame, msgpack_frame_bytes};
use crate::sender::{Sender, SenderError};
use serde::Serialize;
use vstd::prelude::*;
use vstd::string::StringSliceAdditionalSpecFns;
use vstd::utf8::encode_utf8;

verus! {

/// `serde_json::Error`, the error of the JSON serializer. It is carried to
/// the caller; nothing of it is read.
#[verifier::external_type_specification]
#[verifier::external_body]
pub struct ExJsonError(serde_json::Error);

/// `rmp_serde::encode::Error`, the error of the MessagePack serializer. It
/// is carried to the caller; nothing of it is read.
#[verifier::external_type_specification]
#[verifier::external_body]
pub struct ExMessagePackError(rmp_serde::encode::Error);

/// Why an event was not logged.
pub enum FluentError {
    /// The sender refused the frame or could not deliver it.
    Sender(SenderError),
    /// The record could not be written as JSON.
    JSONSerialize(serde_json::Error),
    /// The record could not be written as MessagePack.
    MessagePackSerialize(rmp_serde::encode::Error),
}

/// Calls `serde_json::to_string` on the record. What comes back is the
/// record's own `Serialize` at work: nothing is claimed of it.
#[verifier::external_body]
fn encode_json<T: Serialize>(data: &T) -> Result<String, serde_json::Error> {
    serde_json::to_string(data)
}

/// Calls `rmp_serde::to_vec` on the record. What comes back is the record's
/// own `Serialize` at work: nothing is claimed of it.
#[verifier::external_body]
fn encode_msgpack<T: Serialize>(data: &T) -> Result<Vec<u8>, rmp_serde::encode::Error> {
    rmp_serde::to_vec(data)
}

/// Reads `std::time::SystemTime::now`, turns the reading into a
/// `chrono::DateTime<Utc>` with chrono's `From<SystemTime>` and takes its
/// `timestamp`: the wall clock in whole seconds since the Unix epoch, below
/// zero where the clock stands before it. Nothing is claimed of the reading.
#[verifier::external_body]
fn unix_seconds_now() -> i64 {
    chrono::DateTime::<chrono::Utc>::from(std::time::SystemTime::now()).timestamp()
}

/// A sender's answer as a logger returns it.
pub open spec fn passed_on(answer: Result<(), SenderError>) -> Result<(), FluentError> {
    match answer {
        Ok(()) => Ok(()),
        Err(error) => Err(FluentError::Sender(error)),
    }
}

/// Encodes events and hands each as one whole frame to its sender.
pub struct FluentLogger<S: Sender> {
    sender: S,
    emitted: Ghost<Seq<Seq<u8>>>,
}

impl<S: Sender> FluentLogger<S> {
    /// Every frame that was handed to the sender so far, in order, whether
    /// the sender took it or not.
    pub closed spec fn emitted(&self) -> Seq<Seq<u8>> {
        self.emitted@
    }

    /// The sender as it stands.
    pub closed spec fn inner(&self) -> S {
        self.sender
    }

    /// Since `before`, the logger has left its sender alone.
    pub open spec fn sent_nothing(&self, before: &Self) -> bool {
        &&& self.emitted() == before.emitted()
        &&& self.inner() == before.inner()
    }

    /// Since `before`, the logger has handed its sender `frame`, whole and
    /// in one call of `emit`, and nothing else; `result` is the sender's
    /// answer to that.
    pub open spec fn sent_frame(
        &self,
        before: &Self,
        frame: Seq<u8>,
        result: Result<(), FluentError>,
    ) -> bool {
        &&& self.emitted() == before.emitted().push(frame)
        &&& exists|answer: Result<(), SenderError>| #[trigger]
            before.inner().emits(frame, &self.inner(), answer) && result == passed_on(answer)
    }

    /// What a logger has done since `before` when it returns `result` for
    /// an event with `tag` and `timestamp` that was to go as JSON: nothing to
    /// the sender where the serializer failed; else it has sent the JSON
    /// frame of the tag, the timestamp and some record.
    pub open spec fn logged_json_at(
        &self,
        before: &Self,
        tag: Seq<u8>,
        timestamp: i64,
        result: Result<(), FluentError>,
    ) -> bool {
        match result {
            Err(FluentError::JSONSerialize(_)) => self.sent_nothing(before),
            Err(FluentError::MessagePackSerialize(_)) => false,
            _ => exists|record: Seq<u8>| #[trigger]
                self.sent_frame(before, json_frame_bytes(tag, timestamp, record), result),
        }
    }

    /// As `logged_json_at`, at whatever time the wall clock gave.
    pub open spec fn logged_json(
        &self,
        before: &Self,
        tag: Seq<u8>,
        result: Result<(), FluentError>,
    ) -> bool {
        exists|timestamp: i64| #[trigger] self.logged_json_at(before, tag, timestamp, result)
    }

    /// What a logger has done since `before` when it returns `result` for
    /// an event with `tag` and `timestamp` that was to go as MessagePack:
    /// nothing to the sender where the serializer failed; else it has sent
    /// the MessagePack frame of the tag, the timestamp and some record.
    pub open spec fn logged_msgpack_at(
        &self,
        before: &Self,
        tag: Seq<u8>,
        timestamp: i64,
        result: Result<(), FluentError>,
    ) -> bool {
        match result {
            Err(FluentError::MessagePackSerialize(_)) => self.sent_nothing(before),
            Err(FluentError::JSONSerialize(_)) => false,
            _ => exists|record: Seq<u8>| #[trigger]
                self.sent_frame(before, msgpack_frame_bytes(tag, timestamp, record), result),
        }
    }

    /// As `logged_msgpack_at`, at whatever time the wall clock gave.
    pub open spec fn logged_msgpack(
        &self,
        before: &Self,
        tag: Seq<u8>,
        result: Result<(), FluentError>,
    ) -> bool {
        exists|timestamp: i64| #[trigger] self.logged_msgpack_at(before, tag, timestamp, result)
    }

    /// A logger over `sender` that has handed it nothing yet.
    pub fn new(sender: S) -> (logger: Self)
        ensures
            logger.emitted() == Seq::<Seq<u8>>::empty(),
            logger.inner() == sender,
    {
        FluentLogger { sender, emitted: Ghost(Seq::empty()) }
    }

    /// The sender.
    pub fn sender(&self) -> (sender: &S)
        ensures
            *sender == self.inner(),
    {
        &self.sender
    }

    /// The sender, to flush it or to hand it frames made elsewhere.
    pub fn into_sender(self) -> (sender: S)
        ensures
            sender == self.inner(),
    {
        self.sender
    }

    /// Hands `frame` to the sender and passes on what the sender says.
    fn hand_over(&mut self, frame: Vec<u8>) -> (result: Result<(), FluentError>)
        ensures
            final(self).sent_frame(old(self), frame@, result),
    {
        proof {
            self.emitted@ = self.emitted@.push(frame@);
        }
        let answer = self.sender.emit(frame.as_slice());
        let ghost heard = answer;
        let result = match answer {
            Ok(()) => Ok(()),
            Err(error) => Err(FluentError::Sender(error)),
        };
        assert(old(self).inner().emits(frame@, &self.inner(), heard) && result == passed_on(
            heard,
        ));
        result
    }

    /// Logs an event whose record has been through the JSON serializer,
    /// with `encoded` as the outcome. Where the serializer failed, its error
    /// is returned and the sender is left alone. Else the frame
    /// `["<tag>",<timestamp>,<record>]` goes to the sender, whole and in one
    /// call, and the sender's answer is returned.
    pub fn log_json_encoded(
        &mut self,
        tag: &str,
        timestamp: i64,
        encoded: Result<String, serde_json::Error>,
    ) -> (result: Result<(), FluentError>)
        ensures
            match encoded {
                Err(error) => {
                    &&& result == Err::<(), FluentError>(FluentError::JSONSerialize(error))
                    &&& final(self).sent_nothing(old(self))
                },
                Ok(json) => final(self).sent_frame(
                    old(self),
                    json_frame_bytes(tag.spec_bytes(), timestamp, encode_utf8(json@)),
                    result,
                ),
            },
    {
        match encoded {
            Err(error) => Err(FluentError::JSONSerialize(error)),
            Ok(json) => {
                let frame = json_frame(tag, timestamp, json.as_str());
                self.hand_over(frame)
            },
        }
    }

    /// Logs an event whose record has been through the MessagePack
    /// serializer, with `encoded` as the outcome. Where the serializer
    /// failed, its error is returned and the sender is left alone. Else the
    /// frame, an array of tag, timestamp and record, goes to the sender,
    /// whole and in one call, and the sender's answer is returned.
    pub fn log_msgpack_encoded(
        &mut self,
        tag: &str,
        timestamp: i64,
        encoded: Result<Vec<u8>, rmp_serde::encode::Error>,
    ) -> (result: Result<(), FluentError>)
        ensures
            match encoded {
                Err(error) => {
                    &&& result == Err::<(), FluentError>(FluentError::MessagePackSerialize(error))
                    &&& final(self).sent_nothing(old(self))
                },
                Ok(record) => final(self).sent_frame(
                    old(self),
                    msgpack_frame_bytes(tag.spec_bytes(), timestamp, record@),
                    result,
                ),
            },
    {
        match encoded {
            Err(error) => Err(FluentError::MessagePackSerialize(error)),
            Ok(record) => {
                let frame = msgpack_frame(tag, timestamp, record.as_slice());
                self.hand_over(frame)
            },
        }
    }

    /// Logs `data` under `tag` as JSON, with the wall clock's reading as the
    /// event's time.
    pub fn log_json<T: Serialize>(&mut self, tag: &str, data: &T) -> (result: Result<
        (),
        FluentError,
    >)
        ensures
            final(self).logged_json(old(self), tag.spec_bytes(), result),
    {
        let timestamp = unix_seconds_now();
        let result = self.log_json_with_timestamp(tag, timestamp, data);
        assert(self.logged_json_at(old(self), tag.spec_bytes(), timestamp, result));
        result
    }

    /// Logs `data` under `tag` as JSON, with `timestamp`, in seconds since
    /// the Unix epoch, as the event's time.
    pub fn log_json_with_timestamp<T: Serialize>(
        &mut self,
        tag: &str,
        timestamp: i64,
        data: &T,
    ) -> (result: Result<(), FluentError>)
        ensures
            final(self).logged_json_at(old(self), tag.spec_bytes(), timestamp, result),
    {
        let encoded = encode_json(data);
        let ghost outcome = encoded;
        let result = self.log_json_encoded(tag, timestamp, encoded);
        proof {
            if let Ok(json) = outcome {
                let record = encode_utf8(json@);
                assert(self.sent_frame(
                    old(self),
                    json_frame_bytes(tag.spec_bytes(), timestamp, record),
                    result,
                ));
            }
        }
        result
    }

    /// Logs `data` under `tag` as MessagePack, with the wall clock's reading
    /// as the event's time.
    pub fn log_msgpack<T: Serialize>(&mut self, tag: &str, data: &T) -> (result: Result<
        (),
        FluentError,
    >)
        ensures
            final(self).logged_msgpack(old(self), tag.spec_bytes(), result),
    {
        let timestamp = unix_seconds_now();
        let result = self.log_msgpack_with_timestamp(tag, timestamp, data);
        assert(self.logged_msgpack_at(old(self), tag.spec_bytes(), timestamp, result));
        result
    }

    /// Logs `data` under `tag` as MessagePack, with `timestamp`, in seconds
    /// since the Unix epoch, as the event's time.
    pub fn log_msgpack_with_timestamp<T: Serialize>(
        &mut self,
        tag: &str,
        timestamp: i64,
        data: &T,
    ) -> (result: Result<(), FluentError>)
        ensures
            final(self).logged_msgpack_at(old(self), tag.spec_bytes(), timestamp, result),
    {
        let encoded = encode_msgpack(data);
        let ghost outcome = encoded;
        let result = self.log_msgpack_encoded(tag, timestamp, encoded);
        proof {
            if let Ok(record) = outcome {
                assert(self.sent_frame(
                    old(self),
                    msgpack_frame_bytes(tag.spec_bytes(), timestamp, record@),
                    result,
                ));
            }
        }
        result
    }
}

/// Sends events to fluentd as JSON.
pub struct JSONLogger<S: Sender> {
    logger: FluentLogger<S>,
}

impl<S: Sender> JSONLogger<S> {
    /// The logger underneath as it stands.
    pub closed spec fn inner(&self) -> FluentLogger<S> {
        self.logger
    }

    /// A JSON logger over `underlying`.
    pub fn new(underlying: FluentLogger<S>) -> (logger: JSONLogger<S>)
        ensures
            logger.inner() == underlying,
    {
        JSONLogger { logger: underlying }
    }

    /// The logger underneath.
    pub fn into_inner(self) -> (underlying: FluentLogger<S>)
        ensures
            underlying == self.inner(),
    {
        self.logger
    }

    /// Logs `data` under `tag`, with the wall clock's reading as the event's
    /// time.
    pub fn log<T: Serialize>(&mut self, tag: &str, data: &T) -> (result: Result<(), FluentError>)
        ensures
            final(self).inner().logged_json(&old(self).inner(), tag.spec_bytes(), result),
    {
        self.logger.log_json(tag, data)
    }

    /// Logs `data` under `tag`, with `timestamp`, in seconds since the Unix
    /// epoch, as the event's time.
    pub fn log_with_timestamp<T: Serialize>(
        &mut self,
        tag: &str,
        timestamp: i64,
        data: &T,
    ) -> (result: Result<(), FluentError>)
        ensures
            final(self).inner().logged_json_at(
                &old(self).inner(),
                tag.spec_bytes(),
                timestamp,
                result,
            ),
    {
        self.logger.log_json_with_timestamp(tag, timestamp, data)
    }
}

/// Sends events to fluentd as MessagePack.
pub struct MessagePackLogger<S: Sender> {
    logger: FluentLogger<S>,
}

impl<S: Sender> MessagePackLogger<S> {
    /// The logger underneath as it stands.
    pub closed spec fn inner(&self) -> FluentLogger<S> {
        self.logger
    }

    /// A MessagePack logger over `underlying`.
    pub fn new(underlying: FluentLogger<S>) -> (logger: MessagePackLogger<S>)
        ensures
            logger.inner() == underlying,
    {
        MessagePackLogger { logger: underlying }
    }

    /// The logger underneath.
    pub fn into_inner(self) -> (underlying: FluentLogger<S>)
        ensures
            underlying == self.inner(),
    {
        self.logger
    }

    /// Logs `data` under `tag`, with the wall clock's reading as the event's
    /// time.
    pub fn log<T: Serialize>(&mut self, tag: &str, data: &T) -> (result: Result<(), FluentError>)
        ensures
            final(self).inner().logged_msgpack(&old(self).inner(), tag.spec_bytes(), result),
    {
        self.logger.log_msgpack(tag, data)
    }

    /// Logs `data` under `tag`, with `timestamp`, in seconds since the Unix
    /// epoch, as the event's time.
    pub fn log_with_timestamp<T: Serialize>(
        &mut self,
        tag: &str,
        timestamp: i64,
        data: &T,
    ) -> (result: Result<(), FluentError>)
        ensures
            final(self).inner().logged_msgpack_at(
                &old(self).inner(),
                tag.spec_bytes(),
                timestamp,
                result,
            ),
    {
        self.logger.log_msgpack_with_timestamp(tag, timestamp, data)
    }
}

} // verus!
