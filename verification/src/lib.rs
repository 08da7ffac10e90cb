//! A client that forwards structured events to fluentd.
//!
//! An event is a tag, a time and a record. A logger (`logger`) encodes it as
//! one frame (`frame`, `msgpack_util`, `byteutil`), in JSON or in
//! MessagePack, and hands the frame to a sender (`sender`). The sender over
//! a stream (`stream`) buffers frames, writes them when its retry policy
//! (`retry`) allows, reconnects once when a write fails, and tells its error
//! handler of every error it returns. It owns no stream: it says what is to
//! be done with one, and is told what came of it.
//!
//! `stream_model` is the sender as its contracts see it; `stream_laws` states
//! what holds of every step and of every run of it, `operation_laws` what
//! holds of `emit` and `flush` as a whole.

pub mod byteutil;
pub mod codec;
pub mod frame;
pub mod logger;
pub mod msgpack_util;
pub mod operation_laws;
pub mod retry;
pub mod sender;
pub mod stream;
pub mod stream_laws;
pub mod stream_model;
