//! The core of a connection to one peer, without the socket.
//!
//! A connection carries frames both ways over one stream: a fixed-width
//! header, then the body that the header announces, then sometimes the bytes
//! of an attachment. Its owner queues frames to send, asks it to close and
//! picks up the error on which it ended; its loop reads frames, hands each to
//! a handler, writes the handler's reply and drains the queue.
//!
//! Nothing here touches a socket, a file or a clock. Every operation that
//! would is a machine that says what to do next and is told what came of it.
//! Whoever drives a machine makes the calls; what is decided, and what bytes
//! travel in what order, is decided here.
//!
//! - `header`: the wire format, and the proof that decoding inverts encoding.
//! - `transfer`: reading exactly so many bytes and writing all of a buffer,
//!   with deadlines.
//! - `message`, `response`, `chunk`: an inbound frame, the reply to it, and
//!   attachments in chunks.
//! - `tracker`, `queue`, `counter`: the owner's side.
//! - `poll`: the loop.
//! - `conn`: how a connection begins, and what holds of it at all times.

pub mod chunk;
pub mod conn;
pub mod counter;
pub mod error;
pub mod header;
pub mod message;
pub mod poll;
pub mod queue;
pub mod response;
pub mod tracker;
pub mod transfer;
