//! Error kinds reported by the connection.

use vstd::prelude::*;

verus! {

/// The kind of an I/O failure on the socket or on an attachment file.
#[derive(Clone, Copy, Debug, PartialEq, Eq, Structural)]
pub enum IoKind {
    /// The operation cannot progress right now; not a failure by itself.
    WouldBlock,
    /// The call was interrupted before it moved any byte.
    Interrupted,
    /// The peer closed the stream before the expected bytes arrived.
    UnexpectedEof,
    /// A write accepted no byte although some were offered.
    WriteZero,
    /// The peer reset the connection.
    ConnectionReset,
    /// The connection was aborted.
    ConnectionAborted,
    /// The stream is no longer writable.
    BrokenPipe,
    /// Any other failure.
    Other,
}

/// Why the send queue refused a frame.
#[derive(Clone, Copy, Debug, PartialEq, Eq, Structural)]
pub enum SendFailure {
    /// The queue holds as many frames as its capacity allows.
    Full,
    /// The poll loop has ended: nothing will drain the queue any more.
    Disconnected,
}

/// Everything that can go wrong on a connection.
#[derive(Clone, Copy, Debug, PartialEq, Eq, Structural)]
pub enum Error {
    /// The underlying socket or file failed.
    Connection(IoKind),
    /// A deadline passed during a framing operation.
    Timeout,
    /// A header or a body is malformed.
    Serialization,
    /// A header announces a body longer than the configured maximum.
    TooLargeBody,
    /// The send queue did not take the frame.
    SendFailed(SendFailure),
    /// The message handler failed, with a code of its own.
    Handler(u32),
}

impl Error {
    /// True for the one error that only signals "nothing to do right now".
    pub open spec fn spec_is_would_block(self) -> bool {
        self == Error::Connection(IoKind::WouldBlock)
    }

    /// Tells the transient would-block signal apart from real failures.
    #[verifier::when_used_as_spec(spec_is_would_block)]
    pub fn is_would_block(self) -> (b: bool)
        ensures
            b == self.spec_is_would_block(),
    {
        match self {
            Error::Connection(IoKind::WouldBlock) => true,
            _ => false,
        }
    }
}

} // verus!
