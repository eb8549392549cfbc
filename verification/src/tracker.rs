//! The owner's side of a connection: the send queue, the close signal, the
//! error pickup and the two byte counters.

use vstd::prelude::*;
use crate::counter::{counted, ByteCounter};
use crate::error::{Error, SendFailure};
use crate::header::{encode, frame_bytes, frame_len, MsgHeader, MsgType, HEADER_LEN};
use crate::queue::SendQueue;

verus! {

/// What a tracker holds, as plain values.
pub struct TrackerView {
    /// Bytes handed to the send queue so far.
    pub sent: nat,
    /// Bytes of the frames whose header has been read so far.
    pub received: nat,
    /// The frames waiting to be written, oldest first.
    pub queue: Seq<Seq<u8>>,
    /// The most frames the queue holds.
    pub capacity: nat,
    /// True once the owner has asked for the connection to close.
    pub closing: bool,
    /// The error that waits to be picked up, if any.
    pub error: Option<Error>,
    /// True while the poll loop runs and drains the queue.
    pub connected: bool,
}

impl TrackerView {
    /// A tracker of a connection that has just been adopted.
    pub open spec fn fresh(capacity: nat) -> TrackerView {
        TrackerView {
            sent: 0,
            received: 0,
            queue: Seq::empty(),
            capacity,
            closing: false,
            error: None,
            connected: true,
        }
    }

    /// The queue is within its capacity and the counters within their range.
    pub open spec fn wf(self) -> bool {
        &&& self.queue.len() <= self.capacity
        &&& self.sent <= u64::MAX
        &&& self.received <= u64::MAX
    }

    /// Why `send` refuses a frame in this state, if it does: a queue whose
    /// consumer is gone takes nothing, a full queue takes nothing more.
    pub open spec fn refusal(self) -> Option<SendFailure> {
        if !self.connected {
            Some(SendFailure::Disconnected)
        } else if self.queue.len() >= self.capacity {
            Some(SendFailure::Full)
        } else {
            None
        }
    }

    /// The tracker after `send`, and what `send` returns. A refused frame
    /// changes nothing; an accepted one joins the end of the queue and its
    /// encoded length is counted as sent.
    pub open spec fn send(self, msg_type: MsgType, body: Seq<u8>) -> (TrackerView, Result<
        (),
        Error,
    >) {
        match self.refusal() {
            Some(why) => (self, Err(Error::SendFailed(why))),
            None => {
                let frame = frame_bytes(msg_type, body);
                (
                    TrackerView {
                        queue: self.queue.push(frame),
                        sent: counted(self.sent, frame.len()),
                        ..self
                    },
                    Ok(()),
                )
            },
        }
    }

    /// The tracker after `close`: the close signal is up.
    pub open spec fn close(self) -> TrackerView {
        TrackerView { closing: true, ..self }
    }

    /// The tracker after `poll_error`, and what `poll_error` returns: the
    /// waiting error leaves the tracker.
    pub open spec fn poll_error(self) -> (TrackerView, Option<Error>) {
        (TrackerView { error: None, ..self }, self.error)
    }

    /// The tracker after the loop has read the header `h` off the socket.
    pub open spec fn count_received(self, h: MsgHeader) -> TrackerView {
        TrackerView { received: counted(self.received, frame_len(h)), ..self }
    }

    /// The tracker after the loop has taken the oldest frame, and that frame.
    pub open spec fn dequeue(self) -> (TrackerView, Option<Seq<u8>>) {
        if self.queue.len() > 0 {
            (
                TrackerView { queue: self.queue.subrange(1, self.queue.len() as int), ..self },
                Some(self.queue[0]),
            )
        } else {
            (self, None)
        }
    }

    /// The tracker after the loop has ended on the error `e`.
    pub open spec fn fail(self, e: Error) -> TrackerView {
        TrackerView { error: Some(e), connected: false, ..self }
    }

    /// The tracker after the loop has ended on the close signal.
    pub open spec fn disconnect(self) -> TrackerView {
        TrackerView { connected: false, ..self }
    }
}

/// The handle that the owner of a connection keeps.
pub struct Tracker {
    sent_bytes: ByteCounter,
    received_bytes: ByteCounter,
    send_channel: SendQueue,
    close_channel: bool,
    error_channel: Option<Error>,
    connected: bool,
}

impl View for Tracker {
    type V = TrackerView;

    closed spec fn view(&self) -> TrackerView {
        TrackerView {
            sent: self.sent_bytes@,
            received: self.received_bytes@,
            queue: self.send_channel@,
            capacity: self.send_channel.spec_capacity(),
            closing: self.close_channel,
            error: self.error_channel,
            connected: self.connected,
        }
    }
}

impl Tracker {
    /// The tracker of a connection that has just been adopted, with room for
    /// `capacity` frames in its send queue.
    pub fn new(capacity: usize) -> (t: Tracker)
        ensures
            t@ == TrackerView::fresh(capacity as nat),
    {
        Tracker {
            sent_bytes: ByteCounter::new(),
            received_bytes: ByteCounter::new(),
            send_channel: SendQueue::new(capacity),
            close_channel: false,
            error_channel: None,
            connected: true,
        }
    }

    /// Encodes `body` as a frame of type `msg_type` and puts it on the send
    /// queue without waiting. A full queue refuses the frame, and so does the
    /// queue of a connection whose loop has ended; nothing changes then. An
    /// accepted frame counts as sent, with its encoded length.
    pub fn send(&mut self, body: &[u8], msg_type: MsgType) -> (r: Result<(), Error>)
        ensures
            (final(self)@, r) == old(self)@.send(msg_type, body@),
    {
        if !self.connected {
            return Err(Error::SendFailed(SendFailure::Disconnected));
        }
        let buf = encode(msg_type, body);
        let buf_len: usize = buf.len();
        match self.send_channel.try_send(buf) {
            Ok(_) => {
                self.sent_bytes.inc(buf_len as u64);
                Ok(())
            },
            Err(_) => Err(Error::SendFailed(SendFailure::Full)),
        }
    }

    /// Asks the poll loop to end. The loop sees the signal at the end of its
    /// current iteration. Asking again changes nothing.
    pub fn close(&mut self)
        ensures
            final(self)@ == old(self)@.close(),
    {
        self.close_channel = true;
    }

    /// Picks up the error on which the loop ended, if one waits. The error is
    /// handed out once: it leaves the tracker.
    pub fn poll_error(&mut self) -> (e: Option<Error>)
        ensures
            (final(self)@, e) == old(self)@.poll_error(),
    {
        let e = self.error_channel;
        self.error_channel = None;
        e
    }

    /// Bytes handed to the send queue so far.
    pub fn sent_bytes(&self) -> (n: u64)
        ensures
            n == self@.sent,
    {
        self.sent_bytes.total()
    }

    /// Bytes of the frames whose header has been read so far.
    pub fn received_bytes(&self) -> (n: u64)
        ensures
            n == self@.received,
    {
        self.received_bytes.total()
    }

    /// Number of frames that wait in the send queue. It never exceeds the
    /// capacity.
    pub fn queued(&self) -> (n: usize)
        ensures
            n == self@.queue.len(),
            n <= self@.capacity,
    {
        self.send_channel.len()
    }

    /// True once `close` has been called.
    pub fn is_closing(&self) -> (b: bool)
        ensures
            b == self@.closing,
    {
        self.close_channel
    }

    /// True while the poll loop runs.
    pub fn is_connected(&self) -> (b: bool)
        ensures
            b == self@.connected,
    {
        self.connected
    }

    /// Counts the frame announced by `h` as received.
    pub(crate) fn count_received(&mut self, h: MsgHeader)
        ensures
            final(self)@ == old(self)@.count_received(h),
    {
        self.received_bytes.inc_sum(HEADER_LEN as u64, h.msg_len);
    }

    /// Takes the oldest frame off the send queue.
    pub(crate) fn dequeue(&mut self) -> (frame: Option<Vec<u8>>)
        ensures
            final(self)@ == old(self)@.dequeue().0,
            frame is Some == old(self)@.dequeue().1 is Some,
            frame is Some ==> frame->Some_0@ == old(self)@.dequeue().1->Some_0,
    {
        self.send_channel.try_recv()
    }

    /// Records the error on which the loop ends.
    pub(crate) fn fail(&mut self, e: Error)
        ensures
            final(self)@ == old(self)@.fail(e),
    {
        self.error_channel = Some(e);
        self.connected = false;
    }

    /// Records that the loop has ended on the close signal.
    pub(crate) fn disconnect(&mut self)
        ensures
            final(self)@ == old(self)@.disconnect(),
    {
        self.connected = false;
    }
}

} // verus!
