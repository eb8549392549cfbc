//! The poll loop of a connection, as a machine that is told what happened on
//! the socket and answers what to do next.
//!
//! One iteration has three parts. It first tries to read a header and, if
//! one came, hands the message to the handler and writes the handler's reply.
//! It then writes one frame of the send queue, starting with what an earlier
//! iteration had to hold back. It last looks at the close signal. Whoever
//! drives the loop performs the reads, the writes and the pause, and reports
//! each outcome with `PollLoop::step`.

use vstd::prelude::*;
use vstd::slice::slice_to_vec;
use crate::error::Error;
use crate::header::{MsgHeader, HEADER_LEN};
use crate::message::{read_header, Message, MessageView};
use crate::tracker::{Tracker, TrackerView};
use crate::transfer::{ReadExact, ReadView, WriteAll, WriteView};

verus! {

/// Length of the pause between two iterations, in milliseconds.
pub const POLL_SLEEP_MS: u64 = 1;

/// Where the loop stands, which is also what its driver has to do next.
#[derive(Clone, Copy, Debug, PartialEq, Eq)]
pub enum Phase {
    /// Try to read a header, without waiting for a first byte.
    Read,
    /// Hand the message with this header to the handler.
    Consume(MsgHeader),
    /// Write the reply that the handler returned.
    Reply,
    /// Write the outbound frame, without waiting for the socket to take its
    /// first byte.
    Write,
    /// Pause before the next iteration.
    Sleep,
    /// The loop has ended on the close signal.
    Closed,
    /// The loop has ended on this error.
    Failed(Error),
}

/// What the driver of the loop reports.
#[derive(Clone, Copy, Debug, PartialEq, Eq)]
pub enum Event {
    /// How the attempt to read a header ended.
    Header(Result<MsgHeader, Error>),
    /// What the handler returned: whether it has a reply, or its error.
    Consumed(Result<bool, Error>),
    /// How writing the reply ended.
    Replied(Result<(), Error>),
    /// How writing the outbound frame ended.
    Wrote(Result<(), Error>),
    /// The pause is over.
    Slept,
}

/// What the loop holds, as plain values.
pub struct PollView {
    /// Where the loop stands.
    pub phase: Phase,
    /// The frame that the loop has taken off the queue and not written yet,
    /// if it holds one.
    pub retry: Option<Seq<u8>>,
}

/// A connection as a whole: what its owner holds and what its loop holds.
pub struct ConnView {
    pub tracker: TrackerView,
    pub poll: PollView,
}

impl Phase {
    /// True once the loop has ended.
    pub open spec fn is_terminal(self) -> bool {
        self is Closed || self is Failed
    }

    /// True when `event` reports what the loop waits for in this phase.
    pub open spec fn awaits(self, event: Event) -> bool {
        match (self, event) {
            (Phase::Read, Event::Header(_)) => true,
            (Phase::Consume(_), Event::Consumed(_)) => true,
            (Phase::Reply, Event::Replied(_)) => true,
            (Phase::Write, Event::Wrote(_)) => true,
            (Phase::Sleep, Event::Slept) => true,
            _ => false,
        }
    }
}

impl ConnView {
    /// A connection that has just been adopted: nothing sent, nothing queued,
    /// the loop about to read.
    pub open spec fn fresh(capacity: nat) -> ConnView {
        ConnView {
            tracker: TrackerView::fresh(capacity),
            poll: PollView { phase: Phase::Read, retry: None },
        }
    }

    /// The frames that are owed to the peer: the one that the loop holds
    /// back, then those of the queue, oldest first.
    pub open spec fn owed(self) -> Seq<Seq<u8>> {
        match self.poll.retry {
            Some(frame) => seq![frame] + self.tracker.queue,
            None => self.tracker.queue,
        }
    }

    /// The loop moves on to `phase`.
    pub open spec fn at(self, phase: Phase) -> ConnView {
        ConnView { poll: PollView { phase, ..self.poll }, ..self }
    }

    /// The loop ends on `e`: the error waits for the owner and the queue
    /// loses its consumer.
    pub open spec fn fatal(self, e: Error) -> ConnView {
        ConnView { tracker: self.tracker.fail(e), poll: PollView { phase: Phase::Failed(e), ..self.poll } }
    }

    /// The last part of an iteration: the loop ends if the close signal is
    /// up, and pauses otherwise.
    pub open spec fn enter_close(self) -> ConnView {
        if self.tracker.closing {
            ConnView {
                tracker: self.tracker.disconnect(),
                poll: PollView { phase: Phase::Closed, ..self.poll },
            }
        } else {
            self.at(Phase::Sleep)
        }
    }

    /// The middle part of an iteration: the loop writes what it holds back;
    /// holding nothing, it takes the oldest frame of the queue; with nothing
    /// to write it goes on to the close signal.
    pub open spec fn enter_write(self) -> ConnView {
        if self.poll.retry is Some {
            self.at(Phase::Write)
        } else {
            match self.tracker.dequeue() {
                (tracker, Some(frame)) => ConnView {
                    tracker,
                    poll: PollView { phase: Phase::Write, retry: Some(frame) },
                },
                (_, None) => self.enter_close(),
            }
        }
    }

    /// An error from the first part of an iteration: the would-block signal
    /// only means that there is nothing to read, anything else ends the loop.
    pub open spec fn recover_or_fail(self, e: Error) -> ConnView {
        if e.spec_is_would_block() {
            self.enter_write()
        } else {
            self.fatal(e)
        }
    }

    /// How an attempt to write the outbound frame ended: a frame that is out
    /// leaves the loop; a frame of which the socket would take nothing stays
    /// for the next iteration; any other failure ends the loop.
    pub open spec fn wrote(self, r: Result<(), Error>) -> ConnView {
        match r {
            Ok(_) => (ConnView { poll: PollView { retry: None, ..self.poll }, ..self }).enter_close(),
            Err(e) => if e.spec_is_would_block() {
                self.enter_close()
            } else {
                self.fatal(e)
            },
        }
    }

    /// The connection after the loop has been told `event`. An event that
    /// the loop does not wait for changes nothing.
    pub open spec fn step(self, event: Event) -> ConnView {
        match (self.poll.phase, event) {
            (Phase::Read, Event::Header(Ok(h))) => ConnView {
                tracker: self.tracker.count_received(h),
                ..self
            }.at(Phase::Consume(h)),
            (Phase::Read, Event::Header(Err(e))) => self.recover_or_fail(e),
            (Phase::Consume(_), Event::Consumed(Ok(true))) => self.at(Phase::Reply),
            (Phase::Consume(_), Event::Consumed(Ok(false))) => self.enter_write(),
            (Phase::Consume(_), Event::Consumed(Err(e))) => self.recover_or_fail(e),
            (Phase::Reply, Event::Replied(Ok(_))) => self.enter_write(),
            (Phase::Reply, Event::Replied(Err(e))) => self.recover_or_fail(e),
            (Phase::Write, Event::Wrote(r)) => self.wrote(r),
            (Phase::Sleep, Event::Slept) => self.at(Phase::Read),
            _ => self,
        }
    }

    /// The queued frame that has reached the socket when the loop is told
    /// `event`: the outbound frame, once it is reported as written.
    pub open spec fn written_by(self, event: Event) -> Seq<Seq<u8>> {
        match (self.poll.phase, event, self.poll.retry) {
            (Phase::Write, Event::Wrote(Ok(_)), Some(frame)) => seq![frame],
            _ => Seq::empty(),
        }
    }
}

/// The loop's own state: where it stands, and the outbound frame it holds.
pub struct PollLoop {
    phase: Phase,
    retry: Option<Vec<u8>>,
}

impl View for PollLoop {
    type V = PollView;

    closed spec fn view(&self) -> PollView {
        PollView {
            phase: self.phase,
            retry: match self.retry {
                Some(rest) => Some(rest@),
                None => None,
            },
        }
    }
}

impl PollView {
    /// The loop writes only what it holds.
    pub open spec fn wf(self) -> bool {
        self.phase is Write ==> self.retry is Some
    }

    /// The bytes that the loop asks to write: in the `Write` phase the frame
    /// that it holds, and none in any other.
    pub open spec fn to_write(self) -> Seq<u8> {
        match (self.phase, self.retry) {
            (Phase::Write, Some(frame)) => frame,
            _ => Seq::empty(),
        }
    }
}

impl PollLoop {
    #[verifier::type_invariant]
    spec fn inv(self) -> bool {
        self@.wf()
    }

    /// The loop of a connection that has just been adopted.
    pub fn new() -> (poll: PollLoop)
        ensures
            poll@ == (PollView { phase: Phase::Read, retry: None }),
    {
        PollLoop { phase: Phase::Read, retry: None }
    }

    /// Where the loop stands: what its driver has to do next.
    pub fn phase(&self) -> (p: Phase)
        ensures
            p == self@.phase,
            p is Write ==> self@.retry is Some,
    {
        proof {
            use_type_invariant(self);
        }
        self.phase
    }

    /// True once the loop has ended.
    pub fn is_done(&self) -> (b: bool)
        ensures
            b == self@.phase.is_terminal(),
    {
        match self.phase {
            Phase::Closed => true,
            Phase::Failed(_) => true,
            _ => false,
        }
    }

    /// The read that the `Read` phase asks for: one header, without waiting
    /// for its first byte.
    pub fn read_header(&self) -> (read: ReadExact)
        ensures
            read@ == ReadView::new(HEADER_LEN as nat, None, false),
    {
        read_header(None)
    }

    /// The message that the `Consume` phase asks to hand to the handler: the
    /// one that begins with the header that was read, its body untouched.
    pub fn message(&self) -> (msg: Option<Message>)
        ensures
            match self@.phase {
                Phase::Consume(header) => msg is Some && msg->Some_0@ == (MessageView {
                    header,
                    body_taken: false,
                }),
                _ => msg is None,
            },
    {
        match self.phase {
            Phase::Consume(header) => Some(Message::from_header(header)),
            _ => None,
        }
    }

    /// The frame that the loop holds: what it writes in the `Write` phase.
    pub fn outbound(&self) -> (bytes: Option<&[u8]>)
        ensures
            bytes is Some == self@.retry is Some,
            bytes is Some ==> bytes->Some_0@ == self@.retry->Some_0,
            self@.phase is Write ==> bytes is Some,
    {
        proof {
            use_type_invariant(self);
        }
        match &self.retry {
            Some(rest) => Some(rest.as_slice()),
            None => None,
        }
    }

    /// The write that the `Write` phase asks for: every byte of the frame
    /// that the loop holds. It reports the would-block signal if the socket
    /// takes no first byte, and has `IO_DEADLINE_MS` for the rest once it has
    /// taken one. In any other phase it is a write of no bytes.
    pub fn write_all(&self) -> (write: WriteAll)
        ensures
            write@ == WriteView::new(self@.to_write(), None),
    {
        proof {
            use_type_invariant(self);
        }
        let bytes: Vec<u8> = match (self.phase, &self.retry) {
            (Phase::Write, Some(frame)) => slice_to_vec(frame.as_slice()),
            _ => Vec::new(),
        };
        WriteAll::new(bytes, None)
    }

    fn fatal(&mut self, tracker: &mut Tracker, e: Error)
        ensures
            (ConnView { tracker: final(tracker)@, poll: final(self)@ }) == (ConnView {
                tracker: old(tracker)@,
                poll: old(self)@,
            }).fatal(e),
    {
        proof {
            use_type_invariant(&*self);
        }
        tracker.fail(e);
        self.phase = Phase::Failed(e);
    }

    fn enter_close(&mut self, tracker: &mut Tracker)
        ensures
            (ConnView { tracker: final(tracker)@, poll: final(self)@ }) == (ConnView {
                tracker: old(tracker)@,
                poll: old(self)@,
            }).enter_close(),
    {
        proof {
            use_type_invariant(&*self);
        }
        if tracker.is_closing() {
            tracker.disconnect();
            self.phase = Phase::Closed;
        } else {
            self.phase = Phase::Sleep;
        }
    }

    fn enter_write(&mut self, tracker: &mut Tracker)
        ensures
            (ConnView { tracker: final(tracker)@, poll: final(self)@ }) == (ConnView {
                tracker: old(tracker)@,
                poll: old(self)@,
            }).enter_write(),
    {
        proof {
            use_type_invariant(&*self);
        }
        if self.retry.is_some() {
            self.phase = Phase::Write;
            return ;
        }
        match tracker.dequeue() {
            Some(frame) => {
                *self = PollLoop { phase: Phase::Write, retry: Some(frame) };
            },
            None => {
                self.enter_close(tracker);
            },
        }
    }

    fn recover_or_fail(&mut self, tracker: &mut Tracker, e: Error)
        ensures
            (ConnView { tracker: final(tracker)@, poll: final(self)@ }) == (ConnView {
                tracker: old(tracker)@,
                poll: old(self)@,
            }).recover_or_fail(e),
    {
        if e.is_would_block() {
            self.enter_write(tracker);
        } else {
            self.fatal(tracker, e);
        }
    }

    fn wrote(&mut self, tracker: &mut Tracker, r: Result<(), Error>)
        ensures
            (ConnView { tracker: final(tracker)@, poll: final(self)@ }) == (ConnView {
                tracker: old(tracker)@,
                poll: old(self)@,
            }).wrote(r),
    {
        proof {
            use_type_invariant(&*self);
        }
        match r {
            Ok(_) => {
                *self = PollLoop { phase: Phase::Sleep, retry: None };
                self.enter_close(tracker);
            },
            Err(e) => {
                if e.is_would_block() {
                    self.enter_close(tracker);
                } else {
                    self.fatal(tracker, e);
                }
            },
        }
    }

    /// Tells the loop what happened and returns what to do next.
    ///
    /// A header that was read is counted as received and goes to the
    /// handler. A reply is written before anything of the send queue. The
    /// would-block signal in place of a header, from the handler or from the
    /// reply only ends the first part of the iteration; any other error ends
    /// the loop, and waits in the tracker for the owner. For the `Write`
    /// phase the loop takes a frame off the queue only when it holds none
    /// back, and it holds the frame back when the socket would take nothing
    /// of it. An event that the loop does not wait for is ignored.
    pub fn step(&mut self, tracker: &mut Tracker, event: Event) -> (next: Phase)
        ensures
            (ConnView { tracker: final(tracker)@, poll: final(self)@ }) == (ConnView {
                tracker: old(tracker)@,
                poll: old(self)@,
            }).step(event),
            next == final(self)@.phase,
    {
        proof {
            use_type_invariant(&*self);
        }
        match (self.phase, event) {
            (Phase::Read, Event::Header(Ok(h))) => {
                tracker.count_received(h);
                self.phase = Phase::Consume(h);
            },
            (Phase::Read, Event::Header(Err(e))) => {
                self.recover_or_fail(tracker, e);
            },
            (Phase::Consume(_), Event::Consumed(Ok(true))) => {
                self.phase = Phase::Reply;
            },
            (Phase::Consume(_), Event::Consumed(Ok(false))) => {
                self.enter_write(tracker);
            },
            (Phase::Consume(_), Event::Consumed(Err(e))) => {
                self.recover_or_fail(tracker, e);
            },
            (Phase::Reply, Event::Replied(Ok(_))) => {
                self.enter_write(tracker);
            },
            (Phase::Reply, Event::Replied(Err(e))) => {
                self.recover_or_fail(tracker, e);
            },
            (Phase::Write, Event::Wrote(r)) => {
                self.wrote(tracker, r);
            },
            (Phase::Sleep, Event::Slept) => {
                self.phase = Phase::Read;
            },
            _ => {},
        }
        self.phase
    }
}

} // verus!
