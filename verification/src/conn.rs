//! A connection as a whole: how it begins, and what holds of it whatever its
//! owner and its loop do, in whatever order.

use vstd::prelude::*;
use crate::counter::counted;
use crate::error::{Error, IoKind};
use crate::header::{
    frame_bytes, frame_len, lemma_frame_round_trip, parse_frame, MsgHeader, MsgType,
};
use crate::message::header_read;
use crate::poll::{ConnView, Event, Phase, PollLoop};
use crate::queue::SEND_CHANNEL_CAP;
use crate::tracker::{Tracker, TrackerView};
use crate::transfer::ReadView;

verus! {

/// Adopts a connection: returns the tracker for its owner and the loop for
/// whoever drives the socket. The send queue has room for `SEND_CHANNEL_CAP`
/// frames, nothing is counted yet, and the loop is about to read.
pub fn listen() -> (conn: (Tracker, PollLoop))
    ensures
        (ConnView { tracker: conn.0@, poll: conn.1@ }) == ConnView::fresh(SEND_CHANNEL_CAP as nat),
        (ConnView { tracker: conn.0@, poll: conn.1@ }).inv(),
{
    (Tracker::new(SEND_CHANNEL_CAP), PollLoop::new())
}

/// One thing that happens to a connection.
pub enum Op {
    /// The owner sends a body under a type.
    Send(MsgType, Seq<u8>),
    /// The owner asks for the connection to close.
    Close,
    /// The owner looks for an error.
    PollError,
    /// The loop is told an event.
    Step(Event),
}

impl ConnView {
    /// What holds of a connection at all times: the queue is within its
    /// capacity; the queue has its consumer exactly while the loop runs; an
    /// error waits only once the loop has failed; the loop writes only what
    /// it holds.
    pub open spec fn inv(self) -> bool {
        &&& self.tracker.wf()
        &&& self.tracker.connected <==> !self.poll.phase.is_terminal()
        &&& self.tracker.error is Some ==> self.poll.phase is Failed
        &&& self.poll.wf()
    }

    /// The connection after `op`.
    pub open spec fn apply(self, op: Op) -> ConnView {
        match op {
            Op::Send(msg_type, body) => ConnView {
                tracker: self.tracker.send(msg_type, body).0,
                ..self
            },
            Op::Close => ConnView { tracker: self.tracker.close(), ..self },
            Op::PollError => ConnView { tracker: self.tracker.poll_error().0, ..self },
            Op::Step(event) => self.step(event),
        }
    }

    /// The frame that `op` adds to what is owed to the peer: that of a `send`
    /// that succeeds.
    pub open spec fn accepted_by(self, op: Op) -> Seq<Seq<u8>> {
        match op {
            Op::Send(msg_type, body) if self.tracker.send(msg_type, body).1 is Ok => seq![
                frame_bytes(msg_type, body),
            ],
            _ => Seq::empty(),
        }
    }

    /// The queued frame that reaches the socket with `op`.
    pub open spec fn sent_by(self, op: Op) -> Seq<Seq<u8>> {
        match op {
            Op::Step(event) => self.written_by(event),
            _ => Seq::empty(),
        }
    }

    /// The number of bytes that `op` adds to what counts as sent: the length
    /// of the frame of a `send` that succeeds.
    pub open spec fn sent_bytes_by(self, op: Op) -> nat {
        match op {
            Op::Send(msg_type, body) if self.tracker.send(msg_type, body).1 is Ok => frame_bytes(
                msg_type,
                body,
            ).len(),
            _ => 0,
        }
    }

    /// The bytes that `op` adds to what counts as received: the frame whose
    /// header the loop is told of while it reads.
    pub open spec fn received_by(self, op: Op) -> nat {
        match (self.poll.phase, op) {
            (Phase::Read, Op::Step(Event::Header(Ok(h)))) => frame_len(h),
            _ => 0,
        }
    }

    /// The error that `op` hands to the owner, if it hands one.
    pub open spec fn error_from(self, op: Op) -> Option<Error> {
        match op {
            Op::PollError => self.tracker.poll_error().1,
            _ => None,
        }
    }

    /// The connection after all of `ops`, first to last.
    pub open spec fn run(self, ops: Seq<Op>) -> ConnView
        decreases ops.len(),
    {
        if ops.len() == 0 {
            self
        } else {
            self.run(ops.drop_last()).apply(ops.last())
        }
    }

    /// The frames that `send` has accepted during `ops`, in the order of the
    /// calls.
    pub open spec fn accepted(self, ops: Seq<Op>) -> Seq<Seq<u8>>
        decreases ops.len(),
    {
        if ops.len() == 0 {
            Seq::empty()
        } else {
            self.accepted(ops.drop_last()) + self.run(ops.drop_last()).accepted_by(ops.last())
        }
    }

    /// The queued frames that have reached the socket during `ops`, in the
    /// order in which they were written.
    pub open spec fn sent(self, ops: Seq<Op>) -> Seq<Seq<u8>>
        decreases ops.len(),
    {
        if ops.len() == 0 {
            Seq::empty()
        } else {
            self.sent(ops.drop_last()) + self.run(ops.drop_last()).sent_by(ops.last())
        }
    }

    /// Number of errors handed to the owner during `ops`.
    pub open spec fn errors_out(self, ops: Seq<Op>) -> nat
        decreases ops.len(),
    {
        if ops.len() == 0 {
            0
        } else {
            self.errors_out(ops.drop_last()) + if self.run(ops.drop_last()).error_from(
                ops.last(),
            ) is Some {
                1nat
            } else {
                0nat
            }
        }
    }

    /// Number of errors that the owner can still be handed: the one that
    /// waits, or the one on which a running loop may yet end.
    pub open spec fn errors_left(self) -> nat {
        if self.tracker.error is Some || !self.poll.phase.is_terminal() {
            1
        } else {
            0
        }
    }

    /// How far the loop is through its iteration.
    pub open spec fn progress(self) -> nat {
        match self.poll.phase {
            Phase::Sleep => 0,
            Phase::Read => 1,
            Phase::Consume(_) => 2,
            Phase::Reply => 3,
            Phase::Write => 4,
            Phase::Closed => 5,
            Phase::Failed(_) => 5,
        }
    }
}

/// Nothing that happens to a connection breaks what holds of it at all
/// times. In particular the send queue never holds more than its capacity.
pub proof fn lemma_inv_kept(c: ConnView, op: Op)
    requires
        c.inv(),
    ensures
        c.apply(op).inv(),
        c.apply(op).tracker.queue.len() <= c.apply(op).tracker.capacity,
        c.apply(op).tracker.capacity == c.tracker.capacity,
{
}

/// A connection that has just been adopted is as it should be, and stays so
/// through whatever happens to it.
pub proof fn lemma_inv_always(capacity: nat, ops: Seq<Op>)
    ensures
        ConnView::fresh(capacity).run(ops).inv(),
        ConnView::fresh(capacity).run(ops).tracker.capacity == capacity,
        ConnView::fresh(capacity).run(ops).tracker.queue.len() <= capacity,
    decreases ops.len(),
{
    if ops.len() > 0 {
        lemma_inv_always(capacity, ops.drop_last());
        lemma_inv_kept(ConnView::fresh(capacity).run(ops.drop_last()), ops.last());
    }
}

/// `send` on a full queue fails at once and changes nothing, the counters
/// included; so does `send` once the loop has ended.
pub proof fn lemma_send_refused(t: TrackerView, msg_type: MsgType, body: Seq<u8>)
    requires
        t.queue.len() >= t.capacity || !t.connected,
    ensures
        t.send(msg_type, body).1 is Err,
        t.send(msg_type, body).1->Err_0 is SendFailed,
        t.send(msg_type, body).0 == t,
{
}

/// What one thing does to the frames owed to the peer: they lose at their
/// front the frame that was written, and gain at their end the frame that
/// `send` accepted.
pub proof fn lemma_owed_frames(c: ConnView, op: Op)
    ensures
        c.sent_by(op) + c.apply(op).owed() == c.owed() + c.accepted_by(op),
{
    let d = c.apply(op);
    match op {
        Op::Step(event) => {
            if c.poll.retry is None && c.tracker.queue.len() > 0 {
                let q = c.tracker.queue;
                assert(seq![q[0]] + q.subrange(1, q.len() as int) =~= q);
            }
            assert(c.sent_by(op) + d.owed() =~= c.owed() + c.accepted_by(op));
        },
        _ => {
            assert(c.sent_by(op) + d.owed() =~= c.owed() + c.accepted_by(op));
        },
    }
}

/// The peer gets the frames in the order of the `send` calls that succeeded:
/// whatever happens to a connection, and in whatever order, the queued
/// frames that have been written, followed by the frames still owed, are the
/// frames owed at the start followed by the accepted frames, in call order.
pub proof fn lemma_frames_leave_in_order(c: ConnView, ops: Seq<Op>)
    ensures
        c.sent(ops) + c.run(ops).owed() == c.owed() + c.accepted(ops),
    decreases ops.len(),
{
    if ops.len() == 0 {
        assert(c.sent(ops) + c.run(ops).owed() =~= c.owed() + c.accepted(ops));
    } else {
        let before = c.run(ops.drop_last());
        lemma_frames_leave_in_order(c, ops.drop_last());
        lemma_owed_frames(before, ops.last());
        assert(c.sent(ops) + c.run(ops).owed() =~= (c.sent(ops.drop_last())
            + before.owed()) + before.accepted_by(ops.last()));
        assert(c.owed() + c.accepted(ops) =~= (c.owed() + c.accepted(ops.drop_last()))
            + before.accepted_by(ops.last()));
    }
}

/// On a connection that has just been adopted, the queued frames that have
/// been written are always the first of the accepted frames, in call order.
pub proof fn lemma_socket_sees_prefix(capacity: nat, ops: Seq<Op>)
    ensures
        ConnView::fresh(capacity).sent(ops).is_prefix_of(ConnView::fresh(capacity).accepted(ops)),
{
    let c = ConnView::fresh(capacity);
    lemma_frames_leave_in_order(c, ops);
    assert(c.owed() =~= Seq::<Seq<u8>>::empty());
    assert(c.sent(ops) + c.run(ops).owed() =~= c.accepted(ops));
    assert(c.sent(ops) =~= c.accepted(ops).subrange(0, c.sent(ops).len() as int));
}

/// True when every one of `frames` is a whole frame: a header and the body
/// that it announces.
pub open spec fn all_frames(frames: Seq<Seq<u8>>) -> bool {
    forall|i: int| 0 <= i < frames.len() ==> (#[trigger] parse_frame(frames[i])) is Some
}

/// True when `op` is no `send` of a body too long for a header to announce.
pub open spec fn fits(op: Op) -> bool {
    op matches Op::Send(_, body) ==> body.len() <= u64::MAX
}

/// Only whole frames travel: if all that is owed to the peer are whole
/// frames, then so is all that is owed after one more thing has happened,
/// and so is what was written with it.
pub proof fn lemma_only_whole_frames(c: ConnView, op: Op)
    requires
        all_frames(c.owed()),
        fits(op),
    ensures
        all_frames(c.apply(op).owed()),
        all_frames(c.sent_by(op)),
{
    lemma_owed_frames(c, op);
    let left = c.sent_by(op) + c.apply(op).owed();
    let right = c.owed() + c.accepted_by(op);
    assert forall|i: int| 0 <= i < right.len() implies (#[trigger] parse_frame(right[i])) is Some by {
        if i >= c.owed().len() {
            match op {
                Op::Send(msg_type, body) => {
                    lemma_frame_round_trip(msg_type, body);
                },
                _ => {},
            }
        } else {
            assert(right[i] == c.owed()[i]);
        }
    }
    assert forall|i: int| 0 <= i < c.sent_by(op).len() implies (#[trigger] parse_frame(
        c.sent_by(op)[i],
    )) is Some by {
        assert(left[i] == c.sent_by(op)[i]);
    }
    assert forall|i: int| 0 <= i < c.apply(op).owed().len() implies (#[trigger] parse_frame(
        c.apply(op).owed()[i],
    )) is Some by {
        assert(left[c.sent_by(op).len() + i] == c.apply(op).owed()[i]);
    }
}

/// On a connection that has just been adopted, whatever happens, the queue
/// is never made to write anything but whole frames.
pub proof fn lemma_socket_sees_whole_frames(capacity: nat, ops: Seq<Op>)
    requires
        forall|i: int| 0 <= i < ops.len() ==> fits(#[trigger] ops[i]),
    ensures
        all_frames(ConnView::fresh(capacity).run(ops).owed()),
        all_frames(ConnView::fresh(capacity).sent(ops)),
    decreases ops.len(),
{
    let c = ConnView::fresh(capacity);
    if ops.len() > 0 {
        let before = c.run(ops.drop_last());
        lemma_socket_sees_whole_frames(capacity, ops.drop_last());
        lemma_only_whole_frames(before, ops.last());
        let earlier = c.sent(ops.drop_last());
        assert forall|i: int| 0 <= i < c.sent(ops).len() implies (#[trigger] parse_frame(
            c.sent(ops)[i],
        )) is Some by {
            if i < earlier.len() {
                assert(c.sent(ops)[i] == earlier[i]);
            } else {
                assert(c.sent(ops)[i] == before.sent_by(ops.last())[i - earlier.len()]);
            }
        }
    }
}

/// The counters only grow, and by exactly what was moved: `sent` by the
/// length of each accepted frame, `received` by header length plus body
/// length of each frame whose header the loop has read. A counter that
/// cannot show the sum shows the most it can.
pub proof fn lemma_counters_exact(c: ConnView, op: Op)
    requires
        c.inv(),
    ensures
        c.apply(op).tracker.sent == counted(c.tracker.sent, c.sent_bytes_by(op)),
        c.apply(op).tracker.received == counted(c.tracker.received, c.received_by(op)),
        c.apply(op).tracker.sent >= c.tracker.sent,
        c.apply(op).tracker.received >= c.tracker.received,
        c.tracker.sent + c.sent_bytes_by(op) <= u64::MAX ==> c.apply(op).tracker.sent
            == c.tracker.sent + c.sent_bytes_by(op),
        c.tracker.received + c.received_by(op) <= u64::MAX ==> c.apply(op).tracker.received
            == c.tracker.received + c.received_by(op),
{
}

/// While the loop holds bytes back, it takes nothing off the queue.
pub proof fn lemma_one_frame_at_a_time(c: ConnView, event: Event)
    requires
        c.poll.retry is Some,
    ensures
        c.step(event).tracker.queue == c.tracker.queue,
{
}

/// A message goes to the handler as soon as its header is read, and nothing
/// else is read, and nothing of the queue is touched, until the handler has
/// answered and its reply, if it has one, is written.
pub proof fn lemma_reply_comes_first(c: ConnView, event: Event)
    requires
        c.poll.phase is Read || c.poll.phase is Consume || c.poll.phase is Reply,
    ensures
        c.written_by(event).len() == 0,
        event matches Event::Header(Ok(h)) ==> (c.poll.phase is Read ==> c.step(event).poll.phase
            == Phase::Consume(h)),
        c.poll.phase is Consume && event == Event::Consumed(Ok(true)) ==> c.step(event) == c.at(
            Phase::Reply,
        ),
        c.step(event).poll.phase is Consume || c.step(event).poll.phase is Reply ==> c.step(
            event,
        ).tracker.queue == c.tracker.queue && c.step(event).poll.retry == c.poll.retry,
{
}

/// When the peer closes the stream, between two frames or inside a header,
/// the loop ends on the end of the stream: the read of the header fails with
/// it at once, and the loop, told so, ends and leaves the error for the
/// owner.
pub proof fn lemma_peer_close_ends_loop(c: ConnView, read: ReadView, elapsed_ms: u64)
    requires
        c.poll.phase is Read,
        read.outcome is None,
        !read.allow_close,
    ensures
        header_read(read.advance(Ok(Seq::empty()), elapsed_ms)) == Some(
            Err::<MsgHeader, Error>(Error::Connection(IoKind::UnexpectedEof)),
        ),
        c.step(Event::Header(Err(Error::Connection(IoKind::UnexpectedEof)))).poll.phase
            == Phase::Failed(Error::Connection(IoKind::UnexpectedEof)),
        c.step(Event::Header(Err(Error::Connection(IoKind::UnexpectedEof)))).tracker.error == Some(
            Error::Connection(IoKind::UnexpectedEof),
        ),
        !c.step(Event::Header(Err(Error::Connection(IoKind::UnexpectedEof)))).tracker.connected,
{
}

/// An event that the loop does not wait for changes nothing, and lets
/// nothing reach the socket.
pub proof fn lemma_out_of_turn(c: ConnView, event: Event)
    requires
        !c.poll.phase.awaits(event),
    ensures
        c.step(event) == c,
        c.written_by(event).len() == 0,
{
}

/// A loop that has ended stays ended: it waits for nothing, so no event
/// changes anything, and nothing more reaches the socket.
pub proof fn lemma_end_is_final(c: ConnView, event: Event)
    requires
        c.poll.phase.is_terminal(),
    ensures
        !c.poll.phase.awaits(event),
        c.step(event) == c,
        c.written_by(event).len() == 0,
{
}

/// Once the owner has asked to close, the signal stays up, and the loop does
/// not begin another pause: every event that it waits for takes it further
/// through its iteration, at whose end it ends, without an error for the
/// owner. So it ends with the fifth such event at the latest.
pub proof fn lemma_close_ends_loop(c: ConnView, op: Op)
    requires
        c.inv(),
        c.tracker.closing,
    ensures
        c.apply(op).tracker.closing,
        c.apply(op).poll.phase is Sleep ==> c.poll.phase is Sleep,
        c.apply(op).progress() >= c.progress(),
        op matches Op::Step(event) ==> (c.poll.phase.awaits(event) ==> c.apply(op).progress()
            > c.progress()),
        c.apply(op).progress() <= 5,
        c.apply(op).progress() == 5 <==> c.apply(op).poll.phase.is_terminal(),
        c.enter_close().poll.phase == Phase::Closed,
        c.enter_close().tracker.error == c.tracker.error,
{
}

/// Asking to close a second time changes nothing.
pub proof fn lemma_close_twice(c: ConnView)
    ensures
        c.apply(Op::Close).apply(Op::Close) == c.apply(Op::Close),
        c.tracker.close().close() == c.tracker.close(),
{
}

/// Looking for an error when none waits changes nothing, and an error that
/// was handed out does not come again.
pub proof fn lemma_error_leaves(t: TrackerView)
    ensures
        t.poll_error().0.poll_error().1 is None,
        t.error is None ==> t.poll_error().0 == t,
{
}

/// Handing out an error, or any other thing that happens, never raises the
/// number of errors that can still come.
proof fn lemma_errors_left(c: ConnView, op: Op)
    requires
        c.inv(),
    ensures
        c.apply(op).errors_left() + (if c.error_from(op) is Some {
            1nat
        } else {
            0nat
        }) <= c.errors_left(),
{
}

/// The owner is handed at most one error over the life of a connection.
pub proof fn lemma_one_error(c: ConnView, ops: Seq<Op>)
    requires
        c.inv(),
    ensures
        c.run(ops).inv(),
        c.errors_out(ops) + c.run(ops).errors_left() <= c.errors_left(),
        c.errors_out(ops) <= 1,
    decreases ops.len(),
{
    if ops.len() > 0 {
        lemma_one_error(c, ops.drop_last());
        lemma_inv_kept(c.run(ops.drop_last()), ops.last());
        lemma_errors_left(c.run(ops.drop_last()), ops.last());
    }
}

} // verus!
