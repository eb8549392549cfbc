//! Reading exactly so many bytes, and writing all of a buffer, on a socket
//! that does not wait.
//!
//! Each operation is a small machine. Its driver makes one read or write on
//! the socket, reports what the call returned and how long the operation has
//! lasted, and is told whether to try again at once, to pause first, or that
//! the operation has ended.

use vstd::prelude::*;
use vstd::slice::slice_subrange;
use crate::error::{Error, IoKind};

verus! {

/// How long a read of a body or of a chunk, or a write, may last: ten
/// seconds, in milliseconds.
pub const IO_DEADLINE_MS: u64 = 10_000;

/// What the driver of a read or write does next.
#[derive(Clone, Copy, Debug, PartialEq, Eq, Structural)]
pub enum Step {
    /// Make the call again at once.
    Again,
    /// Pause briefly, then make the call again.
    Sleep,
    /// The operation has succeeded.
    Done,
    /// The operation has failed.
    Fail(Error),
}

/// What a step answers for an operation that has this outcome so far.
pub open spec fn step_for(outcome: Option<Result<(), Error>>, pause: bool) -> Step {
    match outcome {
        Some(Ok(_)) => Step::Done,
        Some(Err(e)) => Step::Fail(e),
        None => if pause {
            Step::Sleep
        } else {
            Step::Again
        },
    }
}

/// A read of exactly `len` bytes, as plain values.
pub struct ReadView {
    /// Bytes wanted in all.
    pub len: nat,
    /// The bytes read so far, in the order in which they came.
    pub data: Seq<u8>,
    /// How long the read may last, in milliseconds. Without a deadline the
    /// read does not wait for its first byte, and once it has one it may last
    /// `IO_DEADLINE_MS`.
    pub deadline: Option<u64>,
    /// Whether the end of the stream is put up with until the deadline.
    pub allow_close: bool,
    /// Whether the stream has been seen at its end.
    pub saw_close: bool,
    /// How the read has ended, once it has.
    pub outcome: Option<Result<(), Error>>,
}

/// What one read on the socket returned, as plain values: the bytes that
/// came, none at the end of the stream, or why none came.
pub open spec fn read_outcome(outcome: Result<&[u8], IoKind>) -> Result<Seq<u8>, IoKind> {
    match outcome {
        Ok(bytes) => Ok(bytes@),
        Err(kind) => Err(kind),
    }
}

impl ReadView {
    /// A read that has not begun. A read of no bytes has succeeded already.
    pub open spec fn new(len: nat, deadline: Option<u64>, allow_close: bool) -> ReadView {
        ReadView {
            len,
            data: Seq::empty(),
            deadline,
            allow_close,
            saw_close: false,
            outcome: if len == 0 {
                Some(Ok(()))
            } else {
                None
            },
        }
    }

    /// No more bytes are held than wanted, and the read has succeeded exactly
    /// when all of them are there.
    pub open spec fn wf(self) -> bool {
        &&& self.data.len() <= self.len
        &&& self.outcome == Some(Ok::<(), Error>(())) <==> self.data.len() == self.len
    }

    /// The time that the read may last.
    pub open spec fn limit(self) -> u64 {
        match self.deadline {
            Some(d) => d,
            None => IO_DEADLINE_MS,
        }
    }

    /// The read has ended with `r`.
    pub open spec fn finish(self, r: Result<(), Error>) -> ReadView {
        ReadView { outcome: Some(r), ..self }
    }

    /// The read has to go on: it does while there is time. Past the deadline
    /// it fails, with the end of the stream if that was seen, and else with
    /// a timeout.
    pub open spec fn wait(self, elapsed_ms: u64) -> ReadView {
        if elapsed_ms > self.limit() {
            self.finish(
                Err(
                    if self.saw_close {
                        Error::Connection(IoKind::UnexpectedEof)
                    } else {
                        Error::Timeout
                    },
                ),
            )
        } else {
            self
        }
    }

    /// The read after one call on the socket that returned `outcome`, with
    /// `elapsed_ms` gone since the read began. Bytes beyond those wanted are
    /// left aside.
    pub open spec fn advance(self, outcome: Result<Seq<u8>, IoKind>, elapsed_ms: u64) -> ReadView {
        if self.outcome is Some {
            self
        } else {
            match outcome {
                Ok(bytes) => if bytes.len() == 0 {
                    if self.allow_close {
                        (ReadView { saw_close: true, ..self }).wait(elapsed_ms)
                    } else {
                        self.finish(Err(Error::Connection(IoKind::UnexpectedEof)))
                    }
                } else if self.data.len() + bytes.len() >= self.len {
                    (ReadView {
                        data: self.data + bytes.take(self.len - self.data.len()),
                        ..self
                    }).finish(Ok(()))
                } else {
                    (ReadView { data: self.data + bytes, ..self }).wait(elapsed_ms)
                },
                Err(IoKind::WouldBlock) => if self.data.len() == 0 && self.deadline is None {
                    self.finish(Err(Error::Connection(IoKind::WouldBlock)))
                } else {
                    self.wait(elapsed_ms)
                },
                Err(IoKind::Interrupted) => self.wait(elapsed_ms),
                Err(kind) => self.finish(Err(Error::Connection(kind))),
            }
        }
    }

    /// Whether a call that returned `outcome` is followed by a pause: it is
    /// when the socket had nothing to give.
    pub open spec fn pauses(outcome: Result<Seq<u8>, IoKind>) -> bool {
        match outcome {
            Ok(bytes) => bytes.len() == 0,
            Err(kind) => kind == IoKind::WouldBlock,
        }
    }
}

/// A read keeps to what it is: it never holds more bytes than wanted, it
/// succeeds with all of them and not before, and it holds the bytes in the
/// order in which they came: what it held stays at the front, and what came
/// follows as far as there is room.
pub proof fn lemma_read_stays_wf(r: ReadView, outcome: Result<Seq<u8>, IoKind>, elapsed_ms: u64)
    requires
        r.wf(),
    ensures
        r.advance(outcome, elapsed_ms).wf(),
        r.data.is_prefix_of(r.advance(outcome, elapsed_ms).data),
        outcome matches Ok(bytes) ==> r.advance(outcome, elapsed_ms).data.is_prefix_of(
            r.data + bytes,
        ),
        ReadView::new(r.len, r.deadline, r.allow_close).wf(),
{
    let next = r.advance(outcome, elapsed_ms);
    assert(r.data =~= next.data.subrange(0, r.data.len() as int));
    if let Ok(bytes) = outcome {
        assert(next.data =~= (r.data + bytes).subrange(0, next.data.len() as int));
    }
}

/// A read that has ended stays as it ended, whatever is reported after.
pub proof fn lemma_read_ends_once(r: ReadView, outcome: Result<Seq<u8>, IoKind>, elapsed_ms: u64)
    requires
        r.outcome is Some,
    ensures
        r.advance(outcome, elapsed_ms) == r,
{
}

/// No read outlasts its deadline: whatever the socket returns once the time
/// is over, the read ends with that call.
pub proof fn lemma_read_is_bounded(r: ReadView, outcome: Result<Seq<u8>, IoKind>, elapsed_ms: u64)
    requires
        elapsed_ms > r.limit(),
    ensures
        r.advance(outcome, elapsed_ms).outcome is Some,
{
}

/// A read ends on the would-block signal only before its first byte: a
/// frame that has begun to arrive is read whole, or the read fails for good.
pub proof fn lemma_read_blocks_only_at_start(
    r: ReadView,
    outcome: Result<Seq<u8>, IoKind>,
    elapsed_ms: u64,
)
    requires
        r.outcome is None,
        r.advance(outcome, elapsed_ms).outcome == Some(
            Err::<(), Error>(Error::Connection(IoKind::WouldBlock)),
        ),
    ensures
        r.deadline is None,
        r.data.len() == 0,
        r.advance(outcome, elapsed_ms).data.len() == 0,
{
}

/// Once the stream is at its end, a read that still wants bytes fails with
/// the end of the stream: at once if that is not put up with, and else with
/// the first call past the deadline that brings no bytes.
pub proof fn lemma_read_fails_on_close(r: ReadView, elapsed_ms: u64)
    requires
        r.outcome is None,
    ensures
        !r.allow_close ==> r.advance(Ok(Seq::empty()), elapsed_ms).outcome == Some(
            Err::<(), Error>(Error::Connection(IoKind::UnexpectedEof)),
        ),
        r.allow_close && elapsed_ms > r.limit() ==> r.advance(
            Ok(Seq::empty()),
            elapsed_ms,
        ).outcome == Some(Err::<(), Error>(Error::Connection(IoKind::UnexpectedEof))),
        r.allow_close && elapsed_ms <= r.limit() ==> r.advance(Ok(Seq::empty()), elapsed_ms) == (
        ReadView { saw_close: true, ..r }),
{
}

/// A read of exactly so many bytes from a socket that does not wait. It
/// keeps the bytes as they come.
#[derive(Debug)]
pub struct ReadExact {
    len: usize,
    data: Vec<u8>,
    deadline: Option<u64>,
    allow_close: bool,
    saw_close: bool,
    outcome: Option<Result<(), Error>>,
}

impl View for ReadExact {
    type V = ReadView;

    closed spec fn view(&self) -> ReadView {
        ReadView {
            len: self.len as nat,
            data: self.data@,
            deadline: self.deadline,
            allow_close: self.allow_close,
            saw_close: self.saw_close,
            outcome: self.outcome,
        }
    }
}

impl ReadExact {
    #[verifier::type_invariant]
    spec fn inv(self) -> bool {
        self@.wf()
    }

    /// A read of `len` bytes that may last `deadline` milliseconds. Without
    /// a deadline the read reports the would-block signal when the socket has
    /// no first byte for it. With `allow_close` the end of the stream does
    /// not fail the read before its deadline.
    pub fn new(len: usize, deadline: Option<u64>, allow_close: bool) -> (r: ReadExact)
        ensures
            r@ == ReadView::new(len as nat, deadline, allow_close),
    {
        ReadExact {
            len,
            data: Vec::new(),
            deadline,
            allow_close,
            saw_close: false,
            outcome: if len == 0 {
                Some(Ok(()))
            } else {
                None
            },
        }
    }

    /// Number of bytes read so far.
    pub fn filled(&self) -> (n: usize)
        ensures
            n == self@.data.len(),
            n <= self@.len,
    {
        proof {
            use_type_invariant(self);
        }
        self.data.len()
    }

    /// Number of bytes still wanted: the most that the next read on the
    /// socket should ask for.
    pub fn remaining(&self) -> (n: usize)
        ensures
            n == self@.len - self@.data.len(),
    {
        proof {
            use_type_invariant(self);
        }
        self.len - self.data.len()
    }

    /// How the read has ended, once it has. It has succeeded exactly when
    /// every byte wanted has been read.
    pub fn outcome(&self) -> (r: Option<Result<(), Error>>)
        ensures
            r == self@.outcome,
            r == Some(Ok::<(), Error>(())) <==> self@.data.len() == self@.len,
    {
        proof {
            use_type_invariant(self);
        }
        self.outcome
    }

    /// What the driver does next, as things stand: make a call on the
    /// socket, unless the operation has ended.
    pub fn status(&self) -> (step: Step)
        ensures
            step == step_for(self@.outcome, false),
    {
        match self.outcome {
            Some(Ok(_)) => Step::Done,
            Some(Err(e)) => Step::Fail(e),
            None => Step::Again,
        }
    }

    /// The bytes read so far, in the order in which they came.
    pub fn bytes(&self) -> (bytes: &[u8])
        ensures
            bytes@ == self@.data,
    {
        self.data.as_slice()
    }

    /// Gives up the read for the bytes it holds: all that were wanted if the
    /// read has succeeded.
    pub fn into_bytes(self) -> (bytes: Vec<u8>)
        ensures
            bytes@ == self@.data,
            self@.outcome == Some(Ok::<(), Error>(())) ==> bytes@.len() == self@.len,
    {
        proof {
            use_type_invariant(&self);
        }
        self.data
    }

    /// Reports what one read on the socket returned, `elapsed_ms` after the
    /// read began, and returns what to do next.
    ///
    /// Bytes that came are kept, up to the number wanted, and with the last
    /// one the read succeeds. The end of the stream fails the read at once
    /// unless it is put up with. The would-block signal fails a read without
    /// deadline that has no byte yet. An interrupted call is made again. Any
    /// other failure of the socket fails the read. A read that goes on fails
    /// once its time is over.
    pub fn advance(&mut self, outcome: Result<&[u8], IoKind>, elapsed_ms: u64) -> (step: Step)
        ensures
            final(self)@ == old(self)@.advance(read_outcome(outcome), elapsed_ms),
            step == step_for(final(self)@.outcome, ReadView::pauses(read_outcome(outcome))),
    {
        proof {
            use_type_invariant(&*self);
        }
        if self.outcome.is_some() {
            return self.status();
        }
        let len: usize = self.len;
        let deadline = self.deadline;
        let allow_close: bool = self.allow_close;
        let mut saw_close: bool = self.saw_close;
        let mut data: Vec<u8> = Vec::new();
        std::mem::swap(&mut data, &mut self.data);
        let ghost before = data@;
        let mut ended: Option<Result<(), Error>> = None;
        let mut pause: bool = false;
        match outcome {
            Ok(bytes) => {
                if bytes.len() == 0 {
                    pause = true;
                    if allow_close {
                        saw_close = true;
                    } else {
                        ended = Some(Err(Error::Connection(IoKind::UnexpectedEof)));
                    }
                } else {
                    let room: usize = len - data.len();
                    let take: usize = if bytes.len() < room {
                        bytes.len()
                    } else {
                        room
                    };
                    let mut i: usize = 0;
                    while i < take
                        invariant
                            i <= take <= bytes@.len(),
                            data@ == before + bytes@.subrange(0, i as int),
                        decreases take - i,
                    {
                        data.push(bytes[i]);
                        assert(bytes@.subrange(0, i + 1) =~= bytes@.subrange(0, i as int).push(
                            bytes@[i as int],
                        ));
                        i += 1;
                    }
                    assert(bytes@.subrange(0, bytes@.len() as int) =~= bytes@);
                    if take == room {
                        ended = Some(Ok(()));
                    }
                }
            },
            Err(IoKind::WouldBlock) => {
                pause = true;
                if data.len() == 0 && deadline.is_none() {
                    ended = Some(Err(Error::Connection(IoKind::WouldBlock)));
                }
            },
            Err(IoKind::Interrupted) => {},
            Err(kind) => {
                ended = Some(Err(Error::Connection(kind)));
            },
        }
        if ended.is_none() {
            let limit: u64 = match deadline {
                Some(d) => d,
                None => IO_DEADLINE_MS,
            };
            if elapsed_ms > limit {
                ended = Some(
                    Err(
                        if saw_close {
                            Error::Connection(IoKind::UnexpectedEof)
                        } else {
                            Error::Timeout
                        },
                    ),
                );
            }
        }
        *self = ReadExact { len, data, deadline, allow_close, saw_close, outcome: ended };
        match ended {
            Some(Ok(_)) => Step::Done,
            Some(Err(e)) => Step::Fail(e),
            None => if pause {
                Step::Sleep
            } else {
                Step::Again
            },
        }
    }
}

/// A write of all bytes of a buffer, as plain values.
pub struct WriteView {
    /// The bytes to write.
    pub bytes: Seq<u8>,
    /// Number of bytes that the socket has taken so far.
    pub written: nat,
    /// How long the write may last, in milliseconds. Without a deadline the
    /// write does not wait for the socket to take a first byte, and once the
    /// socket has taken one it may last `IO_DEADLINE_MS`.
    pub deadline: Option<u64>,
    /// How the write has ended, once it has.
    pub outcome: Option<Result<(), Error>>,
}

impl WriteView {
    /// A write that has not begun. A write of no bytes has succeeded already.
    pub open spec fn new(bytes: Seq<u8>, deadline: Option<u64>) -> WriteView {
        WriteView {
            bytes,
            written: 0,
            deadline,
            outcome: if bytes.len() == 0 {
                Some(Ok(()))
            } else {
                None
            },
        }
    }

    /// No more bytes are written than there are, and the write has succeeded
    /// exactly when all of them are out.
    pub open spec fn wf(self) -> bool {
        &&& self.written <= self.bytes.len()
        &&& self.outcome == Some(Ok::<(), Error>(())) <==> self.written == self.bytes.len()
    }

    /// The time that the write may last.
    pub open spec fn limit(self) -> u64 {
        match self.deadline {
            Some(d) => d,
            None => IO_DEADLINE_MS,
        }
    }

    /// The bytes that the socket has not taken yet.
    pub open spec fn rest(self) -> Seq<u8> {
        self.bytes.skip(self.written as int)
    }

    /// The write has ended with `r`.
    pub open spec fn finish(self, r: Result<(), Error>) -> WriteView {
        WriteView { outcome: Some(r), ..self }
    }

    /// The write has to go on: it does while there is time, and fails with a
    /// timeout past the deadline.
    pub open spec fn wait(self, elapsed_ms: u64) -> WriteView {
        if elapsed_ms > self.limit() {
            self.finish(Err(Error::Timeout))
        } else {
            self
        }
    }

    /// The write after one call on the socket that returned `outcome`, with
    /// `elapsed_ms` gone since the write began.
    pub open spec fn advance(self, outcome: Result<usize, IoKind>, elapsed_ms: u64) -> WriteView {
        if self.outcome is Some {
            self
        } else {
            match outcome {
                Ok(n) => if n == 0 {
                    self.finish(Err(Error::Connection(IoKind::WriteZero)))
                } else if self.written + n >= self.bytes.len() {
                    (WriteView { written: self.bytes.len(), ..self }).finish(Ok(()))
                } else {
                    (WriteView { written: self.written + n as nat, ..self }).wait(elapsed_ms)
                },
                Err(IoKind::WouldBlock) => if self.written == 0 && self.deadline is None {
                    self.finish(Err(Error::Connection(IoKind::WouldBlock)))
                } else {
                    self.wait(elapsed_ms)
                },
                Err(IoKind::Interrupted) => self.wait(elapsed_ms),
                Err(kind) => self.finish(Err(Error::Connection(kind))),
            }
        }
    }

    /// The bytes that the socket took with a call that returned `outcome`.
    pub open spec fn taken(self, outcome: Result<usize, IoKind>) -> Seq<u8> {
        match outcome {
            Ok(n) if self.outcome is None => if n < self.rest().len() {
                self.rest().take(n as int)
            } else {
                self.rest()
            },
            _ => Seq::empty(),
        }
    }

    /// Whether a call that returned `outcome` is followed by a pause: it is
    /// when the socket could take nothing.
    pub open spec fn pauses(outcome: Result<usize, IoKind>) -> bool {
        outcome == Err::<usize, IoKind>(IoKind::WouldBlock)
    }
}

/// A write keeps to what it is: it never counts more bytes than there are,
/// it succeeds with all of them out and not before, and what the socket
/// takes comes off the front of what was left.
pub proof fn lemma_write_stays_wf(w: WriteView, outcome: Result<usize, IoKind>, elapsed_ms: u64)
    requires
        w.wf(),
    ensures
        w.advance(outcome, elapsed_ms).wf(),
        w.advance(outcome, elapsed_ms).bytes == w.bytes,
        w.taken(outcome) + w.advance(outcome, elapsed_ms).rest() == w.rest(),
        WriteView::new(w.bytes, w.deadline).wf(),
{
    assert(w.taken(outcome) + w.advance(outcome, elapsed_ms).rest() =~= w.rest());
}

/// No write outlasts its deadline: whatever the socket returns once the
/// time is over, the write ends with that call.
pub proof fn lemma_write_is_bounded(w: WriteView, outcome: Result<usize, IoKind>, elapsed_ms: u64)
    requires
        elapsed_ms > w.limit(),
    ensures
        w.advance(outcome, elapsed_ms).outcome is Some,
{
}

/// A write ends on the would-block signal only before its first byte: what
/// the socket has begun to take it takes whole, or the write fails for good.
pub proof fn lemma_write_blocks_only_at_start(
    w: WriteView,
    outcome: Result<usize, IoKind>,
    elapsed_ms: u64,
)
    requires
        w.outcome is None,
        w.advance(outcome, elapsed_ms).outcome == Some(
            Err::<(), Error>(Error::Connection(IoKind::WouldBlock)),
        ),
    ensures
        w.deadline is None,
        w.written == 0,
        w.advance(outcome, elapsed_ms).written == 0,
{
}

/// A write of a whole buffer to a socket that does not wait.
#[derive(Debug)]
pub struct WriteAll {
    bytes: Vec<u8>,
    written: usize,
    deadline: Option<u64>,
    outcome: Option<Result<(), Error>>,
}

impl View for WriteAll {
    type V = WriteView;

    closed spec fn view(&self) -> WriteView {
        WriteView {
            bytes: self.bytes@,
            written: self.written as nat,
            deadline: self.deadline,
            outcome: self.outcome,
        }
    }
}

impl WriteAll {
    #[verifier::type_invariant]
    spec fn inv(self) -> bool {
        self@.wf()
    }

    /// A write of `bytes` that may last `deadline` milliseconds. Without a
    /// deadline the write reports the would-block signal when the socket
    /// takes no first byte.
    pub fn new(bytes: Vec<u8>, deadline: Option<u64>) -> (w: WriteAll)
        ensures
            w@ == WriteView::new(bytes@, deadline),
    {
        let outcome: Option<Result<(), Error>> = if bytes.len() == 0 {
            Some(Ok(()))
        } else {
            None
        };
        WriteAll { bytes, written: 0, deadline, outcome }
    }

    /// Number of bytes that the socket has taken.
    pub fn written(&self) -> (n: usize)
        ensures
            n == self@.written,
            n <= self@.bytes.len(),
    {
        proof {
            use_type_invariant(self);
        }
        self.written
    }

    /// The bytes that the socket has not taken yet: what the next write on
    /// the socket offers.
    pub fn rest(&self) -> (bytes: &[u8])
        ensures
            bytes@ == self@.rest(),
    {
        proof {
            use_type_invariant(self);
        }
        slice_subrange(self.bytes.as_slice(), self.written, self.bytes.len())
    }

    /// How the write has ended, once it has. It has succeeded exactly when
    /// the socket has taken every byte, and it has ended on the would-block
    /// signal only if the socket has taken none.
    pub fn outcome(&self) -> (r: Option<Result<(), Error>>)
        ensures
            r == self@.outcome,
            r == Some(Ok::<(), Error>(())) <==> self@.written == self@.bytes.len(),
    {
        proof {
            use_type_invariant(self);
        }
        self.outcome
    }

    /// What the driver does next, as things stand: make a call on the
    /// socket, unless the operation has ended.
    pub fn status(&self) -> (step: Step)
        ensures
            step == step_for(self@.outcome, false),
    {
        match self.outcome {
            Some(Ok(_)) => Step::Done,
            Some(Err(e)) => Step::Fail(e),
            None => Step::Again,
        }
    }

    /// Reports what one write on the socket returned, `elapsed_ms` after the
    /// write began, and returns what to do next.
    ///
    /// Bytes that the socket took are counted, and with the last one the
    /// write succeeds. A call that took nothing of a buffer that is not
    /// empty fails the write. The would-block signal fails a write without
    /// deadline of which the socket has taken nothing yet; otherwise the
    /// call is made again after a pause. An interrupted call is made again
    /// at once. Any other failure of the socket fails the write. A write
    /// that goes on fails with a timeout once its time is over.
    pub fn advance(&mut self, outcome: Result<usize, IoKind>, elapsed_ms: u64) -> (step: Step)
        ensures
            final(self)@ == old(self)@.advance(outcome, elapsed_ms),
            step == step_for(final(self)@.outcome, WriteView::pauses(outcome)),
    {
        proof {
            use_type_invariant(&*self);
        }
        if self.outcome.is_some() {
            return self.status();
        }
        let mut current = WriteAll::new(Vec::new(), None);
        std::mem::swap(self, &mut current);
        let deadline: Option<u64> = current.deadline;
        let mut written: usize = current.written;
        let bytes: Vec<u8> = current.bytes;
        let mut ended: Option<Result<(), Error>> = None;
        let mut pause: bool = false;
        match outcome {
            Ok(n) => {
                if n == 0 {
                    ended = Some(Err(Error::Connection(IoKind::WriteZero)));
                } else if n >= bytes.len() - written {
                    written = bytes.len();
                    ended = Some(Ok(()));
                } else {
                    written = written + n;
                }
            },
            Err(IoKind::WouldBlock) => {
                pause = true;
                if written == 0 && deadline.is_none() {
                    ended = Some(Err(Error::Connection(IoKind::WouldBlock)));
                }
            },
            Err(IoKind::Interrupted) => {},
            Err(kind) => {
                ended = Some(Err(Error::Connection(kind)));
            },
        }
        if ended.is_none() {
            let limit: u64 = match deadline {
                Some(d) => d,
                None => IO_DEADLINE_MS,
            };
            if elapsed_ms > limit {
                ended = Some(Err(Error::Timeout));
            }
        }
        *self = WriteAll { bytes, written, deadline, outcome: ended };
        match ended {
            Some(Ok(_)) => Step::Done,
            Some(Err(e)) => Step::Fail(e),
            None => if pause {
                Step::Sleep
            } else {
                Step::Again
            },
        }
    }
}

} // verus!
