//! An inbound frame whose body is still on the socket, and how its body and
//! attachment are read.

use vstd::prelude::*;
use crate::chunk::{
    chunk_count, chunk_len, copied_after, lemma_chunk_count, lemma_chunk_follows, next_chunk,
    CHUNK_LEN,
};
use crate::error::{Error, IoKind};
use crate::header::{
    header_bytes, lemma_header_round_trip, parse_header, MsgHeader, MsgType, HEADER_LEN,
};
use crate::response::{Response, ResponseView};
use crate::transfer::{ReadExact, ReadView, IO_DEADLINE_MS};

verus! {

/// The read of one header. With a deadline it waits that long for the
/// header. Without one it reports the would-block signal when no frame has
/// begun, and gives a frame that has begun `IO_DEADLINE_MS` to deliver the
/// rest of its header. The end of the stream fails it at once.
pub fn read_header(deadline: Option<u64>) -> (read: ReadExact)
    ensures
        read@ == ReadView::new(HEADER_LEN as nat, deadline, false),
{
    ReadExact::new(HEADER_LEN, deadline, false)
}

/// What a header read has come to: nothing while it goes on, its error if
/// it failed, and else the header that its bytes spell, or the news that
/// they spell none.
pub open spec fn header_read(read: ReadView) -> Option<Result<MsgHeader, Error>> {
    match read.outcome {
        None => None,
        Some(Err(e)) => Some(Err(e)),
        Some(Ok(_)) => Some(
            match parse_header(read.data) {
                Some(h) => Ok(h),
                None => Err(Error::Serialization),
            },
        ),
    }
}

/// A header read that has collected the bytes of an encoded header comes
/// to that header.
pub proof fn lemma_header_read_round_trip(read: ReadView, h: MsgHeader)
    requires
        read.outcome == Some(Ok::<(), Error>(())),
        read.data == header_bytes(h),
    ensures
        header_read(read) == Some(Ok::<MsgHeader, Error>(h)),
{
    lemma_header_round_trip(h);
}

/// Decodes the header that `read` has collected, once the read has ended.
pub fn header_outcome(read: &ReadExact) -> (r: Option<Result<MsgHeader, Error>>)
    ensures
        r == header_read(read@),
{
    match read.outcome() {
        None => None,
        Some(Err(e)) => Some(Err(e)),
        Some(Ok(_)) => Some(MsgHeader::decode(read.bytes())),
    }
}

/// What `read_body` answers for a header and a largest body length: a body
/// longer than that is refused, any other is read in full within
/// `IO_DEADLINE_MS`, and the end of the stream fails the read at once.
pub open spec fn body_read(header: MsgHeader, max_len: usize) -> Result<ReadView, Error> {
    if header.msg_len > max_len {
        Err(Error::TooLargeBody)
    } else {
        Ok(ReadView::new(header.msg_len as nat, Some(IO_DEADLINE_MS), false))
    }
}

/// The read of the body that `header` announces, unless the body is longer
/// than `max_len` bytes. A body of no bytes is read without touching the
/// socket: its read has succeeded from the start.
pub fn read_body(header: &MsgHeader, max_len: usize) -> (r: Result<ReadExact, Error>)
    ensures
        r is Ok == body_read(*header, max_len) is Ok,
        r is Ok ==> r->Ok_0@ == body_read(*header, max_len)->Ok_0,
        r is Err ==> r->Err_0 == body_read(*header, max_len)->Err_0,
{
    if header.msg_len > max_len as u64 {
        Err(Error::TooLargeBody)
    } else {
        Ok(ReadExact::new(header.msg_len as usize, Some(IO_DEADLINE_MS), false))
    }
}

/// What the driver of an attachment copy does next.
#[derive(Clone, Copy, Debug, PartialEq, Eq, Structural)]
pub enum CopyStage {
    /// Read a chunk of this many bytes from the socket.
    Read(usize),
    /// Hand the chunk of this many bytes to the writer.
    Write(usize),
    /// The copy has succeeded, with this many bytes copied.
    Done(usize),
    /// The copy has failed.
    Failed(Error),
}

/// What the driver of an attachment copy reports.
#[derive(Clone, Copy, Debug, PartialEq, Eq)]
pub enum CopyEvent {
    /// How the read of the chunk ended.
    ChunkRead(Result<(), Error>),
    /// How the writer took the chunk.
    ChunkWritten(Result<(), IoKind>),
}

/// The copy of an attachment, as plain values.
pub struct CopyView {
    /// Bytes of the attachment.
    pub len: nat,
    /// Bytes that have reached the writer.
    pub copied: nat,
    /// What the driver does next.
    pub stage: CopyStage,
}

impl CopyView {
    /// What comes after the chunks that are through: the next chunk, or the
    /// end of the copy.
    pub open spec fn stage_at(len: nat, copied: nat) -> CopyStage {
        if copied < len {
            CopyStage::Read(chunk_len((len - copied) as nat) as usize)
        } else {
            CopyStage::Done(len as usize)
        }
    }

    /// A copy that has not begun.
    pub open spec fn new(len: nat) -> CopyView {
        CopyView { len, copied: 0, stage: Self::stage_at(len, 0) }
    }

    /// The copy holds no more than the attachment, works on the chunk that
    /// is next, and has succeeded only with all bytes copied.
    pub open spec fn wf(self) -> bool {
        &&& self.len <= usize::MAX
        &&& self.copied <= self.len
        &&& match self.stage {
            CopyStage::Read(n) => self.copied < self.len && n == chunk_len(
                (self.len - self.copied) as nat,
            ),
            CopyStage::Write(n) => self.copied < self.len && n == chunk_len(
                (self.len - self.copied) as nat,
            ),
            CopyStage::Done(n) => n == self.len && self.copied == self.len,
            CopyStage::Failed(_) => true,
        }
    }

    /// The copy after `event`. A chunk that was read goes to the writer; a
    /// chunk that the writer took counts as copied and the next one is read.
    /// Any failure ends the copy. An event that the copy does not wait for
    /// changes nothing.
    pub open spec fn advance(self, event: CopyEvent) -> CopyView {
        match (self.stage, event) {
            (CopyStage::Read(n), CopyEvent::ChunkRead(Ok(_))) => CopyView {
                stage: CopyStage::Write(n),
                ..self
            },
            (CopyStage::Read(_), CopyEvent::ChunkRead(Err(e))) => CopyView {
                stage: CopyStage::Failed(e),
                ..self
            },
            (CopyStage::Write(n), CopyEvent::ChunkWritten(Ok(_))) => CopyView {
                copied: self.copied + n as nat,
                stage: Self::stage_at(self.len, self.copied + n as nat),
                ..self
            },
            (CopyStage::Write(_), CopyEvent::ChunkWritten(Err(kind))) => CopyView {
                stage: CopyStage::Failed(Error::Connection(kind)),
                ..self
            },
            _ => self,
        }
    }

    /// The copy after `k` chunks have been read and written without failure.
    pub open spec fn after_chunks(len: nat, k: nat) -> CopyView
        decreases k,
    {
        if k == 0 {
            Self::new(len)
        } else {
            Self::after_chunks(len, (k - 1) as nat).advance(CopyEvent::ChunkRead(Ok(()))).advance(
                CopyEvent::ChunkWritten(Ok(())),
            )
        }
    }
}

/// A copy keeps to what it is, and never loses a byte it has copied.
pub proof fn lemma_copy_stays_wf(c: CopyView, event: CopyEvent)
    requires
        c.wf(),
    ensures
        c.advance(event).wf(),
        c.advance(event).copied >= c.copied,
        c.advance(event).len == c.len,
{
}

/// An attachment that arrives without failure is copied chunk by chunk: after
/// `k` chunks, `k` full chunks are through or all of the attachment; every
/// chunk but the last is a full one; and the copy has succeeded, with all
/// bytes copied, exactly when as many chunks are through as the attachment
/// takes.
pub proof fn lemma_copy_in_chunks(len: nat, k: nat)
    requires
        len <= usize::MAX,
    ensures
        CopyView::after_chunks(len, k).wf(),
        CopyView::after_chunks(len, k).len == len,
        CopyView::after_chunks(len, k).copied == copied_after(len, k),
        CopyView::after_chunks(len, k).stage == CopyView::stage_at(len, copied_after(len, k)),
        CopyView::after_chunks(len, k).stage == CopyStage::Done(len as usize) <==> k
            >= chunk_count(len),
        k + 1 < chunk_count(len) ==> CopyView::after_chunks(len, k).stage == CopyStage::Read(
            CHUNK_LEN,
        ),
    decreases k,
{
    lemma_chunk_count(len, k);
    if k == 0 {
        assert(0 * CHUNK_LEN == 0);
    } else {
        lemma_copy_in_chunks(len, (k - 1) as nat);
        lemma_chunk_follows(len, (k - 1) as nat);
    }
}

/// The copy of an attachment of known length from the socket to a writer.
#[derive(Clone, Copy, Debug)]
pub struct AttachmentCopy {
    len: usize,
    copied: usize,
    stage: CopyStage,
}

impl View for AttachmentCopy {
    type V = CopyView;

    closed spec fn view(&self) -> CopyView {
        CopyView { len: self.len as nat, copied: self.copied as nat, stage: self.stage }
    }
}

impl AttachmentCopy {
    #[verifier::type_invariant]
    spec fn inv(self) -> bool {
        self@.wf()
    }

    fn stage_at(len: usize, copied: usize) -> (stage: CopyStage)
        requires
            copied <= len,
        ensures
            stage == CopyView::stage_at(len as nat, copied as nat),
    {
        if copied < len {
            CopyStage::Read(next_chunk(len - copied))
        } else {
            CopyStage::Done(len)
        }
    }

    /// The copy of an attachment of `len` bytes, not yet begun. An empty
    /// attachment is copied from the start.
    pub fn new(len: usize) -> (copy: AttachmentCopy)
        ensures
            copy@ == CopyView::new(len as nat),
    {
        AttachmentCopy { len, copied: 0, stage: Self::stage_at(len, 0) }
    }

    /// What the driver does next.
    pub fn stage(&self) -> (stage: CopyStage)
        ensures
            stage == self@.stage,
            stage matches CopyStage::Done(n) ==> n == self@.len && self@.copied == self@.len,
            stage matches CopyStage::Read(n) ==> 0 < n <= CHUNK_LEN && n == chunk_len(
                (self@.len - self@.copied) as nat,
            ),
            stage matches CopyStage::Write(n) ==> 0 < n <= CHUNK_LEN && n == chunk_len(
                (self@.len - self@.copied) as nat,
            ),
    {
        proof {
            use_type_invariant(self);
        }
        self.stage
    }

    /// Number of bytes that have reached the writer.
    pub fn copied(&self) -> (n: usize)
        ensures
            n == self@.copied,
            n <= self@.len,
    {
        proof {
            use_type_invariant(self);
        }
        self.copied
    }

    /// The read of the chunk that is next: all of its bytes within
    /// `IO_DEADLINE_MS`, putting up with the end of the stream until then.
    /// When no chunk is next, it is a read of no bytes.
    pub fn chunk_read(&self) -> (read: ReadExact)
        ensures
            read@ == ReadView::new(
                match self@.stage {
                    CopyStage::Read(n) => n as nat,
                    _ => 0,
                },
                Some(IO_DEADLINE_MS),
                true,
            ),
    {
        let n: usize = match self.stage {
            CopyStage::Read(n) => n,
            _ => 0,
        };
        ReadExact::new(n, Some(IO_DEADLINE_MS), true)
    }

    /// Reports what happened and returns what to do next.
    pub fn advance(&mut self, event: CopyEvent) -> (stage: CopyStage)
        ensures
            final(self)@ == old(self)@.advance(event),
            stage == final(self)@.stage,
    {
        proof {
            use_type_invariant(&*self);
        }
        let s: AttachmentCopy = *self;
        let next: AttachmentCopy = match (s.stage, event) {
            (CopyStage::Read(n), CopyEvent::ChunkRead(Ok(_))) => AttachmentCopy {
                len: s.len,
                copied: s.copied,
                stage: CopyStage::Write(n),
            },
            (CopyStage::Read(_), CopyEvent::ChunkRead(Err(e))) => AttachmentCopy {
                len: s.len,
                copied: s.copied,
                stage: CopyStage::Failed(e),
            },
            (CopyStage::Write(n), CopyEvent::ChunkWritten(Ok(_))) => AttachmentCopy {
                len: s.len,
                copied: s.copied + n,
                stage: Self::stage_at(s.len, s.copied + n),
            },
            (CopyStage::Write(_), CopyEvent::ChunkWritten(Err(kind))) => AttachmentCopy {
                len: s.len,
                copied: s.copied,
                stage: CopyStage::Failed(Error::Connection(kind)),
            },
            _ => s,
        };
        *self = next;
        next.stage
    }
}

/// An inbound frame, as plain values.
pub struct MessageView {
    /// The header that was read.
    pub header: MsgHeader,
    /// Whether the body has been asked for.
    pub body_taken: bool,
}

/// An inbound frame whose header has been read and whose body is still on
/// the socket.
#[derive(Debug)]
pub struct Message {
    /// The header that was read.
    pub header: MsgHeader,
    body_taken: bool,
}

impl View for Message {
    type V = MessageView;

    closed spec fn view(&self) -> MessageView {
        MessageView { header: self.header, body_taken: self.body_taken }
    }
}

impl Message {
    /// The message that begins with `header`.
    pub fn from_header(header: MsgHeader) -> (msg: Message)
        ensures
            msg@ == (MessageView { header, body_taken: false }),
    {
        Message { header, body_taken: false }
    }

    /// True once the body has been asked for.
    pub fn body_taken(&self) -> (b: bool)
        ensures
            b == self@.body_taken,
    {
        self.body_taken
    }

    /// The read of this message's body, unless the body is longer than
    /// `max_len` bytes. The body can be asked for once.
    pub fn body(&mut self, max_len: usize) -> (r: Result<ReadExact, Error>)
        requires
            !old(self)@.body_taken,
        ensures
            final(self)@ == (MessageView { body_taken: true, ..old(self)@ }),
            r is Ok == body_read(old(self)@.header, max_len) is Ok,
            r is Ok ==> r->Ok_0@ == body_read(old(self)@.header, max_len)->Ok_0,
            r is Err ==> r->Err_0 == body_read(old(self)@.header, max_len)->Err_0,
    {
        self.body_taken = true;
        read_body(&self.header, max_len)
    }

    /// The copy of the `len` bytes that follow the body on the socket, in
    /// chunks of at most `CHUNK_LEN` bytes.
    pub fn copy_attachment(&mut self, len: usize) -> (copy: AttachmentCopy)
        ensures
            final(self)@ == old(self)@,
            copy@ == CopyView::new(len as nat),
    {
        AttachmentCopy::new(len)
    }

    /// The reply to this message: a frame of type `resp_type` with `body`,
    /// and no attachment yet.
    pub fn respond(self, resp_type: MsgType, body: Vec<u8>) -> (resp: Response)
        ensures
            resp@ == (ResponseView { resp_type, body: body@, attachment: false }),
    {
        Response::new(resp_type, body)
    }
}

} // verus!
