//! The reply to a message, and how it is written.

use vstd::prelude::*;
use vstd::slice::{slice_subrange, slice_to_vec};
use crate::chunk::{chunk_len, next_chunk, CHUNK_LEN};
use crate::error::{Error, IoKind};
use crate::header::{encode, frame_bytes, MsgType, HEADER_LEN};
use crate::transfer::{WriteAll, WriteView, IO_DEADLINE_MS};

verus! {

/// A reply, as plain values.
pub struct ResponseView {
    /// Type of the reply.
    pub resp_type: MsgType,
    /// Encoded body of the reply.
    pub body: Seq<u8>,
    /// Whether a file follows the body.
    pub attachment: bool,
}

/// The reply to a message.
#[derive(Debug)]
pub struct Response {
    resp_type: MsgType,
    body: Vec<u8>,
    attachment: bool,
}

impl View for Response {
    type V = ResponseView;

    closed spec fn view(&self) -> ResponseView {
        ResponseView { resp_type: self.resp_type, body: self.body@, attachment: self.attachment }
    }
}

/// What the driver of a reply does next.
#[derive(Clone, Copy, Debug, PartialEq, Eq, Structural)]
pub enum WriteStage {
    /// Write the frame: header, then body.
    Frame,
    /// Read up to `CHUNK_LEN` bytes from the attached file.
    ReadFile,
    /// Write the chunk of this many bytes that was read from the file.
    Chunk(usize),
    /// The reply is out.
    Done,
    /// Writing the reply has failed.
    Failed(Error),
}

/// What the driver of a reply reports.
#[derive(Clone, Copy, Debug, PartialEq, Eq)]
pub enum WriteEvent<'a> {
    /// How writing the frame or the chunk ended.
    Written(Result<(), Error>),
    /// What the read from the attached file returned: the bytes read, none
    /// at the end of the file, or why it failed.
    FileRead(Result<&'a [u8], IoKind>),
}

/// A reply that is being written, as plain values.
pub struct WriteJob {
    /// The bytes of the frame.
    pub frame: Seq<u8>,
    /// Whether a file follows the frame.
    pub attachment: bool,
    /// The bytes that were read from the file and are not written yet.
    pub unsent: Seq<u8>,
    /// What the driver does next.
    pub stage: WriteStage,
}

impl WriteJob {
    /// The writing of a reply, not yet begun: the frame comes first, also
    /// when its body is empty.
    pub open spec fn new(resp: ResponseView) -> WriteJob {
        WriteJob {
            frame: frame_bytes(resp.resp_type, resp.body),
            attachment: resp.attachment,
            unsent: Seq::empty(),
            stage: WriteStage::Frame,
        }
    }

    /// What comes next when `unsent` is what was read from the file and is
    /// not written yet: the chunk at its front, or another read.
    pub open spec fn stage_for(unsent: Seq<u8>) -> WriteStage {
        if unsent.len() > 0 {
            WriteStage::Chunk(chunk_len(unsent.len()) as usize)
        } else {
            WriteStage::ReadFile
        }
    }

    /// Bytes of the file wait only while a chunk is being written, and the
    /// chunk is the longest that their number and the chunk size allow.
    pub open spec fn wf(self) -> bool {
        match self.stage {
            WriteStage::Chunk(n) => self.unsent.len() > 0 && n == chunk_len(self.unsent.len()),
            WriteStage::Failed(_) => true,
            _ => self.unsent.len() == 0,
        }
    }

    /// The job after `event`. After the frame the file is read, if there is
    /// one; what a read returned is written in chunks, and the file is read
    /// again until it is at its end. Any failure ends the job. An event that
    /// the job does not wait for changes nothing.
    pub open spec fn advance(self, event: WriteEvent) -> WriteJob {
        match (self.stage, event) {
            (WriteStage::Frame, WriteEvent::Written(Ok(_))) => WriteJob {
                stage: if self.attachment {
                    WriteStage::ReadFile
                } else {
                    WriteStage::Done
                },
                ..self
            },
            (WriteStage::Frame, WriteEvent::Written(Err(e))) => WriteJob {
                stage: WriteStage::Failed(e),
                ..self
            },
            (WriteStage::ReadFile, WriteEvent::FileRead(Ok(bytes))) => if bytes@.len() == 0 {
                WriteJob { stage: WriteStage::Done, ..self }
            } else {
                WriteJob { unsent: bytes@, stage: Self::stage_for(bytes@), ..self }
            },
            (WriteStage::ReadFile, WriteEvent::FileRead(Err(kind))) => WriteJob {
                stage: WriteStage::Failed(Error::Connection(kind)),
                ..self
            },
            (WriteStage::Chunk(n), WriteEvent::Written(Ok(_))) => WriteJob {
                unsent: self.unsent.skip(n as int),
                stage: Self::stage_for(self.unsent.skip(n as int)),
                ..self
            },
            (WriteStage::Chunk(_), WriteEvent::Written(Err(e))) => WriteJob {
                stage: WriteStage::Failed(e),
                ..self
            },
            _ => self,
        }
    }

    /// The bytes of the write that the stage asks for: the frame, or the
    /// chunk at the front of what waits; none where the stage asks for no
    /// write.
    pub open spec fn to_write(self) -> Seq<u8> {
        match self.stage {
            WriteStage::Frame => self.frame,
            WriteStage::Chunk(n) => self.unsent.take(n as int),
            _ => Seq::empty(),
        }
    }

    /// The bytes of the file that reach the socket when the job is told
    /// `event`: the chunk, once it is reported as written.
    pub open spec fn chunk_out(self, event: WriteEvent) -> Seq<u8> {
        match (self.stage, event) {
            (WriteStage::Chunk(_), WriteEvent::Written(Ok(_))) => self.to_write(),
            _ => Seq::empty(),
        }
    }

    /// The bytes of the file that come in when the job is told `event`: what
    /// a read that the job waited for returned.
    pub open spec fn file_in(self, event: WriteEvent) -> Seq<u8> {
        match (self.stage, event) {
            (WriteStage::ReadFile, WriteEvent::FileRead(Ok(bytes))) => bytes@,
            _ => Seq::empty(),
        }
    }
}

/// A reply without attachment is its frame and nothing else: once the frame
/// is written the job is done, and the frame is there even for an empty
/// body.
pub proof fn lemma_reply_is_one_frame(resp: ResponseView)
    requires
        !resp.attachment,
    ensures
        WriteJob::new(resp).wf(),
        WriteJob::new(resp).to_write() == frame_bytes(resp.resp_type, resp.body),
        WriteJob::new(resp).to_write().len() >= HEADER_LEN,
        WriteJob::new(resp).advance(WriteEvent::Written(Ok(()))).stage == WriteStage::Done,
{
}

/// What is read from the attached file goes out as it was read: while the
/// job has not failed, the bytes of the file that have reached the socket,
/// followed by those that wait, are those that waited before followed by
/// those that came in. No chunk is longer than a chunk may be, and the job is
/// not done while bytes wait.
pub proof fn lemma_file_goes_out_in_chunks(job: WriteJob, event: WriteEvent)
    requires
        job.wf(),
    ensures
        job.advance(event).wf(),
        !(job.advance(event).stage is Failed) ==> job.chunk_out(event) + job.advance(
            event,
        ).unsent == job.unsent + job.file_in(event),
        job.to_write().len() <= CHUNK_LEN || job.stage is Frame,
        job.advance(event).stage is Done ==> job.advance(event).unsent.len() == 0,
{
    if !(job.advance(event).stage is Failed) {
        assert(job.chunk_out(event) + job.advance(event).unsent =~= job.unsent + job.file_in(
            event,
        ));
    }
}

impl Response {
    /// A reply of type `resp_type` with `body`, and no attachment.
    pub fn new(resp_type: MsgType, body: Vec<u8>) -> (resp: Response)
        ensures
            resp@ == (ResponseView { resp_type, body: body@, attachment: false }),
    {
        Response { resp_type, body, attachment: false }
    }

    /// Records that a file follows the body on the wire.
    pub fn add_attachment(&mut self)
        ensures
            final(self)@ == (ResponseView { attachment: true, ..old(self)@ }),
    {
        self.attachment = true;
    }

    /// True when a file follows the body.
    pub fn has_attachment(&self) -> (b: bool)
        ensures
            b == self@.attachment,
    {
        self.attachment
    }

    /// Begins writing the reply: encodes header and body as one frame, which
    /// is written first.
    pub fn write(self) -> (job: ResponseWrite)
        ensures
            job@ == WriteJob::new(self@),
    {
        let frame = encode(self.resp_type, self.body.as_slice());
        ResponseWrite {
            frame,
            attachment: self.attachment,
            unsent: Vec::new(),
            stage: WriteStage::Frame,
        }
    }
}

/// A reply that is being written.
#[derive(Debug)]
pub struct ResponseWrite {
    frame: Vec<u8>,
    attachment: bool,
    unsent: Vec<u8>,
    stage: WriteStage,
}

impl View for ResponseWrite {
    type V = WriteJob;

    closed spec fn view(&self) -> WriteJob {
        WriteJob {
            frame: self.frame@,
            attachment: self.attachment,
            unsent: self.unsent@,
            stage: self.stage,
        }
    }
}

impl ResponseWrite {
    #[verifier::type_invariant]
    spec fn inv(self) -> bool {
        self@.wf()
    }

    fn stage_for(unsent: &Vec<u8>) -> (stage: WriteStage)
        ensures
            stage == WriteJob::stage_for(unsent@),
    {
        if unsent.len() > 0 {
            WriteStage::Chunk(next_chunk(unsent.len()))
        } else {
            WriteStage::ReadFile
        }
    }

    /// What the driver does next. A chunk to write is never empty and never
    /// longer than `CHUNK_LEN`.
    pub fn stage(&self) -> (stage: WriteStage)
        ensures
            stage == self@.stage,
            stage matches WriteStage::Chunk(n) ==> 0 < n <= CHUNK_LEN,
    {
        proof {
            use_type_invariant(self);
        }
        self.stage
    }

    /// The write that the stage asks for: every byte of the frame, or of the
    /// chunk, within `IO_DEADLINE_MS`. When the stage asks for no write, it
    /// is a write of no bytes.
    pub fn write_all(&self) -> (write: WriteAll)
        ensures
            write@ == WriteView::new(self@.to_write(), Some(IO_DEADLINE_MS)),
    {
        proof {
            use_type_invariant(self);
        }
        let bytes: Vec<u8> = match self.stage {
            WriteStage::Frame => slice_to_vec(self.frame.as_slice()),
            WriteStage::Chunk(n) => slice_to_vec(slice_subrange(self.unsent.as_slice(), 0, n)),
            _ => Vec::new(),
        };
        WriteAll::new(bytes, Some(IO_DEADLINE_MS))
    }

    /// Reports what happened and returns what to do next.
    pub fn advance(&mut self, event: WriteEvent) -> (stage: WriteStage)
        ensures
            final(self)@ == old(self)@.advance(event),
            stage == final(self)@.stage,
    {
        proof {
            use_type_invariant(&*self);
        }
        let mut job = ResponseWrite {
            frame: Vec::new(),
            attachment: false,
            unsent: Vec::new(),
            stage: WriteStage::Done,
        };
        std::mem::swap(self, &mut job);
        let ResponseWrite { frame, attachment, unsent, stage } = job;
        let mut unsent = unsent;
        let next: WriteStage = match (stage, event) {
            (WriteStage::Frame, WriteEvent::Written(Ok(_))) => {
                if attachment {
                    WriteStage::ReadFile
                } else {
                    WriteStage::Done
                }
            },
            (WriteStage::Frame, WriteEvent::Written(Err(e))) => WriteStage::Failed(e),
            (WriteStage::ReadFile, WriteEvent::FileRead(Ok(bytes))) => {
                if bytes.len() == 0 {
                    WriteStage::Done
                } else {
                    unsent = slice_to_vec(bytes);
                    Self::stage_for(&unsent)
                }
            },
            (WriteStage::ReadFile, WriteEvent::FileRead(Err(kind))) => WriteStage::Failed(
                Error::Connection(kind),
            ),
            (WriteStage::Chunk(n), WriteEvent::Written(Ok(_))) => {
                let rest = unsent.split_off(n);
                unsent = rest;
                Self::stage_for(&unsent)
            },
            (WriteStage::Chunk(_), WriteEvent::Written(Err(e))) => WriteStage::Failed(e),
            _ => stage,
        };
        *self = ResponseWrite { frame, attachment, unsent, stage: next };
        next
    }
}

} // verus!
