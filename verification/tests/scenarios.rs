use p2p::chunk::CHUNK_LEN;
use p2p::conn::listen;
use p2p::error::{Error, IoKind, SendFailure};
use p2p::header::{encode, MsgHeader, MsgType, HEADER_LEN};
use p2p::message::{header_outcome, CopyEvent, CopyStage, Message};
use p2p::poll::{Event, Phase, PollLoop};
use p2p::queue::SEND_CHANNEL_CAP;
use p2p::response::{Response, WriteEvent, WriteStage};
use p2p::tracker::Tracker;
use p2p::transfer::{ReadExact, Step, WriteAll};

const T_ECHO: MsgType = MsgType(1);
const T_PING: MsgType = MsgType(2);
const T_PONG: MsgType = MsgType(3);
const MAX_BODY: usize = 1_000;

/// One end of a socket that never waits, held in memory.
struct Sock {
    /// Bytes that have arrived and wait to be read.
    rx: Vec<u8>,
    /// The peer has closed its side.
    rx_closed: bool,
    /// Bytes written so far.
    tx: Vec<u8>,
    /// Bytes that the socket still takes before it would block.
    room: usize,
    /// Bytes of room that the socket gains with every millisecond.
    drain: usize,
    /// Length of each buffer that was written whole, in order.
    writes: Vec<usize>,
}

impl Sock {
    fn new() -> Sock {
        Sock {
            rx: Vec::new(),
            rx_closed: false,
            tx: Vec::new(),
            room: usize::MAX,
            drain: 0,
            writes: Vec::new(),
        }
    }

    fn read(&mut self, into: &mut Vec<u8>, max: usize) -> Result<usize, IoKind> {
        if self.rx.is_empty() {
            return if self.rx_closed { Ok(0) } else { Err(IoKind::WouldBlock) };
        }
        let n = max.min(self.rx.len());
        into.extend(self.rx.drain(..n));
        Ok(n)
    }

    fn write(&mut self, bytes: &[u8]) -> Result<usize, IoKind> {
        if self.room == 0 {
            return Err(IoKind::WouldBlock);
        }
        let n = bytes.len().min(self.room);
        self.tx.extend_from_slice(&bytes[..n]);
        self.room -= n;
        Ok(n)
    }
}

/// Runs a read to its end; one millisecond passes with every pause.
fn read_exact(sock: &mut Sock, mut plan: ReadExact) -> Result<Vec<u8>, Error> {
    let mut elapsed: u64 = 0;
    let mut step = plan.status();
    loop {
        match step {
            Step::Done => return Ok(plan.into_bytes()),
            Step::Fail(e) => return Err(e),
            Step::Sleep => elapsed += 1,
            Step::Again => {}
        }
        let mut got: Vec<u8> = Vec::new();
        let outcome = sock.read(&mut got, plan.remaining());
        step = plan.advance(outcome.map(|_| &got[..]), elapsed);
    }
}

/// Runs a write to its end; one millisecond passes with every pause.
fn write_all(sock: &mut Sock, mut plan: WriteAll) -> Result<(), Error> {
    let len = plan.rest().len();
    let mut elapsed: u64 = 0;
    let mut step = plan.status();
    loop {
        match step {
            Step::Done => {
                sock.writes.push(len);
                return Ok(());
            }
            Step::Fail(e) => return Err(e),
            Step::Sleep => {
                elapsed += 1;
                sock.room = sock.room.saturating_add(sock.drain);
            }
            Step::Again => {}
        }
        let outcome = sock.write(plan.rest());
        step = plan.advance(outcome, elapsed);
    }
}

fn poll_header(sock: &mut Sock, mut plan: ReadExact) -> Result<MsgHeader, Error> {
    let mut elapsed: u64 = 0;
    loop {
        if let Some(outcome) = header_outcome(&plan) {
            return outcome;
        }
        let mut got: Vec<u8> = Vec::new();
        let outcome = sock.read(&mut got, plan.remaining());
        if plan.advance(outcome.map(|_| &got[..]), elapsed) == Step::Sleep {
            elapsed += 1;
        }
    }
}

fn read_body(sock: &mut Sock, msg: &mut Message) -> Result<Vec<u8>, Error> {
    let plan = msg.body(MAX_BODY)?;
    read_exact(sock, plan)
}

fn copy_attachment(sock: &mut Sock, msg: &mut Message, len: usize, out: &mut Vec<u8>) -> Result<usize, Error> {
    let mut copy = msg.copy_attachment(len);
    let mut chunk: Vec<u8> = Vec::new();
    loop {
        match copy.stage() {
            CopyStage::Read(_) => match read_exact(sock, copy.chunk_read()) {
                Ok(bytes) => {
                    chunk = bytes;
                    copy.advance(CopyEvent::ChunkRead(Ok(())));
                }
                Err(e) => {
                    copy.advance(CopyEvent::ChunkRead(Err(e)));
                }
            },
            CopyStage::Write(n) => {
                assert_eq!(chunk.len(), n);
                out.extend_from_slice(&chunk);
                copy.advance(CopyEvent::ChunkWritten(Ok(())));
            }
            CopyStage::Done(n) => return Ok(n),
            CopyStage::Failed(e) => return Err(e),
        }
    }
}

fn write_response(sock: &mut Sock, resp: Response, file: &[u8]) -> Result<(), Error> {
    let mut job = resp.write();
    let mut offset: usize = 0;
    loop {
        match job.stage() {
            WriteStage::Frame | WriteStage::Chunk(_) => {
                let r = write_all(sock, job.write_all());
                job.advance(WriteEvent::Written(r));
            }
            WriteStage::ReadFile => {
                let n = CHUNK_LEN.min(file.len() - offset);
                job.advance(WriteEvent::FileRead(Ok(&file[offset..offset + n])));
                offset += n;
            }
            WriteStage::Done => return Ok(()),
            WriteStage::Failed(e) => return Err(e),
        }
    }
}

/// A reply and the bytes of the file attached to it.
type Reply = Option<(Response, Vec<u8>)>;

/// Drives the loop from where it stands to its next pause, or to its end.
fn iterate(
    tracker: &mut Tracker,
    poll: &mut PollLoop,
    sock: &mut Sock,
    handler: &mut dyn FnMut(Message, &mut Sock) -> Result<Reply, Error>,
) -> Phase {
    let mut reply: Reply = None;
    loop {
        let event = match poll.phase() {
            Phase::Read => Event::Header(poll_header(sock, poll.read_header())),
            Phase::Consume(_) => match handler(poll.message().unwrap(), sock) {
                Ok(r) => {
                    reply = r;
                    Event::Consumed(Ok(reply.is_some()))
                }
                Err(e) => Event::Consumed(Err(e)),
            },
            Phase::Reply => {
                let (resp, file) = reply.take().unwrap();
                Event::Replied(write_response(sock, resp, &file))
            }
            Phase::Write => Event::Wrote(write_all(sock, poll.write_all())),
            Phase::Sleep | Phase::Closed | Phase::Failed(_) => return poll.phase(),
        };
        poll.step(tracker, event);
    }
}

fn pause(tracker: &mut Tracker, poll: &mut PollLoop) {
    assert_eq!(poll.step(tracker, Event::Slept), Phase::Read);
}

fn silent(mut msg: Message, sock: &mut Sock) -> Result<Reply, Error> {
    read_body(sock, &mut msg)?;
    Ok(None)
}

fn echo(mut msg: Message, sock: &mut Sock) -> Result<Reply, Error> {
    let body = read_body(sock, &mut msg)?;
    Ok(Some((msg.respond(T_ECHO, body), Vec::new())))
}

#[test]
fn echo_exchange() {
    let (mut tracker, mut poll) = listen();
    let mut sock = Sock::new();
    let (mut peer_tracker, mut peer_poll) = listen();
    let mut peer_sock = Sock::new();

    assert_eq!(tracker.send(&[0x01, 0x02, 0x03], T_ECHO), Ok(()));
    assert_eq!(tracker.sent_bytes(), (HEADER_LEN + 3) as u64);
    assert_eq!(iterate(&mut tracker, &mut poll, &mut sock, &mut silent), Phase::Sleep);

    let mut expected = MsgHeader::new(T_ECHO, 3).encode();
    expected.extend_from_slice(&[0x01, 0x02, 0x03]);
    assert_eq!(sock.tx, expected);

    peer_sock.rx.append(&mut sock.tx);
    assert_eq!(iterate(&mut peer_tracker, &mut peer_poll, &mut peer_sock, &mut echo), Phase::Sleep);
    assert_eq!(peer_tracker.received_bytes(), (HEADER_LEN + 3) as u64);
    assert_eq!(peer_sock.tx, expected);

    sock.rx.append(&mut peer_sock.tx);
    assert_eq!(tracker.received_bytes(), 0);
    pause(&mut tracker, &mut poll);
    let mut bodies: Vec<Vec<u8>> = Vec::new();
    let mut record = |mut msg: Message, sock: &mut Sock| -> Result<Reply, Error> {
        assert_eq!(msg.header, MsgHeader::new(T_ECHO, 3));
        bodies.push(read_body(sock, &mut msg)?);
        Ok(None)
    };
    assert_eq!(iterate(&mut tracker, &mut poll, &mut sock, &mut record), Phase::Sleep);
    assert_eq!(bodies, vec![vec![0x01, 0x02, 0x03]]);
    assert_eq!(tracker.sent_bytes(), (HEADER_LEN + 3) as u64);
    assert_eq!(tracker.received_bytes(), (HEADER_LEN + 3) as u64);
    assert_eq!(tracker.poll_error(), None);
    assert_eq!(peer_tracker.poll_error(), None);
}

#[test]
fn backpressure_on_a_full_queue() {
    let (mut tracker, _poll) = listen();
    let mut sum: u64 = 0;
    for i in 0..SEND_CHANNEL_CAP {
        let body = vec![7u8; i];
        assert_eq!(tracker.send(&body, T_PING), Ok(()));
        sum += encode(T_PING, &body).len() as u64;
    }
    assert_eq!(tracker.queued(), 10);
    assert_eq!(sum, 10 * 11 + 45);
    assert_eq!(tracker.sent_bytes(), sum);
    assert_eq!(tracker.send(&[1], T_PING), Err(Error::SendFailed(SendFailure::Full)));
    assert_eq!(tracker.sent_bytes(), sum);
    assert_eq!(tracker.queued(), 10);
}

#[test]
fn backpressure_eases_when_the_loop_drains() {
    let (mut tracker, mut poll) = listen();
    let mut sock = Sock::new();
    sock.room = 0;
    for _ in 0..10 {
        tracker.send(&[1], T_PING).unwrap();
    }
    assert_eq!(iterate(&mut tracker, &mut poll, &mut sock, &mut silent), Phase::Sleep);
    assert_eq!(tracker.queued(), 9);
    assert_eq!(tracker.send(&[2], T_PING), Ok(()));
    assert_eq!(tracker.send(&[3], T_PING), Err(Error::SendFailed(SendFailure::Full)));
    pause(&mut tracker, &mut poll);
    assert_eq!(iterate(&mut tracker, &mut poll, &mut sock, &mut silent), Phase::Sleep);
    assert_eq!(tracker.queued(), 10);
    assert!(sock.tx.is_empty());
}

#[test]
fn clean_close_after_an_exchange() {
    let (mut tracker, mut poll) = listen();
    let mut sock = Sock::new();
    sock.rx = encode(T_PING, &[5]);
    let mut pong = |mut msg: Message, sock: &mut Sock| -> Result<Reply, Error> {
        read_body(sock, &mut msg)?;
        Ok(Some((msg.respond(T_PONG, vec![6]), Vec::new())))
    };
    assert_eq!(iterate(&mut tracker, &mut poll, &mut sock, &mut pong), Phase::Sleep);
    assert_eq!(sock.tx, encode(T_PONG, &[6]));
    tracker.close();
    tracker.close();
    pause(&mut tracker, &mut poll);
    assert_eq!(iterate(&mut tracker, &mut poll, &mut sock, &mut pong), Phase::Closed);
    assert_eq!(tracker.poll_error(), None);
    assert_eq!(sock.tx, encode(T_PONG, &[6]));
    assert_eq!(tracker.send(&[1], T_PING), Err(Error::SendFailed(SendFailure::Disconnected)));
}

#[test]
fn peer_disconnect_between_frames() {
    let (mut tracker, mut poll) = listen();
    let mut sock = Sock::new();
    sock.rx = encode(T_PING, &[5]);
    assert_eq!(iterate(&mut tracker, &mut poll, &mut sock, &mut silent), Phase::Sleep);
    sock.rx_closed = true;
    pause(&mut tracker, &mut poll);
    let eof = Error::Connection(IoKind::UnexpectedEof);
    assert_eq!(iterate(&mut tracker, &mut poll, &mut sock, &mut silent), Phase::Failed(eof));
    assert_eq!(tracker.poll_error(), Some(eof));
    assert_eq!(tracker.poll_error(), None);
    assert_eq!(iterate(&mut tracker, &mut poll, &mut sock, &mut silent), Phase::Failed(eof));
    assert_eq!(tracker.poll_error(), None);
}

#[test]
fn peer_disconnect_inside_a_header() {
    let (mut tracker, mut poll) = listen();
    let mut sock = Sock::new();
    sock.rx = encode(T_PING, &[5])[..4].to_vec();
    sock.rx_closed = true;
    let eof = Error::Connection(IoKind::UnexpectedEof);
    assert_eq!(iterate(&mut tracker, &mut poll, &mut sock, &mut silent), Phase::Failed(eof));
    assert_eq!(tracker.received_bytes(), 0);
    assert_eq!(tracker.poll_error(), Some(eof));
}

#[test]
fn peer_disconnect_inside_a_body() {
    let (mut tracker, mut poll) = listen();
    let mut sock = Sock::new();
    sock.rx = encode(T_PING, &[5, 6, 7])[..HEADER_LEN + 1].to_vec();
    sock.rx_closed = true;
    let eof = Error::Connection(IoKind::UnexpectedEof);
    assert_eq!(iterate(&mut tracker, &mut poll, &mut sock, &mut silent), Phase::Failed(eof));
    assert_eq!(tracker.received_bytes(), (HEADER_LEN + 3) as u64);
    assert_eq!(tracker.poll_error(), Some(eof));
}

#[test]
fn a_stalled_header_times_out() {
    let (mut tracker, mut poll) = listen();
    let mut sock = Sock::new();
    sock.rx = vec![0x1e, 0xc5, 2];
    assert_eq!(
        iterate(&mut tracker, &mut poll, &mut sock, &mut silent),
        Phase::Failed(Error::Timeout)
    );
    assert_eq!(tracker.poll_error(), Some(Error::Timeout));
}

#[test]
fn a_malformed_header_ends_the_loop() {
    let (mut tracker, mut poll) = listen();
    let mut sock = Sock::new();
    sock.rx = vec![0u8; HEADER_LEN];
    assert_eq!(
        iterate(&mut tracker, &mut poll, &mut sock, &mut silent),
        Phase::Failed(Error::Serialization)
    );
    assert_eq!(tracker.received_bytes(), 0);
    assert_eq!(tracker.poll_error(), Some(Error::Serialization));
}

#[test]
fn large_body_rejection() {
    let (mut tracker, mut poll) = listen();
    let mut sock = Sock::new();
    let body = vec![9u8; MAX_BODY + 1];
    sock.rx = encode(T_PING, &body);
    assert_eq!(
        iterate(&mut tracker, &mut poll, &mut sock, &mut silent),
        Phase::Failed(Error::TooLargeBody)
    );
    assert_eq!(sock.rx, body);
    assert_eq!(tracker.poll_error(), Some(Error::TooLargeBody));
    assert_eq!(tracker.poll_error(), None);
}

#[test]
fn largest_body_is_accepted() {
    let (mut tracker, mut poll) = listen();
    let mut sock = Sock::new();
    let body = vec![9u8; MAX_BODY];
    sock.rx = encode(T_PING, &body);
    let mut seen: Vec<u8> = Vec::new();
    let mut record = |mut msg: Message, sock: &mut Sock| -> Result<Reply, Error> {
        seen = read_body(sock, &mut msg)?;
        Ok(None)
    };
    assert_eq!(iterate(&mut tracker, &mut poll, &mut sock, &mut record), Phase::Sleep);
    assert_eq!(seen, body);
    assert_eq!(tracker.received_bytes(), (HEADER_LEN + MAX_BODY) as u64);
    assert_eq!(tracker.poll_error(), None);
}

#[test]
fn empty_body_touches_nothing_behind_the_header() {
    let (mut tracker, mut poll) = listen();
    let mut sock = Sock::new();
    sock.rx = encode(T_PING, &[]);
    sock.rx.extend_from_slice(&encode(T_PONG, &[1]));
    let mut seen: Vec<(MsgType, Vec<u8>)> = Vec::new();
    let mut record = |mut msg: Message, sock: &mut Sock| -> Result<Reply, Error> {
        let t = msg.header.msg_type;
        seen.push((t, read_body(sock, &mut msg)?));
        Ok(None)
    };
    assert_eq!(iterate(&mut tracker, &mut poll, &mut sock, &mut record), Phase::Sleep);
    pause(&mut tracker, &mut poll);
    assert_eq!(iterate(&mut tracker, &mut poll, &mut sock, &mut record), Phase::Sleep);
    assert_eq!(seen, vec![(T_PING, vec![]), (T_PONG, vec![1])]);
    assert_eq!(tracker.received_bytes(), (2 * HEADER_LEN + 1) as u64);
}

#[test]
fn attachment_streaming() {
    let (mut tracker, mut poll) = listen();
    let mut sock = Sock::new();
    sock.rx = encode(T_PING, &[1]);
    let file: Vec<u8> = (0..20_000u32).map(|i| (i % 251) as u8).collect();
    let attached = file.clone();
    let mut reply = |mut msg: Message, sock: &mut Sock| -> Result<Reply, Error> {
        read_body(sock, &mut msg)?;
        let mut resp = msg.respond(T_PONG, vec![4, 2]);
        resp.add_attachment();
        Ok(Some((resp, attached.clone())))
    };
    assert_eq!(iterate(&mut tracker, &mut poll, &mut sock, &mut reply), Phase::Sleep);
    let mut expected = encode(T_PONG, &[4, 2]);
    expected.extend_from_slice(&file);
    assert_eq!(sock.tx.len(), HEADER_LEN + 2 + 20_000);
    assert_eq!(sock.tx, expected);
    assert_eq!(sock.writes, vec![HEADER_LEN + 2, 8000, 8000, 4000]);
    assert_eq!(tracker.poll_error(), None);
}

#[test]
fn attachment_is_received_in_chunks() {
    let (mut tracker, mut poll) = listen();
    let mut sock = Sock::new();
    let file: Vec<u8> = (0..20_000u32).map(|i| (i % 241) as u8).collect();
    sock.rx = encode(T_PING, &[1]);
    sock.rx.extend_from_slice(&file);
    let mut out: Vec<u8> = Vec::new();
    let mut copied: usize = 0;
    let mut take = |mut msg: Message, sock: &mut Sock| -> Result<Reply, Error> {
        read_body(sock, &mut msg)?;
        copied = copy_attachment(sock, &mut msg, 20_000, &mut out)?;
        Ok(None)
    };
    assert_eq!(iterate(&mut tracker, &mut poll, &mut sock, &mut take), Phase::Sleep);
    assert_eq!(copied, 20_000);
    assert_eq!(out, file);
    assert!(sock.rx.is_empty());
}

#[test]
fn attachment_cut_short_by_the_peer() {
    let (mut tracker, mut poll) = listen();
    let mut sock = Sock::new();
    sock.rx = encode(T_PING, &[1]);
    sock.rx.extend_from_slice(&[3u8; 9000]);
    sock.rx_closed = true;
    let mut out: Vec<u8> = Vec::new();
    let mut take = |mut msg: Message, sock: &mut Sock| -> Result<Reply, Error> {
        read_body(sock, &mut msg)?;
        copy_attachment(sock, &mut msg, 20_000, &mut out)?;
        Ok(None)
    };
    let eof = Error::Connection(IoKind::UnexpectedEof);
    assert_eq!(iterate(&mut tracker, &mut poll, &mut sock, &mut take), Phase::Failed(eof));
    assert_eq!(out.len(), 8000);
    assert_eq!(tracker.poll_error(), Some(eof));
}

#[test]
fn frames_reach_a_slow_peer_whole_and_in_order() {
    let (mut tracker, mut poll) = listen();
    let mut sock = Sock::new();
    let bodies: Vec<Vec<u8>> = vec![vec![1; 5], vec![2; 30], vec![], vec![4; 17]];
    let mut expected: Vec<u8> = Vec::new();
    let mut ends: Vec<usize> = vec![0];
    for body in &bodies {
        tracker.send(body, T_PING).unwrap();
        expected.extend_from_slice(&encode(T_PING, body));
        ends.push(expected.len());
    }
    sock.room = 0;
    sock.drain = 3;
    let mut rounds = 0;
    while sock.tx.len() < expected.len() {
        sock.room += 2;
        assert_eq!(iterate(&mut tracker, &mut poll, &mut sock, &mut silent), Phase::Sleep);
        assert!(ends.contains(&sock.tx.len()));
        assert_eq!(sock.tx[..], expected[..sock.tx.len()]);
        pause(&mut tracker, &mut poll);
        rounds += 1;
        assert!(rounds < 100);
    }
    assert_eq!(sock.tx, expected);
    assert_eq!(tracker.queued(), 0);
    assert!(poll.outbound().is_none());
    assert_eq!(tracker.sent_bytes(), expected.len() as u64);
}

#[test]
fn a_peer_that_stops_inside_a_frame_ends_the_loop() {
    let (mut tracker, mut poll) = listen();
    let mut sock = Sock::new();
    tracker.send(&[1; 20], T_PING).unwrap();
    tracker.send(&[2; 20], T_PING).unwrap();
    sock.room = 5;
    assert_eq!(
        iterate(&mut tracker, &mut poll, &mut sock, &mut silent),
        Phase::Failed(Error::Timeout)
    );
    assert_eq!(sock.tx, encode(T_PING, &[1; 20])[..5].to_vec());
    assert_eq!(tracker.poll_error(), Some(Error::Timeout));
    assert_eq!(tracker.queued(), 1);
}

#[test]
fn a_reply_never_splits_a_queued_frame() {
    let (mut tracker, mut poll) = listen();
    let mut sock = Sock::new();
    tracker.send(&[1; 20], T_PING).unwrap();
    sock.room = 0;
    assert_eq!(iterate(&mut tracker, &mut poll, &mut sock, &mut echo), Phase::Sleep);
    assert!(sock.tx.is_empty());
    assert_eq!(poll.outbound().unwrap(), &encode(T_PING, &[1; 20])[..]);
    pause(&mut tracker, &mut poll);
    sock.rx = encode(T_ECHO, &[8, 8]);
    sock.room = 9;
    sock.drain = 1;
    assert_eq!(iterate(&mut tracker, &mut poll, &mut sock, &mut echo), Phase::Sleep);
    assert_eq!(sock.tx, encode(T_ECHO, &[8, 8]));
    assert_eq!(poll.outbound().unwrap(), &encode(T_PING, &[1; 20])[..]);
    pause(&mut tracker, &mut poll);
    sock.room = 1;
    assert_eq!(iterate(&mut tracker, &mut poll, &mut sock, &mut echo), Phase::Sleep);
    let mut expected = encode(T_ECHO, &[8, 8]);
    expected.extend_from_slice(&encode(T_PING, &[1; 20]));
    assert_eq!(sock.tx, expected);
    assert!(poll.outbound().is_none());
}

#[test]
fn a_reply_goes_out_before_queued_frames() {
    let (mut tracker, mut poll) = listen();
    let mut sock = Sock::new();
    tracker.send(&[1], T_PING).unwrap();
    sock.rx = encode(T_ECHO, &[8, 8]);
    assert_eq!(iterate(&mut tracker, &mut poll, &mut sock, &mut echo), Phase::Sleep);
    let mut expected = encode(T_ECHO, &[8, 8]);
    expected.extend_from_slice(&encode(T_PING, &[1]));
    assert_eq!(sock.tx, expected);
}

#[test]
fn inbound_frames_reach_the_handler_in_socket_order() {
    let (mut tracker, mut poll) = listen();
    let mut sock = Sock::new();
    for i in 0..5u8 {
        sock.rx.extend_from_slice(&encode(MsgType(i), &vec![i; i as usize]));
    }
    let mut seen: Vec<u8> = Vec::new();
    let mut record = |mut msg: Message, sock: &mut Sock| -> Result<Reply, Error> {
        seen.push(msg.header.msg_type.0);
        let body = read_body(sock, &mut msg)?;
        assert_eq!(body, vec![msg.header.msg_type.0; msg.header.msg_len as usize]);
        Ok(None)
    };
    for _ in 0..5 {
        assert_eq!(iterate(&mut tracker, &mut poll, &mut sock, &mut record), Phase::Sleep);
        pause(&mut tracker, &mut poll);
    }
    assert_eq!(seen, vec![0, 1, 2, 3, 4]);
    assert_eq!(tracker.received_bytes(), (5 * HEADER_LEN + 10) as u64);
}

#[test]
fn a_handler_error_is_surfaced_once() {
    let (mut tracker, mut poll) = listen();
    let mut sock = Sock::new();
    sock.rx = encode(T_PING, &[]);
    let mut fail = |_msg: Message, _sock: &mut Sock| -> Result<Reply, Error> { Err(Error::Handler(5)) };
    assert_eq!(
        iterate(&mut tracker, &mut poll, &mut sock, &mut fail),
        Phase::Failed(Error::Handler(5))
    );
    assert_eq!(tracker.poll_error(), Some(Error::Handler(5)));
    assert_eq!(tracker.poll_error(), None);
}

#[test]
fn a_reply_to_a_peer_that_takes_nothing_times_out() {
    let (mut tracker, mut poll) = listen();
    let mut sock = Sock::new();
    sock.rx = encode(T_ECHO, &[1]);
    sock.room = 3;
    assert_eq!(
        iterate(&mut tracker, &mut poll, &mut sock, &mut echo),
        Phase::Failed(Error::Timeout)
    );
    assert_eq!(sock.tx.len(), 3);
    assert_eq!(tracker.poll_error(), Some(Error::Timeout));
}
