//! The two endpoints of the stream and the handshake that joins them.
//!
//! Every operation here is one step that an endpoint takes on the shared
//! segment: it reads the words of the peer's row, decides, and writes its own
//! row and the ring. A step that has to wait for the peer keeps whatever
//! progress it made and returns `Error::Timeout`; the caller sleeps (see
//! `ExpWait`) and calls again, handing back the progress (`done`) or the
//! builder it got.
use crate::layout::{
    ending_word, Row, Segment, SegmentView, ABORTED, CONSUMER_ALSO_READY,
    DISCONNECTED, HEADER_SIZE, PRODUCER_READY, STREAMING,
};
use crate::ring::{lemma_copy_in_step, ring_copy_in, ring_copy_out, ring_pos};
use vstd::prelude::*;

verus! {

/// The ways a step of the stream can fail.
#[derive(Clone, Copy, Debug, PartialEq, Eq, Structural)]
pub enum Error {
    /// The segment is shorter than the header.
    SegmentTooSmall,
    /// The endpoint's own row was not all zero when it attached.
    HeaderNotPrepared,
    /// `prepare_memory` found an endpoint already attached.
    HeaderInUse,
    /// The rendezvous word held an unexpected value.
    HandshakeFailed,
    /// The two endpoints declared different segment lengths.
    GeometryMismatch,
    /// A status word held a value outside the known codes.
    InvalidStatus(u64),
    /// The peer has gone, or its row no longer describes a live peer.
    PeerDisconnected,
    /// The producer closed the stream and every byte has been read.
    Ended,
    /// The step would have to wait for the peer.
    Timeout,
}

/// The header size that a segment too small for it must at least have.
#[derive(Clone, Copy, Debug, PartialEq, Eq, Structural)]
pub struct MemNotBigEnough(pub u64);

/// The length of the data area of a segment of `len` bytes.
pub fn data_len(len: u64) -> (r: Result<u64, MemNotBigEnough>)
    ensures
        len >= HEADER_SIZE ==> r == Ok::<u64, MemNotBigEnough>((len - HEADER_SIZE) as u64),
        len < HEADER_SIZE ==> r == Err::<u64, MemNotBigEnough>(MemNotBigEnough(HEADER_SIZE)),
{
    if len >= HEADER_SIZE {
        Ok(len - HEADER_SIZE)
    } else {
        Err(MemNotBigEnough(HEADER_SIZE))
    }
}

/// The value to leave in a status word when its owner ends the session with
/// `code`.
fn end_word(word: u64, code: u64) -> (r: u64)
    ensures
        r == ending_word(word, code),
{
    if word == ABORTED || word == DISCONNECTED {
        word
    } else {
        code
    }
}

/* Preparing the header */

/// Whether an endpoint has attached to the segment: attaching writes a
/// non-zero length into the endpoint's row.
pub open spec fn header_in_use(s: SegmentView) -> bool {
    s.producer_row.length != 0 || s.consumer_row.length != 0
}

pub open spec fn zero_row() -> Row {
    Row { status: 0, length: 0, count: 0 }
}

/// What `prepare_memory` does to a segment.
pub open spec fn prepare_step(s: SegmentView) -> (Result<(), Error>, SegmentView) {
    if header_in_use(s) {
        (Err(Error::HeaderInUse), s)
    } else {
        (Ok(()), SegmentView { producer_row: zero_row(), consumer_row: zero_row(), data: s.data })
    }
}

/// Zeroes the header, leaving the data area as it is. Done once per session
/// by the process that created the segment, before either endpoint attaches;
/// fails with `HeaderInUse` once one has.
pub fn prepare_memory(seg: &mut Segment) -> (r: Result<(), Error>)
    ensures
        (r, final(seg)@) == prepare_step(old(seg)@),
{
    if seg.producer_row.length != 0 || seg.consumer_row.length != 0 {
        return Err(Error::HeaderInUse);
    }
    seg.producer_row = Row::zeroed();
    seg.consumer_row = Row::zeroed();
    Ok(())
}

/* Endpoint state */

/// What an endpoint knows: the segment length it declared, its own monotonic
/// count of bytes and the last count it observed from its peer.
pub struct EndpointState {
    pub len: u64,
    pub own: u64,
    pub peer: u64,
}

impl EndpointState {
    /// The length of the data area, the ring.
    pub open spec fn data_len(self) -> int {
        self.len - HEADER_SIZE
    }

    /// Where in the ring the endpoint's next byte goes or comes from.
    pub open spec fn start(self) -> int {
        if self.data_len() == 0 {
            0
        } else {
            self.own as int % self.data_len()
        }
    }

    /// A producer's state: at most a ring's worth of bytes beyond what it
    /// saw read.
    pub open spec fn writer_wf(self) -> bool {
        &&& self.len >= HEADER_SIZE
        &&& self.peer <= self.own
        &&& self.own - self.peer <= self.data_len()
    }

    /// A consumer's state: never beyond what it saw written.
    pub open spec fn reader_wf(self) -> bool {
        &&& self.len >= HEADER_SIZE
        &&& self.own <= self.peer
        &&& self.peer - self.own <= self.data_len()
    }
}

/// The rows of `s` with the producer's status word set to `word`.
pub open spec fn with_producer_status(s: SegmentView, word: u64) -> SegmentView {
    SegmentView {
        producer_row: Row { status: word, ..s.producer_row },
        ..s
    }
}

/// The rows of `s` with the consumer's status word set to `word`.
pub open spec fn with_consumer_status(s: SegmentView, word: u64) -> SegmentView {
    SegmentView {
        consumer_row: Row { status: word, ..s.consumer_row },
        ..s
    }
}

/* Producer handshake */

/// The segment after the producer has attached to it: its row declares the
/// segment's length, a zero count and `ProducerReady`.
pub open spec fn producer_attach_step(s: SegmentView) -> (Result<(), Error>, SegmentView) {
    if !s.producer_row.is_zero() {
        (Err(Error::HeaderNotPrepared), s)
    } else {
        (
            Ok(()),
            SegmentView {
                producer_row: Row { status: PRODUCER_READY, length: s.len() as u64, count: 0 },
                ..s
            },
        )
    }
}

/// One look of the producer at the rendezvous word while it waits for the
/// consumer: `Ok(true)` once the stream is established.
pub open spec fn producer_poll_step(ready: bool, len: u64, s: SegmentView) -> (
    Result<bool, Error>,
    bool,
    SegmentView,
) {
    let word = s.producer_row.status;
    if ready {
        (Ok(true), true, s)
    } else if word == PRODUCER_READY {
        (Ok(false), false, s)
    } else if word == CONSUMER_ALSO_READY {
        if s.consumer_row.length != len {
            (Err(Error::GeometryMismatch), false, with_producer_status(s, ABORTED))
        } else {
            (Ok(true), true, with_producer_status(s, STREAMING))
        }
    } else {
        (Err(Error::HandshakeFailed), false, with_producer_status(s, ending_word(word, ABORTED)))
    }
}

/// A producer that has attached to a segment and waits for the consumer.
pub struct BuildWriter {
    writer: StreamWriter,
    ready: bool,
}

impl BuildWriter {
    /// The producer's state, and whether the handshake has completed.
    pub closed spec fn view(&self) -> (EndpointState, bool) {
        (self.writer@, self.ready)
    }

    /// Attaches the producer to a prepared segment whose length it takes as
    /// the stream's geometry, and announces `ProducerReady`.
    pub fn new(seg: &mut Segment) -> (r: Result<BuildWriter, Error>)
        requires
            old(seg)@.len() <= u64::MAX,
        ensures
            ({
                let (res, s) = producer_attach_step(old(seg)@);
                &&& final(seg)@ == s
                &&& r is Ok <==> res is Ok
                &&& res matches Err(e) ==> r matches Err(e2) && e2 == e
            }),
            r matches Ok(b) ==> b.view() == (
                EndpointState { len: old(seg)@.len() as u64, own: 0, peer: 0 },
                false,
            ),
    {
        if !seg.producer_row.is_cleared() {
            return Err(Error::HeaderNotPrepared);
        }
        let len = seg.len();
        seg.producer_row.length = len;
        seg.producer_row.count = 0;
        seg.producer_row.status = PRODUCER_READY;
        let writer = StreamWriter { len, written: 0, cached_read: 0 };
        Ok(BuildWriter { writer, ready: false })
    }

    /// Looks once at the rendezvous word. `Ok(false)`: the consumer has not
    /// attached yet. `Ok(true)`: the stream is established. On a length that
    /// differs from the producer's, or an unexpected word, the producer
    /// aborts the session.
    pub fn is_ready(&mut self, seg: &mut Segment) -> (r: Result<bool, Error>)
        ensures
            final(self).view().0 == old(self).view().0,
            (r, final(self).view().1, final(seg)@) == producer_poll_step(
                old(self).view().1,
                old(self).view().0.len,
                old(seg)@,
            ),
    {
        if self.ready {
            return Ok(true);
        }
        let word = seg.producer_row.status;
        if word == PRODUCER_READY {
            Ok(false)
        } else if word == CONSUMER_ALSO_READY {
            if seg.consumer_row.length != self.writer.len {
                seg.producer_row.status = ABORTED;
                Err(Error::GeometryMismatch)
            } else {
                seg.producer_row.status = STREAMING;
                self.ready = true;
                Ok(true)
            }
        } else {
            seg.producer_row.status = end_word(word, ABORTED);
            Err(Error::HandshakeFailed)
        }
    }

    /// Completes the handshake and hands over the producer. On failure the
    /// builder comes back with the error: after `Timeout`, while the consumer
    /// has not attached, the caller waits and tries again.
    pub fn blocking_into(self, seg: &mut Segment) -> (r: Result<StreamWriter, (BuildWriter, Error)>)
        ensures
            ({
                let (res, ready, s) = producer_poll_step(self.view().1, self.view().0.len, old(seg)@);
                &&& final(seg)@ == s
                &&& match res {
                    Ok(true) => r matches Ok(w) && w@ == self.view().0,
                    Ok(false) => r matches Err((b, e)) && e == Error::Timeout && b.view()
                        == self.view(),
                    Err(e) => r matches Err((b, e2)) && e2 == e && b.view() == (
                        self.view().0,
                        ready,
                    ),
                }
            }),
    {
        let mut b = self;
        match b.is_ready(seg) {
            Ok(true) => Ok(b.writer),
            Ok(false) => Err((b, Error::Timeout)),
            Err(e) => Err((b, e)),
        }
    }
}

/* Producer */

/// The producer's end of an established stream.
pub struct StreamWriter {
    len: u64,
    written: u64,
    cached_read: u64,
}

impl View for StreamWriter {
    type V = EndpointState;

    closed spec fn view(&self) -> EndpointState {
        EndpointState { len: self.len, own: self.written, peer: self.cached_read }
    }
}


/// The check a producer makes on the consumer's row before it writes. The
/// consumer must be `Streaming`, and its count must lie between what the
/// producer last saw read and what it has written. A consumer that has
/// attached but not yet seen the handshake end (`ConsumerAlsoReady`) is not
/// streaming yet: the producer waits for it (`Timeout`) rather than write.
pub open spec fn writer_check(w: EndpointState, s: SegmentView) -> Option<Error> {
    let st = s.consumer_row.status;
    let pc = s.consumer_row.count;
    if st == STREAMING {
        if w.peer <= pc && pc <= w.own {
            None
        } else {
            Some(Error::PeerDisconnected)
        }
    } else if st == CONSUMER_ALSO_READY {
        Some(Error::Timeout)
    } else if st > DISCONNECTED {
        Some(Error::InvalidStatus(st))
    } else {
        Some(Error::PeerDisconnected)
    }
}

/// The producer's own status word after it stopped with `e`: untouched while
/// it only waits, `Aborted` otherwise.
pub open spec fn writer_end_word(e: Error, word: u64) -> u64 {
    match e {
        Error::Timeout => word,
        _ => ending_word(word, ABORTED),
    }
}

/// How many of the `remaining` bytes fit in the ring when the consumer has
/// read up to `pc`.
pub open spec fn write_room(w: EndpointState, pc: int, remaining: int) -> int {
    let free = w.data_len() - (w.own - pc);
    if remaining <= free {
        remaining
    } else {
        free
    }
}

/// What one step of `write_all` does, with `done` bytes of `buf` already
/// written by earlier steps: it writes as many of the rest as the ring has
/// room for, and returns the new `done`. `Ok` once all of `buf` is written;
/// `Timeout`, with the progress kept, while the ring is full.
pub open spec fn write_step(w: EndpointState, s: SegmentView, buf: Seq<u8>, done: int) -> (
    Result<(), Error>,
    EndpointState,
    SegmentView,
    int,
) {
    match writer_check(w, s) {
        Some(e) => (
            Err(e),
            w,
            with_producer_status(s, writer_end_word(e, s.producer_row.status)),
            done,
        ),
        None => {
            let pc = s.consumer_row.count;
            let k = write_room(w, pc as int, buf.len() - done);
            let own = (w.own + k) as u64;
            let res = if done + k == buf.len() {
                Ok(())
            } else {
                Err(Error::Timeout)
            };
            (
                res,
                EndpointState { len: w.len, own, peer: pc },
                SegmentView {
                    producer_row: Row { count: own, ..s.producer_row },
                    data: ring_copy_in(s.data, w.start(), buf.subrange(done, done + k)),
                    ..s
                },
                done + k,
            )
        },
    }
}

impl StreamWriter {
    /// The total count of bytes written so far.
    pub fn count(&self) -> (r: u64)
        ensures
            r == self@.own,
    {
        self.written
    }

    /// Whether, by the last count seen from the consumer, the ring has room.
    pub fn free_write_space_cached(&self) -> (r: bool)
        requires
            self@.writer_wf(),
        ensures
            r == (self@.own - self@.peer < self@.data_len()),
    {
        self.written - self.cached_read < self.len - HEADER_SIZE
    }

    /// Writes the bytes of `buf` from `*done` on into the ring, as many as it
    /// has room for, publishes the new count and moves `*done` on. Returns
    /// `Ok` once every byte of `buf` is written; `Timeout` while the ring is
    /// full, in which case the caller waits and calls again with the same
    /// `buf` and `done`.
    pub fn write_all(&mut self, seg: &mut Segment, buf: &[u8], done: &mut usize) -> (r: Result<
        (),
        Error,
    >)
        requires
            old(self)@.writer_wf(),
            old(seg)@.len() == old(self)@.len,
            *old(done) <= buf@.len(),
            old(self)@.own + (buf@.len() - *old(done)) <= u64::MAX,
        ensures
            (r, final(self)@, final(seg)@, *final(done) as int) == write_step(
                old(self)@,
                old(seg)@,
                buf@,
                *old(done) as int,
            ),
            final(self)@.writer_wf(),
    {
        let st = seg.consumer_row.status;
        let pc = seg.consumer_row.count;
        if st == CONSUMER_ALSO_READY {
            return Err(Error::Timeout);
        }
        if st != STREAMING {
            seg.producer_row.status = end_word(seg.producer_row.status, ABORTED);
            if st > DISCONNECTED {
                return Err(Error::InvalidStatus(st));
            } else {
                return Err(Error::PeerDisconnected);
            }
        }
        if pc < self.cached_read || pc > self.written {
            seg.producer_row.status = end_word(seg.producer_row.status, ABORTED);
            return Err(Error::PeerDisconnected);
        }
        self.cached_read = pc;
        let d: u64 = self.len - HEADER_SIZE;
        let d0: usize = *done;
        let blen: usize = buf.len();
        let remaining: usize = blen - d0;
        let free: u64 = d - (self.written - pc);
        let n: usize = if remaining as u64 <= free {
            remaining
        } else {
            free as usize
        };
        let start: u64 = if d == 0 {
            0
        } else {
            self.written % d
        };
        let ghost old_data = seg.data@;
        let ghost chunk = buf@.subrange(d0 as int, d0 + n);
        let dl: usize = seg.data.len();
        let mut k: usize = 0;
        let mut pos: u64 = start;
        while k < n
            invariant
                dl == d,
                k <= n,
                n <= d,
                d0 + n <= blen,
                blen == buf@.len(),
                d == seg.data@.len(),
                chunk == buf@.subrange(d0 as int, d0 + n),
                start < d || n == 0,
                pos == ring_pos(start as int, k as int, d as int),
                k < n ==> pos < d,
                seg.data@ == ring_copy_in(old_data, start as int, chunk.take(k as int)),
                seg.producer_row == old(seg).producer_row,
                seg.consumer_row == old(seg).consumer_row,
            decreases n - k,
        {
            proof {
                lemma_copy_in_step(old_data, start as int, chunk, k as int);
            }
            let p: usize = pos as usize;
            seg.data[p] = buf[d0 + k];
            k = k + 1;
            pos = if pos + 1 == d {
                0
            } else {
                pos + 1
            };
        }
        proof {
            assert(chunk.take(n as int) =~= chunk);
            if n == 0 {
                assert(seg.data@ =~= ring_copy_in(old_data, start as int, chunk));
            }
        }
        self.written = self.written + n as u64;
        seg.producer_row.count = self.written;
        *done = d0 + n;
        if d0 + n == buf.len() {
            Ok(())
        } else {
            Err(Error::Timeout)
        }
    }

    /// Ends the session from the producer's side: the consumer reads what is
    /// left in the ring, then `Ended`.
    pub fn close(self, seg: &mut Segment)
        ensures
            final(seg)@ == with_producer_status(
                old(seg)@,
                ending_word(old(seg).producer_row.status, DISCONNECTED),
            ),
    {
        seg.producer_row.status = end_word(seg.producer_row.status, DISCONNECTED);
    }
}

/* Consumer handshake */

/// The segment after the consumer has attached with the segment length `len`
/// as it sees it: its row declares `len`, a zero count and its presence, and
/// the rendezvous word goes from `ProducerReady` to `ConsumerAlsoReady`.
pub open spec fn consumer_attach_step(len: u64, s: SegmentView) -> (Result<(), Error>, SegmentView) {
    if len < HEADER_SIZE {
        (Err(Error::SegmentTooSmall), s)
    } else if !s.consumer_row.is_zero() {
        (Err(Error::HeaderNotPrepared), s)
    } else {
        let joined = SegmentView {
            consumer_row: Row { status: CONSUMER_ALSO_READY, length: len, count: 0 },
            ..s
        };
        if s.producer_row.status == PRODUCER_READY {
            (Ok(()), with_producer_status(joined, CONSUMER_ALSO_READY))
        } else {
            (Err(Error::HandshakeFailed), with_consumer_status(joined, ABORTED))
        }
    }
}

/// One look of the consumer at the rendezvous word while it waits for the
/// producer to accept it: `Ok(true)` once the stream is established.
pub open spec fn consumer_poll_step(ready: bool, len: u64, s: SegmentView) -> (
    Result<bool, Error>,
    bool,
    SegmentView,
) {
    let word = s.producer_row.status;
    let abort = with_consumer_status(s, ending_word(s.consumer_row.status, ABORTED));
    if ready {
        (Ok(true), true, s)
    } else if word == CONSUMER_ALSO_READY {
        (Ok(false), false, s)
    } else if (word == STREAMING || word == ABORTED) && s.producer_row.length != len {
        (Err(Error::GeometryMismatch), false, abort)
    } else if word == STREAMING {
        (Ok(true), true, with_consumer_status(s, STREAMING))
    } else {
        (Err(Error::HandshakeFailed), false, abort)
    }
}

/// A consumer that has attached to a segment and waits for the producer.
pub struct BuildReader {
    reader: StreamReader,
    ready: bool,
}

impl BuildReader {
    /// The consumer's state, and whether the handshake has completed.
    pub closed spec fn view(&self) -> (EndpointState, bool) {
        (self.reader@, self.ready)
    }

    /// Attaches the consumer to a segment of `len` bytes as it has mapped it.
    pub fn new(seg: &mut Segment, len: u64) -> (r: Result<BuildReader, Error>)
        ensures
            ({
                let (res, s) = consumer_attach_step(len, old(seg)@);
                &&& final(seg)@ == s
                &&& r is Ok <==> res is Ok
                &&& res matches Err(e) ==> r matches Err(e2) && e2 == e
            }),
            r matches Ok(b) ==> b.view() == (EndpointState { len, own: 0, peer: 0 }, false),
    {
        if len < HEADER_SIZE {
            return Err(Error::SegmentTooSmall);
        }
        if !seg.consumer_row.is_cleared() {
            return Err(Error::HeaderNotPrepared);
        }
        seg.consumer_row.length = len;
        seg.consumer_row.count = 0;
        seg.consumer_row.status = CONSUMER_ALSO_READY;
        if seg.producer_row.status == PRODUCER_READY {
            seg.producer_row.status = CONSUMER_ALSO_READY;
            let reader = StreamReader { len, read: 0, cached_written: 0 };
            Ok(BuildReader { reader, ready: false })
        } else {
            seg.consumer_row.status = ABORTED;
            Err(Error::HandshakeFailed)
        }
    }

    /// Looks once at the rendezvous word. `Ok(false)`: the producer has not
    /// answered yet. `Ok(true)`: the stream is established.
    pub fn is_ready(&mut self, seg: &mut Segment) -> (r: Result<bool, Error>)
        ensures
            final(self).view().0 == old(self).view().0,
            (r, final(self).view().1, final(seg)@) == consumer_poll_step(
                old(self).view().1,
                old(self).view().0.len,
                old(seg)@,
            ),
    {
        if self.ready {
            return Ok(true);
        }
        let word = seg.producer_row.status;
        if word == CONSUMER_ALSO_READY {
            Ok(false)
        } else if (word == STREAMING || word == ABORTED) && seg.producer_row.length != self.reader.len {
            seg.consumer_row.status = end_word(seg.consumer_row.status, ABORTED);
            Err(Error::GeometryMismatch)
        } else if word == STREAMING {
            seg.consumer_row.status = STREAMING;
            self.ready = true;
            Ok(true)
        } else {
            seg.consumer_row.status = end_word(seg.consumer_row.status, ABORTED);
            Err(Error::HandshakeFailed)
        }
    }

    /// Completes the handshake and hands over the consumer. On failure the
    /// builder comes back with the error: after `Timeout`, while the producer
    /// has not answered, the caller waits and tries again.
    pub fn blocking_into(self, seg: &mut Segment) -> (r: Result<StreamReader, (BuildReader, Error)>)
        ensures
            ({
                let (res, ready, s) = consumer_poll_step(self.view().1, self.view().0.len, old(seg)@);
                &&& final(seg)@ == s
                &&& match res {
                    Ok(true) => r matches Ok(c) && c@ == self.view().0,
                    Ok(false) => r matches Err((b, e)) && e == Error::Timeout && b.view()
                        == self.view(),
                    Err(e) => r matches Err((b, e2)) && e2 == e && b.view() == (
                        self.view().0,
                        ready,
                    ),
                }
            }),
    {
        let mut b = self;
        match b.is_ready(seg) {
            Ok(true) => Ok(b.reader),
            Ok(false) => Err((b, Error::Timeout)),
            Err(e) => Err((b, e)),
        }
    }
}

/* Consumer */

/// The consumer's end of an established stream.
pub struct StreamReader {
    len: u64,
    read: u64,
    cached_written: u64,
}

impl View for StreamReader {
    type V = EndpointState;

    closed spec fn view(&self) -> EndpointState {
        EndpointState { len: self.len, own: self.read, peer: self.cached_written }
    }
}

/// Why a consumer that found no bytes to read stops, by the producer's
/// status word: it waits while the producer streams.
pub open spec fn idle_error(word: u64) -> Error {
    if word == STREAMING {
        Error::Timeout
    } else if word == DISCONNECTED {
        Error::Ended
    } else if word == ABORTED {
        Error::PeerDisconnected
    } else if word > DISCONNECTED {
        Error::InvalidStatus(word)
    } else {
        Error::HandshakeFailed
    }
}

/// The consumer's own status word after it stopped with `e`.
pub open spec fn reader_end_word(e: Error, word: u64) -> u64 {
    match e {
        Error::Timeout => word,
        Error::Ended => ending_word(word, DISCONNECTED),
        _ => ending_word(word, ABORTED),
    }
}

/// What one read step does when the caller wants `want` more bytes: it
/// takes as many of them as the ring holds and returns them. It succeeds
/// when it took all `want` (`exact`), or at least one (not `exact`);
/// otherwise it stops with the error that the producer's status word calls
/// for (`Timeout` while the producer streams), keeping what it took.
pub open spec fn read_step(r: EndpointState, s: SegmentView, want: int, exact: bool) -> (
    Result<(), Error>,
    Seq<u8>,
    EndpointState,
    SegmentView,
) {
    let pc = s.producer_row.count;
    if !(r.peer <= pc && pc - r.own <= r.data_len()) {
        (
            Err(Error::PeerDisconnected),
            Seq::empty(),
            r,
            with_consumer_status(s, ending_word(s.consumer_row.status, ABORTED)),
        )
    } else {
        let avail = pc - r.own;
        let n = if want <= avail {
            want
        } else {
            avail
        };
        let own = (r.own + n) as u64;
        let bytes = ring_copy_out(s.data, r.start(), n);
        let taken = EndpointState { len: r.len, own, peer: pc };
        let moved = SegmentView { consumer_row: Row { count: own, ..s.consumer_row }, ..s };
        let complete = if exact {
            n == want
        } else {
            n > 0 || want == 0
        };
        if complete {
            (Ok(()), bytes, taken, moved)
        } else {
            let e = idle_error(s.producer_row.status);
            (
                Err(e),
                bytes,
                taken,
                with_consumer_status(moved, reader_end_word(e, s.consumer_row.status)),
            )
        }
    }
}

/// Copies `n` bytes of the ring, from index `start` on, into `buf` from
/// index `at` on.
fn copy_out(data: &Vec<u8>, start: usize, n: usize, buf: &mut Vec<u8>, at: usize)
    requires
        at + n <= old(buf)@.len(),
        n <= data@.len(),
        start < data@.len() || n == 0,
    ensures
        final(buf)@ == old(buf)@.take(at as int) + ring_copy_out(data@, start as int, n as int) + old(
            buf,
        )@.skip(at + n),
{
    let dl: usize = data.len();
    let blen: usize = buf.len();
    let mut k: usize = 0;
    let mut pos: usize = start;
    while k < n
        invariant
            dl == data@.len(),
            blen == buf@.len(),
            k <= n,
            at + n <= blen,
            n <= dl,
            buf@.len() == old(buf)@.len(),
            start < dl || n == 0,
            n > 0 ==> pos == ring_pos(start as int, k as int, dl as int),
            k < n ==> pos < dl,
            forall|j: int| 0 <= j < at ==> #[trigger] buf@[j] == old(buf)@[j],
            forall|j: int| 0 <= j < k ==> #[trigger] buf@[at + j] == ring_copy_out(
                data@,
                start as int,
                n as int,
            )[j],
            forall|j: int| at + k <= j < blen ==> #[trigger] buf@[j] == old(buf)@[j],
        decreases n - k,
    {
        buf[at + k] = data[pos];
        k = k + 1;
        pos = if pos + 1 == dl {
            0
        } else {
            pos + 1
        };
    }
    let ghost expect = old(buf)@.take(at as int) + ring_copy_out(data@, start as int, n as int) + old(
        buf,
    )@.skip(at + n);
    assert forall|j: int| 0 <= j < blen implies buf@[j] == expect[j] by {
        if at <= j < at + n {
            assert(buf@[at + (j - at)] == ring_copy_out(data@, start as int, n as int)[j - at]);
        }
    }
    assert(buf@ =~= expect);
}

impl StreamReader {
    /// The total count of bytes read so far.
    pub fn count(&self) -> (r: u64)
        ensures
            r == self@.own,
    {
        self.read
    }

    /// One read step for up to `want` bytes, put into `buf` from `at` on.
    fn take(&mut self, seg: &mut Segment, buf: &mut Vec<u8>, at: usize, want: usize, exact: bool) -> (r:
        (Result<(), Error>, usize))
        requires
            old(self)@.reader_wf(),
            old(seg)@.len() == old(self)@.len,
            at + want <= old(buf)@.len(),
        ensures
            ({
                let (res, bytes, st, sv) = read_step(old(self)@, old(seg)@, want as int, exact);
                &&& final(self)@ == st
                &&& final(seg)@ == sv
                &&& r.0 == res
                &&& r.1 == bytes.len()
                &&& bytes.len() <= want
                &&& final(buf)@ == old(buf)@.take(at as int) + bytes + old(buf)@.skip(
                    at + bytes.len(),
                )
            }),
            final(self)@.reader_wf(),
    {
        let pc = seg.producer_row.count;
        if !(self.cached_written <= pc && pc - self.read <= self.len - HEADER_SIZE) {
            seg.consumer_row.status = end_word(seg.consumer_row.status, ABORTED);
            proof {
                assert(buf@ =~= buf@.take(at as int) + Seq::<u8>::empty() + buf@.skip(at as int));
            }
            return (Err(Error::PeerDisconnected), 0);
        }
        self.cached_written = pc;
        let avail: u64 = pc - self.read;
        let n: usize = if want as u64 <= avail {
            want
        } else {
            avail as usize
        };
        let d: u64 = self.len - HEADER_SIZE;
        let dl: usize = seg.data.len();
        let start: usize = if d == 0 {
            0
        } else {
            (self.read % d) as usize
        };
        copy_out(&seg.data, start, n, buf, at);
        self.read = self.read + n as u64;
        seg.consumer_row.count = self.read;
        let complete = if exact {
            n == want
        } else {
            n > 0 || want == 0
        };
        if complete {
            return (Ok(()), n);
        }
        let word = seg.producer_row.status;
        let e = if word == STREAMING {
            Error::Timeout
        } else if word == DISCONNECTED {
            Error::Ended
        } else if word == ABORTED {
            Error::PeerDisconnected
        } else if word > DISCONNECTED {
            Error::InvalidStatus(word)
        } else {
            Error::HandshakeFailed
        };
        match e {
            Error::Timeout => {},
            Error::Ended => {
                seg.consumer_row.status = end_word(seg.consumer_row.status, DISCONNECTED);
            },
            _ => {
                seg.consumer_row.status = end_word(seg.consumer_row.status, ABORTED);
            },
        }
        (Err(e), n)
    }

    /// Fills `buf` from `*done` on with the next bytes of the stream, as many
    /// as the ring holds, publishes the new count and moves `*done` on.
    /// Returns `Ok` once `buf` is full; while the ring is empty and the
    /// producer streams, `Timeout`, in which case the caller waits and calls
    /// again with the same `buf` and `done`.
    pub fn read_exact(&mut self, seg: &mut Segment, buf: &mut Vec<u8>, done: &mut usize) -> (r:
        Result<(), Error>)
        requires
            old(self)@.reader_wf(),
            old(seg)@.len() == old(self)@.len,
            *old(done) <= old(buf)@.len(),
        ensures
            ({
                let (res, bytes, st, sv) = read_step(
                    old(self)@,
                    old(seg)@,
                    old(buf)@.len() - *old(done),
                    true,
                );
                &&& r == res
                &&& final(self)@ == st
                &&& final(seg)@ == sv
                &&& *final(done) == *old(done) + bytes.len()
                &&& final(buf)@ == old(buf)@.take(*old(done) as int) + bytes + old(buf)@.skip(
                    *old(done) + bytes.len(),
                )
            }),
            final(self)@.reader_wf(),
    {
        let at = *done;
        let want = buf.len() - at;
        let (res, n) = self.take(seg, buf, at, want, true);
        *done = at + n;
        res
    }

    /// Reads as many bytes as the ring holds, up to `buf.len()`, into the
    /// front of `buf`, and returns how many: at least one, unless `buf` is
    /// empty.
    pub fn read_some(&mut self, seg: &mut Segment, buf: &mut Vec<u8>) -> (r: Result<usize, Error>)
        requires
            old(self)@.reader_wf(),
            old(seg)@.len() == old(self)@.len,
        ensures
            ({
                let (res, bytes, st, sv) = read_step(old(self)@, old(seg)@, old(buf)@.len() as int, false);
                &&& final(self)@ == st
                &&& final(seg)@ == sv
                &&& final(buf)@ == bytes + old(buf)@.skip(bytes.len() as int)
                &&& match res {
                    Ok(_) => r == Ok::<usize, Error>(bytes.len() as usize),
                    Err(e) => r == Err::<usize, Error>(e) && bytes.len() == 0,
                }
            }),
            final(self)@.reader_wf(),
    {
        let want = buf.len();
        let ghost before = buf@;
        let (res, n) = self.take(seg, buf, 0, want, false);
        proof {
            assert(before.take(0) + (buf@.take(n as int)) =~= buf@.take(n as int));
        }
        match res {
            Ok(()) => Ok(n),
            Err(e) => Err(e),
        }
    }

    /// Ends the session from the consumer's side: the producer's next write
    /// fails with `PeerDisconnected`.
    pub fn close(self, seg: &mut Segment)
        ensures
            final(seg)@ == with_consumer_status(
                old(seg)@,
                ending_word(old(seg).consumer_row.status, DISCONNECTED),
            ),
    {
        seg.consumer_row.status = end_word(seg.consumer_row.status, DISCONNECTED);
    }
}

} // verus!
