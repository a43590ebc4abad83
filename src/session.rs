//! What holds of a session as a whole: the producer, the consumer and the
//! segment they share, whatever order their steps come in.
use crate::layout::{
    ending_word, is_terminal_code, SegmentView, ABORTED, DISCONNECTED, HEADER_SIZE, STREAMING,
};
use crate::ring::{
    lemma_mod_step, lemma_offset_before_counter, lemma_offset_of_counter, ring_copy_in,
    ring_copy_out, ring_offset,
};
use crate::stream::{
    consumer_attach_step, consumer_poll_step, header_in_use, prepare_step, producer_attach_step,
    producer_poll_step, read_step, with_consumer_status, with_producer_status, write_step, writer_check,
    EndpointState, Error,
};
use vstd::prelude::*;

verus! {

/// The producer `w`, the consumer `r` and the segment `s` of one session, in
/// which the producer has written `sent` and the consumer has read
/// `received`: the counters in the rows are the endpoints' own, the consumer
/// has read a prefix of what was written, and the ring holds every byte
/// written and not yet read, each at its counter's index.
pub open spec fn linked(
    w: EndpointState,
    r: EndpointState,
    s: SegmentView,
    sent: Seq<u8>,
    received: Seq<u8>,
) -> bool {
    let d = w.data_len();
    &&& w.len == r.len
    &&& s.len() == w.len
    &&& w.writer_wf()
    &&& r.reader_wf()
    &&& s.producer_row.count == w.own
    &&& s.consumer_row.count == r.own
    &&& w.peer <= r.own <= w.own
    &&& r.peer <= w.own
    &&& w.own - r.own <= d
    &&& sent.len() == w.own
    &&& received.len() == r.own
    &&& received == sent.take(r.own as int)
    &&& forall|i: int| r.own <= i < w.own ==> s.data[#[trigger] (i % d)] == sent[i]
}

/// Where a session starts: both endpoints fresh from the handshake, both
/// counters zero.
pub proof fn lemma_linked_at_start(w: EndpointState, r: EndpointState, s: SegmentView)
    requires
        w == r,
        w.len >= HEADER_SIZE,
        s.len() == w.len,
        w.own == 0 && w.peer == 0,
        s.producer_row.count == 0,
        s.consumer_row.count == 0,
    ensures
        linked(w, r, s, Seq::empty(), Seq::empty()),
{
    assert(Seq::<u8>::empty().take(0) =~= Seq::<u8>::empty());
}

/// A status word that changes, as when an endpoint closes or aborts, leaves
/// the stream's bytes where they are.
pub proof fn lemma_linked_status_change(
    w: EndpointState,
    r: EndpointState,
    s: SegmentView,
    sent: Seq<u8>,
    received: Seq<u8>,
    word: u64,
)
    requires
        linked(w, r, s, sent, received),
    ensures
        linked(w, r, with_producer_status(s, word), sent, received),
        linked(w, r, with_consumer_status(s, word), sent, received),
{
}

/// A producer's `write_all` step in a session, `done` bytes of `buf` in:
/// the bytes it writes are the next ones of `buf` and follow what was sent
/// before, so that steps on the same `buf` from `done == 0` until `Ok` send
/// exactly `buf`. The producer's count never goes back.
pub proof fn lemma_write_keeps_link(
    w: EndpointState,
    r: EndpointState,
    s: SegmentView,
    sent: Seq<u8>,
    received: Seq<u8>,
    buf: Seq<u8>,
    done: int,
)
    requires
        linked(w, r, s, sent, received),
        0 <= done <= buf.len(),
        w.own + (buf.len() - done) <= u64::MAX,
    ensures
        ({
            let (res, w2, s2, done2) = write_step(w, s, buf, done);
            &&& done <= done2 <= buf.len()
            &&& w2.own == w.own + (done2 - done)
            &&& res is Ok ==> done2 == buf.len()
            &&& linked(w2, r, s2, sent + buf.subrange(done, done2), received)
        }),
{
    let (res, w2, s2, done2) = write_step(w, s, buf, done);
    let d = w.data_len();
    let chunk = buf.subrange(done, done2);
    let sent2 = sent + chunk;
    if writer_check(w, s) is Some {
        assert(sent2 =~= sent);
    } else {
        let pc = s.consumer_row.count;
        assert(pc == r.own);
        assert(chunk.len() <= d - (w.own - r.own));
        assert(received =~= sent2.take(r.own as int));
        if chunk.len() > 0 {
            assert(d > 0);
            assert forall|i: int| r.own <= i < w2.own implies s2.data[#[trigger] (i % d)]
                == sent2[i] by {
                assert(s2.data == ring_copy_in(s.data, w.start(), chunk));
                assert(s.data.len() == d);
                if i < w.own {
                    lemma_offset_before_counter(w.own as int, i, d);
                    assert(ring_offset(i % d, w.own as int % d, d) >= chunk.len());
                } else {
                    lemma_offset_of_counter(w.own as int, i, d);
                }
            }
        } else {
            assert(chunk =~= Seq::<u8>::empty());
            assert(sent2 =~= sent);
            assert(s2.data =~= s.data);
        }
    }
}

/// A consumer's read step in a session: the bytes it takes are the next
/// ones of what was sent, so that what it has received is always a prefix
/// of what was sent; the consumer's count never goes back.
pub proof fn lemma_read_keeps_link(
    w: EndpointState,
    r: EndpointState,
    s: SegmentView,
    sent: Seq<u8>,
    received: Seq<u8>,
    want: int,
    exact: bool,
)
    requires
        linked(w, r, s, sent, received),
        want >= 0,
    ensures
        ({
            let (res, bytes, r2, s2) = read_step(r, s, want, exact);
            &&& r2.own == r.own + bytes.len()
            &&& bytes.len() <= want
            &&& bytes == sent.subrange(r.own as int, r.own + bytes.len())
            &&& linked(w, r2, s2, sent, received + bytes)
        }),
{
    let (res, bytes, r2, s2) = read_step(r, s, want, exact);
    let d = w.data_len();
    let n = bytes.len() as int;
    assert(n <= w.own - r.own);
    if n > 0 {
        assert(d > 0);
        assert forall|j: int| 0 <= j < n implies #[trigger] bytes[j] == sent[r.own + j] by {
            lemma_mod_step(r.own as int, j, d);
            assert(bytes == ring_copy_out(s.data, r.start(), n));
            assert(s.data[(r.own + j) % d] == sent[r.own + j]);
        }
    }
    assert(bytes =~= sent.subrange(r.own as int, r.own + n));
    assert(received + bytes =~= sent.take(r2.own as int));
}

/// Neither side waits on the other for ever: while both stream, a write
/// that has bytes left stops with `Timeout` only when the ring is full, a
/// read that wants bytes stops with `Timeout` only when the ring is empty,
/// and, as the ring is never both, one of the two makes progress.
pub proof fn lemma_one_side_progresses(
    w: EndpointState,
    r: EndpointState,
    s: SegmentView,
    sent: Seq<u8>,
    received: Seq<u8>,
    buf: Seq<u8>,
    done: int,
    want: int,
    exact: bool,
)
    requires
        linked(w, r, s, sent, received),
        s.producer_row.status == STREAMING,
        s.consumer_row.status == STREAMING,
        0 <= done < buf.len(),
        w.own + (buf.len() - done) <= u64::MAX,
        want > 0,
    ensures
        ({
            let (wres, w2, s2, done2) = write_step(w, s, buf, done);
            let (rres, bytes, r2, s3) = read_step(r, s, want, exact);
            &&& wres == Err::<(), Error>(Error::Timeout) ==> w2.own - r.own == w.data_len()
            &&& w.own - r.own < w.data_len() ==> done2 > done
            &&& rres == Err::<(), Error>(Error::Timeout) ==> r2.own == w.own
            &&& w.own > r.own ==> bytes.len() > 0
            &&& w.data_len() > 0 ==> (done2 > done || bytes.len() > 0)
            &&& wres is Ok || wres == Err::<(), Error>(Error::Timeout)
            &&& rres is Ok || rres == Err::<(), Error>(Error::Timeout)
        }),
{
}

/// Byte-stream fidelity: once the consumer has read as many bytes as the
/// producer wrote, it has received exactly what was sent, in order.
pub proof fn lemma_received_all_sent(
    w: EndpointState,
    r: EndpointState,
    s: SegmentView,
    sent: Seq<u8>,
    received: Seq<u8>,
)
    requires
        linked(w, r, s, sent, received),
        received.len() == sent.len(),
    ensures
        received == sent,
{
    assert(sent.take(sent.len() as int) =~= sent);
}

/// No byte lost or duplicated: what the consumer has received is the prefix
/// of what the producer sent of the same length.
pub proof fn lemma_received_is_prefix(
    w: EndpointState,
    r: EndpointState,
    s: SegmentView,
    sent: Seq<u8>,
    received: Seq<u8>,
)
    requires
        linked(w, r, s, sent, received),
    ensures
        received.len() <= sent.len(),
        received == sent.subrange(0, received.len() as int),
{
}

/// The counters published in the rows never differ by more than the ring's
/// length, and the consumer's is never ahead.
pub proof fn lemma_counts_bounded(
    w: EndpointState,
    r: EndpointState,
    s: SegmentView,
    sent: Seq<u8>,
    received: Seq<u8>,
)
    requires
        linked(w, r, s, sent, received),
    ensures
        0 <= s.producer_row.count - s.consumer_row.count <= s.data.len(),
{
}

/// Geometry enforcement: when the consumer attaches with a segment length
/// other than the producer's, both endpoints fail with `GeometryMismatch`,
/// both rows end `Aborted`, and the ring is never touched.
pub proof fn lemma_geometry_mismatch(s: SegmentView, len: u64)
    requires
        s.producer_row.is_zero(),
        s.consumer_row.is_zero(),
        s.len() <= u64::MAX,
        len >= HEADER_SIZE,
        len != s.len(),
    ensures
        ({
            let (a, s1) = producer_attach_step(s);
            let (b, s2) = consumer_attach_step(len, s1);
            let (p, p_ready, s3) = producer_poll_step(false, s.len() as u64, s2);
            let (c, c_ready, s4) = consumer_poll_step(false, len, s3);
            &&& a is Ok && b is Ok
            &&& p == Err::<bool, Error>(Error::GeometryMismatch)
            &&& c == Err::<bool, Error>(Error::GeometryMismatch)
            &&& s4.producer_row.status == ABORTED
            &&& s4.consumer_row.status == ABORTED
            &&& s4.data == s.data
        }),
{
}

/// Termination reaches the consumer: once the producer has closed, a read
/// that finds too few bytes in the ring ends with `Ended`, or with
/// `PeerDisconnected` if the producer had aborted first.
pub proof fn lemma_producer_close_ends_reader(r: EndpointState, s: SegmentView, want: int, exact: bool)
    requires
        r.reader_wf(),
        r.peer <= s.producer_row.count,
        s.producer_row.count - r.own < want,
        s.producer_row.count - r.own <= r.data_len(),
        exact || s.producer_row.count == r.own,
    ensures
        ({
            let closed = with_producer_status(
                s,
                ending_word(s.producer_row.status, DISCONNECTED),
            );
            let (res, bytes, r2, s2) = read_step(r, closed, want, exact);
            &&& res == Err::<(), Error>(Error::Ended) || res == Err::<(), Error>(
                Error::PeerDisconnected,
            )
            &&& is_terminal_code(s2.consumer_row.status)
        }),
{
}

/// Termination reaches the producer: once the consumer has closed, the
/// producer's next write fails with `PeerDisconnected`.
pub proof fn lemma_consumer_close_ends_writer(
    w: EndpointState,
    s: SegmentView,
    buf: Seq<u8>,
    done: int,
)
    ensures
        ({
            let closed = with_consumer_status(
                s,
                ending_word(s.consumer_row.status, DISCONNECTED),
            );
            let (res, w2, s2, done2) = write_step(w, closed, buf, done);
            &&& res == Err::<(), Error>(Error::PeerDisconnected)
            &&& is_terminal_code(s2.producer_row.status)
        }),
{
}

/// Preparing is idempotent before any endpoint attaches, and refused after.
pub proof fn lemma_prepare_idempotent(s: SegmentView, len: u64)
    requires
        !header_in_use(s),
        s.len() <= u64::MAX,
    ensures
        ({
            let (a, s1) = prepare_step(s);
            let (b, s2) = prepare_step(s1);
            &&& a is Ok && b is Ok
            &&& s2 == s1
            &&& s2.producer_row.is_zero() && s2.consumer_row.is_zero()
            &&& s2.data == s.data
        }),
        ({
            let (_, s1) = prepare_step(s);
            let (_, s2) = producer_attach_step(s1);
            prepare_step(s2).0 == Err::<(), Error>(Error::HeaderInUse)
        }),
        len >= HEADER_SIZE ==> ({
            let (_, s1) = prepare_step(s);
            let (_, s2) = consumer_attach_step(len, s1);
            prepare_step(s2).0 == Err::<(), Error>(Error::HeaderInUse)
        }),
{
}

/// A handshake between a producer and a consumer that agree on the
/// segment's length establishes the stream on both sides, and the session
/// then starts with nothing sent and nothing received.
pub proof fn lemma_handshake_starts_session(s: SegmentView)
    requires
        !header_in_use(s),
        s.len() <= u64::MAX,
    ensures
        ({
            let len = s.len() as u64;
            let start = EndpointState { len, own: 0, peer: 0 };
            let (_, s0) = prepare_step(s);
            let (a, s1) = producer_attach_step(s0);
            let (b, s2) = consumer_attach_step(len, s1);
            let (p, p_ready, s3) = producer_poll_step(false, len, s2);
            let (c, c_ready, s4) = consumer_poll_step(false, len, s3);
            &&& a is Ok && b is Ok
            &&& p == Ok::<bool, Error>(true) && p_ready
            &&& c == Ok::<bool, Error>(true) && c_ready
            &&& linked(start, start, s4, Seq::empty(), Seq::empty())
        }),
{
    let len = s.len() as u64;
    let start = EndpointState { len, own: 0, peer: 0 };
    let (_, s0) = prepare_step(s);
    let (a, s1) = producer_attach_step(s0);
    let (b, s2) = consumer_attach_step(len, s1);
    let (p, p_ready, s3) = producer_poll_step(false, len, s2);
    let (c, c_ready, s4) = consumer_poll_step(false, len, s3);
    lemma_linked_at_start(start, start, s4);
}

} // verus!
