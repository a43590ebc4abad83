//! The shared segment: a header of two cache-line rows followed by the data
//! area that carries the ring.
use vstd::prelude::*;

verus! {

/// Size in bytes of one cache line on the target platform.
pub const CACHE_LINE: u64 = 64;

/// Size in bytes of one header row, padding included.
pub const ROW_SIZE: u64 = 64;

/// Size in bytes of the header: the producer row, then the consumer row.
pub const HEADER_SIZE: u64 = 128;

/// Offset of the producer row in the segment.
pub const PRODUCER_ROW_OFFSET: u64 = 0;

/// Offset of the consumer row in the segment.
pub const CONSUMER_ROW_OFFSET: u64 = 64;

/// Offsets of the three words inside a row.
pub const STATUS_OFFSET: u64 = 0;

pub const LENGTH_OFFSET: u64 = 8;

pub const COUNT_OFFSET: u64 = 16;

/// Width in bytes of one header word.
pub const WORD_SIZE: u64 = 8;

/// Status codes carried in a row's `status` word.
pub const PRODUCER_READY: u64 = 0;

pub const CONSUMER_ALSO_READY: u64 = 1;

pub const STREAMING: u64 = 2;

pub const ABORTED: u64 = 3;

pub const DISCONNECTED: u64 = 4;

/// The states of the handshake and of the stream.
#[derive(Clone, Copy, Debug, PartialEq, Eq, Structural)]
pub enum Status {
    ProducerReady,
    ConsumerAlsoReady,
    Streaming,
    Aborted,
    Disconnected,
}

/// The status that a code stands for, if it stands for one.
pub open spec fn status_of(code: u64) -> Option<Status> {
    if code == PRODUCER_READY {
        Some(Status::ProducerReady)
    } else if code == CONSUMER_ALSO_READY {
        Some(Status::ConsumerAlsoReady)
    } else if code == STREAMING {
        Some(Status::Streaming)
    } else if code == ABORTED {
        Some(Status::Aborted)
    } else if code == DISCONNECTED {
        Some(Status::Disconnected)
    } else {
        None
    }
}

/// A status word that a session has ended on.
pub open spec fn is_terminal_code(code: u64) -> bool {
    code == ABORTED || code == DISCONNECTED
}

/// The value an endpoint leaves in its own status word when it ends the
/// session with `code`: a word that is already terminal is not touched again.
pub open spec fn ending_word(word: u64, code: u64) -> u64 {
    if is_terminal_code(word) {
        word
    } else {
        code
    }
}

impl Status {
    pub open spec fn spec_code(self) -> u64 {
        match self {
            Status::ProducerReady => PRODUCER_READY,
            Status::ConsumerAlsoReady => CONSUMER_ALSO_READY,
            Status::Streaming => STREAMING,
            Status::Aborted => ABORTED,
            Status::Disconnected => DISCONNECTED,
        }
    }

    /// The code that stands for this status in a status word.
    pub fn code(self) -> (r: u64)
        ensures
            r == self.spec_code(),
            status_of(r) == Some(self),
    {
        match self {
            Status::ProducerReady => PRODUCER_READY,
            Status::ConsumerAlsoReady => CONSUMER_ALSO_READY,
            Status::Streaming => STREAMING,
            Status::Aborted => ABORTED,
            Status::Disconnected => DISCONNECTED,
        }
    }

    /// The status that a code stands for; `None` for a code outside the set.
    pub fn from_code(code: u64) -> (r: Option<Status>)
        ensures
            r == status_of(code),
            r is None <==> code > DISCONNECTED,
            r matches Some(s) ==> s.spec_code() == code,
    {
        if code == PRODUCER_READY {
            Some(Status::ProducerReady)
        } else if code == CONSUMER_ALSO_READY {
            Some(Status::ConsumerAlsoReady)
        } else if code == STREAMING {
            Some(Status::Streaming)
        } else if code == ABORTED {
            Some(Status::Aborted)
        } else if code == DISCONNECTED {
            Some(Status::Disconnected)
        } else {
            None
        }
    }

    /// Whether the session has ended in this status.
    pub fn is_terminal(self) -> (r: bool)
        ensures
            r == is_terminal_code(self.spec_code()),
    {
        match self {
            Status::Aborted | Status::Disconnected => true,
            _ => false,
        }
    }
}

/// One endpoint's row of the header: its three words. The padding that
/// fills the row up to `ROW_SIZE` bytes carries nothing.
#[derive(Clone, Copy, Debug, PartialEq, Eq, Structural)]
pub struct Row {
    pub status: u64,
    pub length: u64,
    pub count: u64,
}

impl Row {
    pub open spec fn is_zero(self) -> bool {
        self.status == 0 && self.length == 0 && self.count == 0
    }

    /// A row with every word zero.
    pub fn zeroed() -> (r: Row)
        ensures
            r.is_zero(),
    {
        Row { status: 0, length: 0, count: 0 }
    }

    /// Whether every word of the row is zero.
    pub fn is_cleared(&self) -> (r: bool)
        ensures
            r == self.is_zero(),
    {
        self.status == 0 && self.length == 0 && self.count == 0
    }
}

/// What a segment holds: the two rows of the header and the data area.
pub struct SegmentView {
    pub producer_row: Row,
    pub consumer_row: Row,
    pub data: Seq<u8>,
}

impl SegmentView {
    /// The segment's length in bytes, header included.
    pub open spec fn len(self) -> int {
        HEADER_SIZE + self.data.len()
    }
}

/// A shared segment of `HEADER_SIZE + data.len()` bytes.
pub struct Segment {
    pub producer_row: Row,
    pub consumer_row: Row,
    pub data: Vec<u8>,
}

impl View for Segment {
    type V = SegmentView;

    open spec fn view(&self) -> SegmentView {
        SegmentView { producer_row: self.producer_row, consumer_row: self.consumer_row, data: self.data@ }
    }
}

/// The data area's length for a segment of `len` bytes, if the header fits.
pub open spec fn data_len_of(len: int) -> Option<int> {
    if len >= HEADER_SIZE {
        Some(len - HEADER_SIZE)
    } else {
        None
    }
}

impl Segment {
    /// A freshly created segment of `len` bytes: every byte zero. `None`
    /// when `len` cannot hold the header.
    pub fn new(len: u64) -> (r: Option<Segment>)
        requires
            len <= usize::MAX,
        ensures
            r is None <==> len < HEADER_SIZE,
            r matches Some(s) ==> {
                &&& s@.len() == len
                &&& s.producer_row.is_zero()
                &&& s.consumer_row.is_zero()
                &&& forall|i: int| 0 <= i < s.data@.len() ==> s.data@[i] == 0
            },
    {
        if len < HEADER_SIZE {
            return None;
        }
        let n = (len - HEADER_SIZE) as usize;
        let mut data: Vec<u8> = Vec::new();
        let mut i: usize = 0;
        while i < n
            invariant
                i <= n,
                data@.len() == i,
                forall|j: int| 0 <= j < i ==> data@[j] == 0,
            decreases n - i,
        {
            data.push(0);
            i = i + 1;
        }
        Some(Segment { producer_row: Row::zeroed(), consumer_row: Row::zeroed(), data })
    }

    /// The segment's length in bytes, header included.
    pub fn len(&self) -> (r: u64)
        requires
            self@.len() <= u64::MAX,
        ensures
            r == self@.len(),
    {
        HEADER_SIZE + self.data.len() as u64
    }
}

/// The little-endian bytes of a word.
pub open spec fn word_bytes(w: u64) -> Seq<u8> {
    Seq::new(8, |i: int| ((w as int / pow256(i)) % 256) as u8)
}

pub open spec fn pow256(i: int) -> int
    decreases i,
{
    if i <= 0 {
        1
    } else {
        256 * pow256(i - 1)
    }
}

/// The bytes of one row: status, length and count, then zero padding.
pub open spec fn row_bytes(r: Row) -> Seq<u8> {
    word_bytes(r.status) + word_bytes(r.length) + word_bytes(r.count) + Seq::new(
        (ROW_SIZE - 3 * WORD_SIZE) as nat,
        |i: int| 0u8,
    )
}

/// The bytes of the header as laid out at the start of the segment.
pub open spec fn header_bytes(s: SegmentView) -> Seq<u8> {
    row_bytes(s.producer_row) + row_bytes(s.consumer_row)
}

/// Appends the little-endian bytes of `w` to `out`.
fn push_word(out: &mut Vec<u8>, w: u64)
    ensures
        final(out)@ == old(out)@ + word_bytes(w),
{
    let ghost start = old(out)@;
    let mut i: u64 = 0;
    let mut p: u64 = 1;
    while i < 8
        invariant
            i <= 8,
            i < 8 ==> p == pow256(i as int),
            1 <= p,
            i < 7 ==> p <= 0x1000000000000,
            out@.len() == start.len() + i,
            out@.subrange(0, start.len() as int) == start,
            forall|j: int|
                0 <= j < i ==> #[trigger] out@[start.len() + j] == word_bytes(w)[j],
        decreases 8 - i,
    {
        proof {
            lemma_pow256_values();
        }
        out.push(((w / p) % 256) as u8);
        if i < 7 {
            p = p * 256;
        }
        i = i + 1;
        proof {
            lemma_pow256_values();
        }
    }
    assert forall|k: int| 0 <= k < out@.len() implies out@[k] == (start + word_bytes(w))[k] by {
        if k < start.len() {
            assert(out@[k] == out@.subrange(0, start.len() as int)[k]);
        } else {
            assert(out@[start.len() + (k - start.len())] == word_bytes(w)[k - start.len()]);
        }
    }
    assert(out@ =~= start + word_bytes(w));
}

proof fn lemma_pow256_values()
    ensures
        pow256(0) == 1,
        pow256(1) == 0x100,
        pow256(2) == 0x10000,
        pow256(3) == 0x1000000,
        pow256(4) == 0x100000000,
        pow256(5) == 0x10000000000,
        pow256(6) == 0x1000000000000,
        pow256(7) == 0x100000000000000,
{
    reveal_with_fuel(pow256, 8);
}

/// The bytes of the header as the segment lays them out: each row's three
/// words, little-endian, then zero padding up to the row's full size.
pub fn encode_header(seg: &Segment) -> (r: Vec<u8>)
    ensures
        r@ == header_bytes(seg@),
{
    let mut out: Vec<u8> = Vec::new();
    let rows = [seg.producer_row, seg.consumer_row];
    let mut k: usize = 0;
    while k < 2
        invariant
            k <= 2,
            rows@ == seq![seg.producer_row, seg.consumer_row],
            k == 0 ==> out@ == Seq::<u8>::empty(),
            k == 1 ==> out@ == row_bytes(seg.producer_row),
            k == 2 ==> out@ == header_bytes(seg@),
        decreases 2 - k,
    {
        let row = rows[k];
        let ghost before = out@;
        push_word(&mut out, row.status);
        push_word(&mut out, row.length);
        push_word(&mut out, row.count);
        let mut pad: u64 = 0;
        while pad < ROW_SIZE - 3 * WORD_SIZE
            invariant
                pad <= ROW_SIZE - 3 * WORD_SIZE,
                out@ == before + word_bytes(row.status) + word_bytes(row.length) + word_bytes(
                    row.count,
                ) + Seq::new(pad as nat, |i: int| 0u8),
            decreases ROW_SIZE - 3 * WORD_SIZE - pad,
        {
            out.push(0);
            proof {
                assert(Seq::new((pad + 1) as nat, |i: int| 0u8) =~= Seq::new(pad as nat, |i: int| 0u8).push(0u8));
            }
            pad = pad + 1;
        }
        assert(out@ =~= before + row_bytes(row));
        k = k + 1;
    }
    out
}

/// The header's rows each fill exactly one cache line, and the two lie on
/// distinct lines: the producer's words in the first, the consumer's in the
/// second.
pub proof fn lemma_rows_on_distinct_cache_lines(s: SegmentView)
    ensures
        ROW_SIZE == CACHE_LINE,
        HEADER_SIZE == 2 * ROW_SIZE,
        PRODUCER_ROW_OFFSET % CACHE_LINE == 0,
        CONSUMER_ROW_OFFSET % CACHE_LINE == 0,
        PRODUCER_ROW_OFFSET / CACHE_LINE != CONSUMER_ROW_OFFSET / CACHE_LINE,
        CONSUMER_ROW_OFFSET == PRODUCER_ROW_OFFSET + ROW_SIZE,
        STATUS_OFFSET + WORD_SIZE == LENGTH_OFFSET,
        LENGTH_OFFSET + WORD_SIZE == COUNT_OFFSET,
        COUNT_OFFSET + WORD_SIZE <= ROW_SIZE,
        row_bytes(s.producer_row).len() == ROW_SIZE,
        header_bytes(s).len() == HEADER_SIZE,
        header_bytes(s).subrange(PRODUCER_ROW_OFFSET as int, (PRODUCER_ROW_OFFSET + ROW_SIZE) as int)
            == row_bytes(s.producer_row),
        header_bytes(s).subrange(CONSUMER_ROW_OFFSET as int, (CONSUMER_ROW_OFFSET + ROW_SIZE) as int)
            == row_bytes(s.consumer_row),
        row_bytes(s.consumer_row).subrange(STATUS_OFFSET as int, (STATUS_OFFSET + WORD_SIZE) as int)
            == word_bytes(s.consumer_row.status),
        row_bytes(s.consumer_row).subrange(LENGTH_OFFSET as int, (LENGTH_OFFSET + WORD_SIZE) as int)
            == word_bytes(s.consumer_row.length),
        row_bytes(s.consumer_row).subrange(COUNT_OFFSET as int, (COUNT_OFFSET + WORD_SIZE) as int)
            == word_bytes(s.consumer_row.count),
{
    assert(header_bytes(s).subrange(0, 64) =~= row_bytes(s.producer_row));
    assert(header_bytes(s).subrange(64, 128) =~= row_bytes(s.consumer_row));
    let r = s.consumer_row;
    assert(row_bytes(r).subrange(0, 8) =~= word_bytes(r.status));
    assert(row_bytes(r).subrange(8, 16) =~= word_bytes(r.length));
    assert(row_bytes(r).subrange(16, 24) =~= word_bytes(r.count));
}

} // verus!
