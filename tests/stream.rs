use shm_stream::layout::{Segment, ABORTED, CONSUMER_ALSO_READY, DISCONNECTED, STREAMING};
use shm_stream::stream::{
    data_len, prepare_memory, BuildReader, BuildWriter, Error, MemNotBigEnough, StreamReader,
    StreamWriter,
};

fn session(len: u64) -> (Segment, StreamWriter, StreamReader) {
    let mut seg = Segment::new(len).unwrap();
    prepare_memory(&mut seg).unwrap();
    let bw = BuildWriter::new(&mut seg).unwrap();
    let br = BuildReader::new(&mut seg, len).unwrap();
    let w = match bw.blocking_into(&mut seg) {
        Ok(w) => w,
        Err((_, e)) => panic!("producer handshake failed: {:?}", e),
    };
    let r = match br.blocking_into(&mut seg) {
        Ok(r) => r,
        Err((_, e)) => panic!("consumer handshake failed: {:?}", e),
    };
    (seg, w, r)
}

/// One write step of a whole buffer, from its start.
fn write(w: &mut StreamWriter, seg: &mut Segment, bytes: &[u8]) -> Result<(), Error> {
    let mut done = 0usize;
    w.write_all(seg, bytes, &mut done)
}

/// One read step into a fresh buffer of `n` bytes.
fn read_n(r: &mut StreamReader, seg: &mut Segment, n: usize) -> Result<Vec<u8>, Error> {
    let mut buf = vec![0u8; n];
    let mut done = 0usize;
    r.read_exact(seg, &mut buf, &mut done)?;
    Ok(buf)
}

/// Runs one `write_all` of `payload` against a consumer that calls
/// `read_exact` with chunks of `chunk` bytes, one step of each in turn,
/// until every byte has arrived. Returns the bytes received and how many
/// write steps had to wait.
fn pump(len: u64, payload: &[u8], chunk: usize) -> (Vec<u8>, usize) {
    let (mut seg, mut w, mut r) = session(len);
    let d = len - 128;
    let total = payload.len();
    let mut wdone = 0usize;
    let mut written = false;
    let mut waits = 0usize;
    let mut received: Vec<u8> = Vec::with_capacity(total);
    let mut buf = vec![0u8; usize::min(chunk, total)];
    let mut rdone = 0usize;
    while received.len() < total {
        if !written {
            match w.write_all(&mut seg, payload, &mut wdone) {
                Ok(()) => written = true,
                Err(Error::Timeout) => waits += 1,
                Err(e) => panic!("unexpected {:?}", e),
            }
        }
        let diff = seg.producer_row.count - seg.consumer_row.count;
        assert!(diff <= d);
        match r.read_exact(&mut seg, &mut buf, &mut rdone) {
            Ok(()) => {
                received.extend_from_slice(&buf);
                buf = vec![0u8; usize::min(chunk, total - received.len())];
                rdone = 0;
            }
            Err(Error::Timeout) => {}
            Err(e) => panic!("unexpected {:?}", e),
        }
    }
    assert!(written);
    assert_eq!(wdone, total);
    assert_eq!(w.count(), total as u64);
    assert_eq!(r.count(), total as u64);
    (received, waits)
}

#[test]
fn small_payload_one_shot() {
    let (mut seg, mut w, mut r) = session(256);
    assert_eq!(seg.data.len(), 128);
    write(&mut w, &mut seg, b"hello\n").unwrap();
    let got = read_n(&mut r, &mut seg, 6).unwrap();
    assert_eq!(got, b"hello\n".to_vec());
    assert_eq!(w.count(), 6);
    assert_eq!(r.count(), 6);
    assert_eq!(seg.producer_row.count, 6);
    assert_eq!(seg.consumer_row.count, 6);
    w.close(&mut seg);
    r.close(&mut seg);
    assert_eq!(seg.producer_row.status, DISCONNECTED);
    assert_eq!(seg.consumer_row.status, DISCONNECTED);
}

#[test]
fn payload_larger_than_ring() {
    let payload: Vec<u8> = (0..300u32).map(|i| (i % 256) as u8).collect();
    let (out, waits) = pump(256, &payload, 17);
    assert!(waits > 0);
    assert_eq!(out.len(), 300);
    for (i, b) in out.iter().enumerate() {
        assert_eq!(*b as usize, i % 256);
    }
}

#[test]
fn slow_consumer_backpressure() {
    // A data area of 64 bytes and a mebibyte to carry.
    let total: usize = 1 << 20;
    let payload: Vec<u8> = (0..total).map(|i| ((i * 7 + i / 256) % 251) as u8).collect();
    let (received, waits) = pump(192, &payload, 32);
    assert!(waits > 0);
    let sum_sent: u64 = payload.iter().map(|b| *b as u64).sum();
    let sum_received: u64 = received.iter().map(|b| *b as u64).sum();
    assert_eq!(sum_sent, sum_received);
    assert_eq!(received, payload);
}

#[test]
fn write_longer_than_ring_keeps_progress() {
    let (mut seg, mut w, mut r) = session(128 + 8);
    let payload: Vec<u8> = (1..=20u8).collect();
    let mut done = 0usize;
    assert_eq!(w.write_all(&mut seg, &payload, &mut done), Err(Error::Timeout));
    assert_eq!(done, 8);
    assert_eq!(seg.producer_row.count, 8);
    // The ring is full: a step with nothing read takes nothing.
    assert_eq!(w.write_all(&mut seg, &payload, &mut done), Err(Error::Timeout));
    assert_eq!(done, 8);
    let mut out = vec![0u8; 20];
    let mut rdone = 0usize;
    assert_eq!(r.read_exact(&mut seg, &mut out, &mut rdone), Err(Error::Timeout));
    assert_eq!(rdone, 8);
    assert_eq!(w.write_all(&mut seg, &payload, &mut done), Err(Error::Timeout));
    assert_eq!(done, 16);
    assert_eq!(r.read_exact(&mut seg, &mut out, &mut rdone), Err(Error::Timeout));
    assert_eq!(rdone, 16);
    assert_eq!(w.write_all(&mut seg, &payload, &mut done), Ok(()));
    assert_eq!(done, 20);
    assert_eq!(r.read_exact(&mut seg, &mut out, &mut rdone), Ok(()));
    assert_eq!(out, payload);
}

#[test]
fn no_deadlock_on_partial_room() {
    // D = 128, 100 bytes unread: a 50-byte write fits 28, then the
    // consumer's 120-byte read finds 128 and completes.
    let (mut seg, mut w, mut r) = session(256);
    write(&mut w, &mut seg, &[1u8; 100]).unwrap();
    let more = [2u8; 50];
    let mut done = 0usize;
    assert_eq!(w.write_all(&mut seg, &more, &mut done), Err(Error::Timeout));
    assert_eq!(done, 28);
    let got = read_n(&mut r, &mut seg, 120).unwrap();
    assert_eq!(&got[..100], &[1u8; 100][..]);
    assert_eq!(&got[100..], &[2u8; 20][..]);
    assert_eq!(w.write_all(&mut seg, &more, &mut done), Ok(()));
    assert_eq!(read_n(&mut r, &mut seg, 30).unwrap(), vec![2u8; 30]);
}

#[test]
fn abrupt_producer_drop() {
    let (mut seg, mut w, mut r) = session(256);
    let payload: Vec<u8> = (0..50u8).collect();
    write(&mut w, &mut seg, &payload).unwrap();
    w.close(&mut seg);
    assert_eq!(read_n(&mut r, &mut seg, 50).unwrap(), payload);
    assert_eq!(read_n(&mut r, &mut seg, 1), Err(Error::Ended));
    assert_eq!(seg.consumer_row.status, DISCONNECTED);
}

#[test]
fn handshake_mismatch() {
    let mut seg = Segment::new(4096).unwrap();
    prepare_memory(&mut seg).unwrap();
    let mut bw = BuildWriter::new(&mut seg).unwrap();
    let br = BuildReader::new(&mut seg, 8192).unwrap();
    assert_eq!(bw.is_ready(&mut seg), Err(Error::GeometryMismatch));
    assert!(matches!(br.blocking_into(&mut seg), Err((_, Error::GeometryMismatch))));
    assert_eq!(seg.producer_row.status, ABORTED);
    assert_eq!(seg.consumer_row.status, ABORTED);
    assert!(seg.data.iter().all(|b| *b == 0));
}

#[test]
fn third_party_corruption() {
    let mut seg = Segment::new(256).unwrap();
    prepare_memory(&mut seg).unwrap();
    let bw = BuildWriter::new(&mut seg).unwrap();
    seg.producer_row.status = 99;
    assert!(matches!(BuildReader::new(&mut seg, 256), Err(Error::HandshakeFailed)));
    assert_eq!(seg.consumer_row.status, ABORTED);
    assert!(matches!(bw.blocking_into(&mut seg), Err((_, Error::HandshakeFailed))));
    assert_eq!(seg.producer_row.status, ABORTED);
}

#[test]
fn interleaved_chunks_keep_the_stream() {
    // Chunks of 1 to 2·D bytes, each written to the end, in a scripted
    // interleaving with reads of varying size.
    let d: usize = 16;
    let (mut seg, mut w, mut r) = session(128 + d as u64);
    let mut sent: Vec<u8> = Vec::new();
    let mut received: Vec<u8> = Vec::new();
    let mut next: u8 = 0;
    let mut chunk: Vec<u8> = Vec::new();
    let mut done = 0usize;
    for step in 0..400usize {
        if done == chunk.len() {
            let len = 1 + (step * 5) % (2 * d);
            chunk = (0..len).map(|_| { next = next.wrapping_add(1); next }).collect();
            done = 0;
        }
        let before = done;
        match w.write_all(&mut seg, &chunk, &mut done) {
            Ok(()) | Err(Error::Timeout) => sent.extend_from_slice(&chunk[before..done]),
            Err(e) => panic!("unexpected {:?}", e),
        }
        let mut buf = vec![0u8; 1 + (step * 3) % (2 * d)];
        match r.read_some(&mut seg, &mut buf) {
            Ok(n) => received.extend_from_slice(&buf[..n]),
            Err(Error::Timeout) => {}
            Err(e) => panic!("unexpected {:?}", e),
        }
        assert_eq!(&sent[..received.len()], &received[..]);
        let diff = seg.producer_row.count - seg.consumer_row.count;
        assert!(diff <= d as u64);
    }
    assert!(received.len() > 1000);
}

#[test]
fn counts_never_go_back() {
    let (mut seg, mut w, mut r) = session(128 + 8);
    let mut last = (0u64, 0u64);
    for step in 0..50u8 {
        let _ = write(&mut w, &mut seg, &[step, step]);
        let mut buf = vec![0u8; 3];
        let _ = r.read_some(&mut seg, &mut buf);
        let now = (seg.producer_row.count, seg.consumer_row.count);
        assert!(now.0 >= last.0 && now.1 >= last.1);
        assert!(now.0 - now.1 <= 8);
        last = now;
    }
}

#[test]
fn consumer_close_stops_the_producer() {
    let (mut seg, mut w, r) = session(256);
    r.close(&mut seg);
    assert_eq!(write(&mut w, &mut seg, b"x"), Err(Error::PeerDisconnected));
    assert_eq!(seg.producer_row.status, ABORTED);
}

#[test]
fn producer_abort_reaches_consumer() {
    let (mut seg, mut w, mut r) = session(256);
    write(&mut w, &mut seg, b"ab").unwrap();
    seg.producer_row.status = ABORTED;
    // What is in the ring can still be read.
    assert_eq!(read_n(&mut r, &mut seg, 2).unwrap(), b"ab".to_vec());
    assert_eq!(read_n(&mut r, &mut seg, 1), Err(Error::PeerDisconnected));
    assert_eq!(seg.consumer_row.status, ABORTED);
}

#[test]
fn read_waits_while_streaming() {
    let (mut seg, mut w, mut r) = session(256);
    assert_eq!(read_n(&mut r, &mut seg, 1), Err(Error::Timeout));
    let mut empty: Vec<u8> = Vec::new();
    assert_eq!(r.read_some(&mut seg, &mut empty), Ok(0));
    write(&mut w, &mut seg, b"abc").unwrap();
    let mut buf = vec![0u8; 4];
    let mut done = 0usize;
    assert_eq!(r.read_exact(&mut seg, &mut buf, &mut done), Err(Error::Timeout));
    assert_eq!(done, 3);
    assert_eq!(&buf[..3], b"abc");
    write(&mut w, &mut seg, b"d").unwrap();
    assert_eq!(r.read_exact(&mut seg, &mut buf, &mut done), Ok(()));
    assert_eq!(buf, b"abcd".to_vec());
    assert_eq!(seg.consumer_row.status, STREAMING);
}

#[test]
fn writer_waits_for_consumer_to_stream() {
    let mut seg = Segment::new(256).unwrap();
    prepare_memory(&mut seg).unwrap();
    let bw = BuildWriter::new(&mut seg).unwrap();
    let br = BuildReader::new(&mut seg, 256).unwrap();
    let mut w = match bw.blocking_into(&mut seg) {
        Ok(w) => w,
        Err(_) => panic!("producer handshake failed"),
    };
    assert_eq!(seg.consumer_row.status, CONSUMER_ALSO_READY);
    assert_eq!(write(&mut w, &mut seg, b"x"), Err(Error::Timeout));
    assert_eq!(seg.producer_row.status, STREAMING);
    assert_eq!(w.count(), 0);
    let mut r = match br.blocking_into(&mut seg) {
        Ok(r) => r,
        Err(_) => panic!("consumer handshake failed"),
    };
    write(&mut w, &mut seg, b"x").unwrap();
    assert_eq!(read_n(&mut r, &mut seg, 1).unwrap(), b"x".to_vec());
}

#[test]
fn invalid_status_is_reported() {
    let (mut seg, mut w, mut r) = session(256);
    seg.consumer_row.status = 7;
    assert_eq!(write(&mut w, &mut seg, b"x"), Err(Error::InvalidStatus(7)));
    seg.producer_row.status = 9;
    assert_eq!(read_n(&mut r, &mut seg, 1), Err(Error::InvalidStatus(9)));
}

#[test]
fn corrupted_peer_count_is_refused() {
    let (mut seg, mut w, mut r) = session(256);
    seg.consumer_row.count = 5;
    assert_eq!(write(&mut w, &mut seg, b"x"), Err(Error::PeerDisconnected));
    seg.producer_row.count = 1000;
    assert_eq!(read_n(&mut r, &mut seg, 1), Err(Error::PeerDisconnected));
}

#[test]
fn ring_wraps_around() {
    let (mut seg, mut w, mut r) = session(128 + 10);
    write(&mut w, &mut seg, &[1, 2, 3, 4, 5, 6, 7]).unwrap();
    assert_eq!(read_n(&mut r, &mut seg, 7).unwrap(), vec![1, 2, 3, 4, 5, 6, 7]);
    write(&mut w, &mut seg, &[8, 9, 10, 11, 12, 13]).unwrap();
    assert_eq!(seg.data, vec![11, 12, 13, 4, 5, 6, 7, 8, 9, 10]);
    assert_eq!(read_n(&mut r, &mut seg, 6).unwrap(), vec![8, 9, 10, 11, 12, 13]);
}

#[test]
fn full_ring_then_room() {
    let (mut seg, mut w, mut r) = session(128 + 4);
    write(&mut w, &mut seg, &[1, 2, 3, 4]).unwrap();
    assert!(!w.free_write_space_cached());
    assert_eq!(write(&mut w, &mut seg, &[5]), Err(Error::Timeout));
    assert_eq!(w.count(), 4);
    assert_eq!(read_n(&mut r, &mut seg, 1).unwrap(), vec![1]);
    write(&mut w, &mut seg, &[5]).unwrap();
    assert_eq!(read_n(&mut r, &mut seg, 4).unwrap(), vec![2, 3, 4, 5]);
}

#[test]
fn empty_ring_segment() {
    let (mut seg, mut w, mut r) = session(128);
    assert_eq!(seg.data.len(), 0);
    write(&mut w, &mut seg, &[]).unwrap();
    assert_eq!(write(&mut w, &mut seg, &[1]), Err(Error::Timeout));
    assert_eq!(read_n(&mut r, &mut seg, 0).unwrap(), Vec::<u8>::new());
}

#[test]
fn prepare_twice_then_in_use() {
    let mut seg = Segment::new(256).unwrap();
    seg.producer_row.count = 3;
    seg.consumer_row.status = 2;
    seg.data[0] = 42;
    prepare_memory(&mut seg).unwrap();
    prepare_memory(&mut seg).unwrap();
    assert_eq!(seg.producer_row.count, 0);
    assert_eq!(seg.consumer_row.status, 0);
    assert_eq!(seg.data[0], 42);
    let _bw = BuildWriter::new(&mut seg).unwrap();
    assert_eq!(prepare_memory(&mut seg), Err(Error::HeaderInUse));
}

#[test]
fn attach_needs_prepared_rows() {
    let mut seg = Segment::new(256).unwrap();
    seg.producer_row.count = 1;
    assert!(matches!(BuildWriter::new(&mut seg), Err(Error::HeaderNotPrepared)));
    seg.consumer_row.length = 5;
    assert!(matches!(BuildReader::new(&mut seg, 256), Err(Error::HeaderNotPrepared)));
    assert!(matches!(BuildReader::new(&mut seg, 100), Err(Error::SegmentTooSmall)));
}

#[test]
fn handshake_steps_in_order() {
    let mut seg = Segment::new(300).unwrap();
    prepare_memory(&mut seg).unwrap();
    let mut bw = BuildWriter::new(&mut seg).unwrap();
    assert_eq!(seg.producer_row.length, 300);
    assert_eq!(bw.is_ready(&mut seg), Ok(false));
    let mut br = BuildReader::new(&mut seg, 300).unwrap();
    assert_eq!(seg.producer_row.status, CONSUMER_ALSO_READY);
    assert_eq!(br.is_ready(&mut seg), Ok(false));
    assert_eq!(bw.is_ready(&mut seg), Ok(true));
    assert_eq!(seg.producer_row.status, STREAMING);
    assert_eq!(bw.is_ready(&mut seg), Ok(true));
    assert_eq!(br.is_ready(&mut seg), Ok(true));
    assert_eq!(seg.consumer_row.status, STREAMING);
}

#[test]
fn waiting_producer_times_out_then_retries() {
    let mut seg = Segment::new(256).unwrap();
    prepare_memory(&mut seg).unwrap();
    let bw = BuildWriter::new(&mut seg).unwrap();
    let bw = match bw.blocking_into(&mut seg) {
        Err((b, Error::Timeout)) => b,
        _ => panic!("expected a timeout"),
    };
    let br = BuildReader::new(&mut seg, 256).unwrap();
    let br = match br.blocking_into(&mut seg) {
        Err((b, Error::Timeout)) => b,
        _ => panic!("expected a timeout"),
    };
    let mut w = match bw.blocking_into(&mut seg) {
        Ok(w) => w,
        Err(_) => panic!("retry failed"),
    };
    let mut r = match br.blocking_into(&mut seg) {
        Ok(r) => r,
        Err(_) => panic!("retry failed"),
    };
    write(&mut w, &mut seg, b"ok").unwrap();
    assert_eq!(read_n(&mut r, &mut seg, 2).unwrap(), b"ok".to_vec());
}

#[test]
fn data_len_of_segment() {
    assert_eq!(data_len(256), Ok(128));
    assert_eq!(data_len(128), Ok(0));
    assert_eq!(data_len(127), Err(MemNotBigEnough(128)));
}
