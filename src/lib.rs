//! A single-producer / single-consumer byte stream carried by a shared
//! segment: a header of two cache-line rows, one per endpoint, followed by a
//! ring of bytes. The producer and the consumer agree on the segment's
//! geometry through a handshake on the producer row's status word, then move
//! monotonic byte counters forward, each in its own row only.
pub mod layout;
pub mod ring;
pub mod stream;
pub mod session;
pub mod promise;
pub mod shm;
pub mod uds;
pub mod wait;
