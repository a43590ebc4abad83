//! Arithmetic of the ring: monotonic byte counters reduced onto a data area
//! of `d` bytes.
use vstd::arithmetic::div_mod::{lemma_add_mod_noop, lemma_mod_add_multiples_vanish, lemma_small_mod};
use vstd::prelude::*;

verus! {

/// Index in the data area of the byte `k` places after the index `start`.
pub open spec fn ring_pos(start: int, k: int, d: int) -> int {
    if start + k < d {
        start + k
    } else {
        start + k - d
    }
}

/// How many places after `start` the index `idx` comes, going round the ring.
pub open spec fn ring_offset(idx: int, start: int, d: int) -> int {
    if idx >= start {
        idx - start
    } else {
        idx + d - start
    }
}

/// The data area after `buf` has been copied into it from `start` on,
/// wrapping round at its end; every other byte keeps its value.
pub open spec fn ring_copy_in(data: Seq<u8>, start: int, buf: Seq<u8>) -> Seq<u8> {
    Seq::new(
        data.len(),
        |idx: int|
            if ring_offset(idx, start, data.len() as int) < buf.len() {
                buf[ring_offset(idx, start, data.len() as int)]
            } else {
                data[idx]
            },
    )
}

/// The `n` bytes of the data area from `start` on, wrapping round at its end.
pub open spec fn ring_copy_out(data: Seq<u8>, start: int, n: int) -> Seq<u8> {
    Seq::new(n as nat, |j: int| data[ring_pos(start, j, data.len() as int)])
}

/// Going `k < d` places on from a counter moves its index on the ring by `k`.
pub proof fn lemma_mod_step(a: int, k: int, d: int)
    requires
        d > 0,
        a >= 0,
        0 <= k < d,
    ensures
        (a + k) % d == ring_pos(a % d, k, d),
        0 <= a % d < d,
{
    lemma_add_mod_noop(a, k, d);
    lemma_small_mod(k as nat, d as nat);
    let m = a % d;
    assert(0 <= m < d);
    if m + k < d {
        lemma_small_mod((m + k) as nat, d as nat);
    } else {
        lemma_mod_add_multiples_vanish(m + k - d, d);
        lemma_small_mod((m + k - d) as nat, d as nat);
    }
}

/// The index of a counter `i` in `[a, a + d)` lies `i - a` places after the
/// index of `a`.
pub proof fn lemma_offset_of_counter(a: int, i: int, d: int)
    requires
        d > 0,
        a >= 0,
        a <= i < a + d,
    ensures
        ring_offset(i % d, a % d, d) == i - a,
        0 <= i % d < d,
{
    lemma_mod_step(a, i - a, d);
}

/// The index of a counter `i` in `[a - t, a)`, `0 < t <= d`, lies `d - (a - i)`
/// places after the index of `a`.
pub proof fn lemma_offset_before_counter(a: int, i: int, d: int)
    requires
        d > 0,
        i >= 0,
        i < a <= i + d,
    ensures
        ring_offset(i % d, a % d, d) == d - (a - i),
        0 <= i % d < d,
{
    if a - i < d {
        lemma_mod_step(i, a - i, d);
    } else {
        lemma_mod_add_multiples_vanish(i, d);
        lemma_mod_step(i, 0, d);
    }
}

/// Copying one byte more into the ring sets the one index that the copy
/// reaches next.
pub proof fn lemma_copy_in_step(data: Seq<u8>, start: int, buf: Seq<u8>, k: int)
    requires
        0 <= start < data.len(),
        0 <= k < buf.len(),
        buf.len() <= data.len(),
    ensures
        0 <= ring_pos(start, k, data.len() as int) < data.len(),
        ring_copy_in(data, start, buf.take(k + 1)) == ring_copy_in(data, start, buf.take(k)).update(
            ring_pos(start, k, data.len() as int),
            buf[k],
        ),
{
    let d = data.len() as int;
    let p = ring_pos(start, k, d);
    assert(ring_offset(p, start, d) == k);
    assert forall|idx: int| 0 <= idx < d && ring_offset(idx, start, d) == k implies idx == p by {}
    assert(ring_copy_in(data, start, buf.take(k + 1)) =~= ring_copy_in(
        data,
        start,
        buf.take(k),
    ).update(p, buf[k]));
}

} // verus!
