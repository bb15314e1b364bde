//! Sequence arithmetic shared by the producer and the event processors:
//! projection of unbounded sequences onto ring slots, the minimum of a set of
//! cursors, the producer's admission rule and the ring-end clamp of a batch.
use vstd::arithmetic::div_mod::{lemma_fundamental_div_mod, lemma_fundamental_div_mod_converse};
use vstd::arithmetic::power2::{lemma2_to64, lemma_pow2_adds, lemma_pow2_pos, lemma_pow2_strictly_increases, pow2};
use vstd::bits::{lemma_u64_low_bits_mask_is_mod, low_bits_mask};
use vstd::prelude::*;

verus! {

/// A ring capacity: a power of two, at least 2 and small enough that a
/// sequence plus a capacity is far from the end of `u64` in practice.
pub open spec fn is_capacity(n: u64) -> bool {
    exists|k: nat| 1 <= k < 63 && n == #[trigger] pow2(k)
}

/// The slot that sequence `seq` occupies in a ring of `cap` slots.
pub open spec fn ring_slot(seq: int, cap: int) -> int {
    seq % cap
}

/// The smallest value of `s`, or `u64::MAX` when `s` is empty (nothing gates).
pub open spec fn seq_min(s: Seq<u64>) -> int
    decreases s.len(),
{
    if s.len() == 0 {
        u64::MAX as int
    } else {
        let rest = seq_min(s.drop_last());
        if (s.last() as int) < rest {
            s.last() as int
        } else {
            rest
        }
    }
}

/// The producer may publish sequence `pos` when it stays less than a full ring
/// ahead of the slowest consumer cursor `gate`.
pub open spec fn admits(pos: int, gate: int, cap: int) -> bool {
    pos < gate + cap
}

/// One past the last sequence of the batch that starts at `next` when sequences
/// below `available` are ready: everything ready, cut at the end of the ring.
pub open spec fn batch_end(next: int, available: int, cap: int) -> int {
    let boundary = next - next % cap + cap;
    if available <= boundary {
        available
    } else {
        boundary
    }
}

/// Masking with `cap - 1` is the remainder modulo a capacity.
pub proof fn lemma_mask_is_mod(x: u64, cap: u64)
    requires
        is_capacity(cap),
    ensures
        x & ((cap - 1) as u64) == x % cap,
        cap >= 2,
        cap <= 0x4000_0000_0000_0000u64,
{
    let k = choose|k: nat| 1 <= k < 63 && cap == #[trigger] pow2(k);
    lemma_u64_low_bits_mask_is_mod(x, k);
    lemma_pow2_pos(k);
    lemma2_to64();
    lemma_pow2_adds(62, 2);
    if k < 62 {
        lemma_pow2_strictly_increases(k, 62);
    }
    lemma_pow2_strictly_increases(0, k);
    assert(low_bits_mask(k) == cap - 1);
}

/// The seq_min of a sequence is no larger than any of its elements, and is one
/// of them when the sequence is not empty.
pub proof fn lemma_seq_min_bounds(s: Seq<u64>)
    ensures
        forall|i: int| 0 <= i < s.len() ==> seq_min(s) <= s[i] as int,
        s.len() > 0 ==> exists|i: int| 0 <= i < s.len() && seq_min(s) == s[i] as int,
        0 <= seq_min(s) <= u64::MAX,
    decreases s.len(),
{
    if s.len() > 0 {
        lemma_seq_min_bounds(s.drop_last());
        assert forall|i: int| 0 <= i < s.len() implies seq_min(s) <= s[i] as int by {
            if i < s.len() - 1 {
                assert(s.drop_last()[i] == s[i]);
            }
        }
        if seq_min(s) != s.last() as int {
            let j = choose|j: int|
                0 <= j < s.drop_last().len() && seq_min(s.drop_last()) == s.drop_last()[j] as int;
            assert(s[j] == s.drop_last()[j]);
        }
    }
}

/// Ring index of `seq` in a ring of `capacity` slots.
pub fn ring_index(seq: u64, capacity: u64) -> (r: u64)
    requires
        is_capacity(capacity),
    ensures
        r as int == ring_slot(seq as int, capacity as int),
        r < capacity,
{
    proof {
        lemma_mask_is_mod(seq, capacity);
    }
    seq & (capacity - 1)
}

/// The smallest of `values`; `u64::MAX` when there are none.
pub fn min_of(values: &Vec<u64>) -> (r: u64)
    ensures
        r as int == seq_min(values@),
{
    let mut m: u64 = u64::MAX;
    let mut i: usize = 0;
    while i < values.len()
        invariant
            i <= values.len(),
            m as int == seq_min(values@.subrange(0, i as int)),
        decreases values.len() - i,
    {
        assert(values@.subrange(0, i as int + 1).drop_last() =~= values@.subrange(0, i as int));
        if values[i] < m {
            m = values[i];
        }
        i = i + 1;
    }
    assert(values@.subrange(0, values.len() as int) =~= values@);
    m
}

/// The admission rule: whether `pos` may be written while the slowest
/// consumer cursor is `gate`. `pos − gate ≥ capacity` is refused, so the slot
/// of `pos` is never one a consumer may still read.
pub fn may_publish(pos: u64, gate: u64, capacity: u64) -> (r: bool)
    ensures
        r == admits(pos as int, gate as int, capacity as int),
{
    gate > pos || pos - gate < capacity
}

/// One past the last sequence of the next batch of a consumer that has
/// consumed everything below `next` while everything below `available` is
/// published: the whole window, clamped so that it does not wrap the ring.
pub fn batch_limit(next: u64, available: u64, capacity: u64) -> (r: u64)
    requires
        is_capacity(capacity),
        next < available,
    ensures
        r as int == batch_end(next as int, available as int, capacity as int),
        next < r <= available,
{
    let room = capacity - ring_index(next, capacity);
    if available - next <= room {
        available
    } else {
        next + room
    }
}

/// Delivery is in order and without gaps: the batch taken from `next` is not
/// empty, stays within what is released, and its sequences lie in consecutive
/// slots, so the handler sees `next, next + 1, …` in that order. Its end is
/// where the consumer's cursor stands after the batch, and so where the next
/// batch starts.
pub proof fn lemma_delivery_in_order(next: u64, available: u64, cap: u64, i: int)
    requires
        is_capacity(cap),
        next < available,
        0 <= i < batch_end(next as int, available as int, cap as int) - next,
    ensures
        next < batch_end(next as int, available as int, cap as int) <= available,
        ring_slot(next + i, cap as int) == ring_slot(next as int, cap as int) + i,
{
    lemma_mask_is_mod(next, cap);
    let c = cap as int;
    let n = next as int;
    lemma_fundamental_div_mod(n, c);
    assert(n + i == (n / c) * c + (n % c + i)) by (nonlinear_arith)
        requires
            n == c * (n / c) + n % c,
    ;
    lemma_fundamental_div_mod_converse(n + i, c, n / c, n % c + i);
}

/// A consumer never outruns what it depends on: a batch ends no later than
/// any of the dependency cursors it was computed from.
pub proof fn lemma_dependency_respect(deps: Seq<u64>, next: u64, cap: u64)
    requires
        is_capacity(cap),
        (next as int) < seq_min(deps),
    ensures
        forall|i: int|
            0 <= i < deps.len() ==> batch_end(next as int, seq_min(deps), cap as int) <= deps[i],
{
    lemma_seq_min_bounds(deps);
}

/// No overwrite: while the producer is admitted at `pos` against gate `gate`,
/// every sequence that is published but may still be unread by some consumer
/// (`gate <= seq < pos`) lives in a slot other than the one being written.
pub proof fn lemma_no_overwrite(pos: int, gate: int, seq: int, cap: u64)
    requires
        is_capacity(cap),
        admits(pos, gate, cap as int),
        gate <= seq < pos,
    ensures
        ring_slot(seq, cap as int) != ring_slot(pos, cap as int),
{
    lemma_mask_is_mod(0, cap);
    let c = cap as int;
    lemma_fundamental_div_mod(seq, c);
    lemma_fundamental_div_mod(pos, c);
    if seq % c == pos % c {
        let d = pos / c - seq / c;
        assert(pos - seq == c * d) by (nonlinear_arith)
            requires
                seq == c * (seq / c) + seq % c,
                pos == c * (pos / c) + pos % c,
                seq % c == pos % c,
                d == pos / c - seq / c,
        ;
        assert(false) by (nonlinear_arith)
            requires
                pos - seq == c * d,
                0 < pos - seq < c,
                c > 0,
        ;
    }
}

/// Without any consumer advance (the slowest cursor stays at 0), each of the
/// first `cap` sequences is admitted, and sequence `cap` is refused until a
/// consumer moves.
pub proof fn lemma_fill_without_advance(cap: u64, k: int)
    requires
        is_capacity(cap),
        0 <= k < cap,
    ensures
        admits(k, 0, cap as int),
        !admits(cap as int, 0, cap as int),
{
}

/// A consumer that keeps up with the producer never stalls it, whatever the
/// number of records, so any number of passes over the ring succeeds; and
/// each newly released record reaches it as a batch of exactly that record.
pub proof fn lemma_lockstep(pos: u64, cap: u64)
    requires
        is_capacity(cap),
        pos < u64::MAX,
    ensures
        admits(pos as int, pos as int, cap as int),
        batch_end(pos as int, pos + 1, cap as int) == pos + 1,
{
    lemma_mask_is_mod(pos, cap);
}

} // verus!
