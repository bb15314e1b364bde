//! A consumer's handle: it finds the next admissible batch from the cursors it
//! depends on, reads that batch out of the ring and publishes its own cursor.
use crate::ring::{RingBuffer, Slot};
use crate::sequence::{seq_min, batch_end, batch_limit, is_capacity, lemma_mask_is_mod, min_of, ring_index, ring_slot};
use crate::turbine::graph_in_bounds;
use std::sync::atomic::{AtomicU64, Ordering};
use std::sync::Arc;
use vstd::prelude::*;

verus! {

/// The sequences `[start, end)` handed to a consumer in one call.
#[derive(Clone, Copy, PartialEq, Eq, Structural, Debug)]
pub struct Batch {
    pub start: u64,
    pub end: u64,
}

/// A consumer of the ring.
#[verifier::reject_recursive_types(T)]
pub struct EventProcessor<T> {
    ring: Arc<RingBuffer<T>>,
    graph: Arc<Vec<Vec<usize>>>,
    cursors: Arc<Vec<AtomicU64>>,
    token: usize,
    next: u64,
    capacity: u64,
}

impl<T: Slot> EventProcessor<T> {
    /// The consumer id this handle serves.
    pub closed spec fn token(&self) -> usize {
        self.token
    }

    /// The cursor ids this consumer may not outrun.
    pub closed spec fn dependencies(&self) -> Seq<usize> {
        (*self.graph)@[self.token as int]@
    }

    /// Everything below this sequence has been consumed.
    pub closed spec fn position(&self) -> u64 {
        self.next
    }

    /// Number of slots in the ring.
    pub closed spec fn capacity(&self) -> u64 {
        self.capacity
    }

    pub closed spec fn wf(&self) -> bool {
        &&& is_capacity(self.capacity)
        &&& self.ring.capacity() == self.capacity
        &&& self.token < (*self.graph)@.len()
        &&& (*self.cursors)@.len() == (*self.graph)@.len() + 1
        &&& graph_in_bounds((*self.graph)@.map_values(|v: Vec<usize>| v@), (*self.cursors)@.len())
    }

    /// A handle for consumer `token` on a sealed graph. It resumes from the
    /// consumer's published cursor.
    pub(crate) fn new(
        ring: Arc<RingBuffer<T>>,
        graph: Arc<Vec<Vec<usize>>>,
        cursors: Arc<Vec<AtomicU64>>,
        token: usize,
        capacity: u64,
    ) -> (r: Self)
        requires
            is_capacity(capacity),
            ring.capacity() == capacity,
            token < (*graph)@.len(),
            (*cursors)@.len() == (*graph)@.len() + 1,
            graph_in_bounds((*graph)@.map_values(|v: Vec<usize>| v@), (*cursors)@.len()),
        ensures
            r.wf(),
            r.token() == token,
            r.dependencies() == (*graph)@[token as int]@,
            r.capacity() == capacity,
    {
        let n = cursors.len();
        let next = cursors[token + 1].load(Ordering::Acquire);
        EventProcessor { ring, graph, cursors, token, next, capacity }
    }

    /// The consumer id this handle serves.
    pub fn id(&self) -> (r: usize)
        ensures
            r == self.token(),
    {
        self.token
    }

    /// Everything below this sequence has been consumed.
    pub fn cursor(&self) -> (r: u64)
        ensures
            r == self.position(),
    {
        self.next
    }

    /// The cursors this consumer depends on, as loaded now, in the order of
    /// its dependency list.
    pub fn dependency_cursors(&self) -> (r: Vec<u64>)
        requires
            self.wf(),
        ensures
            r@.len() == self.dependencies().len(),
    {
        let deps = &self.graph[self.token];
        let mut out: Vec<u64> = Vec::with_capacity(deps.len());
        let mut i: usize = 0;
        while i < deps.len()
            invariant
                self.wf(),
                deps == (*self.graph)@[self.token as int],
                i <= deps@.len(),
                out@.len() == i,
            decreases deps@.len() - i,
        {
            assert((*self.graph)@.map_values(|v: Vec<usize>| v@)[self.token as int][i as int]
                == deps@[i as int]);
            out.push(self.cursors[deps[i]].load(Ordering::Acquire));
            i = i + 1;
        }
        out
    }

    /// The highest sequence, exclusive, that every dependency has released:
    /// the smallest of the dependency cursors loaded now.
    pub fn available(&self) -> (r: u64)
        requires
            self.wf(),
        ensures
            exists|loaded: Seq<u64>|
                loaded.len() == self.dependencies().len() && r as int == seq_min(loaded),
    {
        min_of(&self.dependency_cursors())
    }

    /// The next batch when everything below `available` is released: the
    /// sequences from this consumer's cursor up to `available`, clamped at the
    /// ring end; none when nothing new is released.
    pub fn next_batch(&self, available: u64) -> (r: Option<Batch>)
        requires
            self.wf(),
        ensures
            available <= self.position() ==> r is None,
            available > self.position() ==> r == Some(
                Batch {
                    start: self.position(),
                    end: batch_end(
                        self.position() as int,
                        available as int,
                        self.capacity() as int,
                    ) as u64,
                },
            ),
    {
        if available <= self.next {
            None
        } else {
            Some(Batch { start: self.next, end: batch_limit(self.next, available, self.capacity) })
        }
    }

    /// The records of `batch`, in sequence order, read from consecutive slots.
    pub fn read(&self, batch: &Batch) -> (r: Vec<T>) where T: Clone
        requires
            self.wf(),
            batch.start < batch.end,
            batch.end as int <= batch_end(batch.start as int, batch.end as int, self.capacity() as int),
        ensures
            r@.len() == batch.end - batch.start,
    {
        let first = ring_index(batch.start, self.capacity);
        proof {
            lemma_batch_fits(batch.start, batch.end, self.capacity);
        }
        let _ = self.ring.len();
        self.ring.read_range(first as usize, (batch.end - batch.start) as usize)
    }

    /// Marks `batch` consumed and publishes the cursor to dependents and to
    /// the producer.
    pub fn commit(&mut self, batch: &Batch)
        requires
            old(self).wf(),
            batch.start == old(self).position(),
            batch.start < batch.end,
        ensures
            final(self).wf(),
            final(self).position() == batch.end,
            final(self).token() == old(self).token(),
            final(self).dependencies() == old(self).dependencies(),
            final(self).capacity() == old(self).capacity(),
    {
        let n = self.cursors.len();
        self.next = batch.end;
        self.cursors[self.token + 1].store(batch.end, Ordering::Release);
    }
}

/// A batch that the clamp admits stays inside one pass over the ring: its
/// slots run from the start's slot without wrapping.
pub proof fn lemma_batch_fits(start: u64, end: u64, cap: u64)
    requires
        is_capacity(cap),
        start < end,
        end as int <= batch_end(start as int, end as int, cap as int),
    ensures
        ring_slot(start as int, cap as int) + (end - start) <= cap,
{
    lemma_mask_is_mod(start, cap);
}

} // verus!
