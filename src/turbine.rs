//! The system handle: the consumer graph while it is built, its sealed form,
//! the cursor table and the single producer.
use crate::processor::EventProcessor;
use crate::ring::{share, RingBuffer, Slot};
use crate::sequence::{admits, is_capacity, lemma_mask_is_mod, may_publish, min_of, ring_index, ring_slot};
use std::sync::atomic::{AtomicU64, Ordering};
use std::sync::Arc;
use vstd::arithmetic::div_mod::lemma_mod_multiples_vanish;
use vstd::prelude::*;

verus! {

/// The sealed form of explicit dependency lists: consumer `i` reads the cursors
/// listed at `i`. Cursor 0 is the producer's and consumer `d` owns cursor
/// `d + 1`; a consumer that declared no dependency follows the producer alone.
pub open spec fn seal(explicit: Seq<Seq<usize>>) -> Seq<Seq<usize>> {
    explicit.map_values(
        |deps: Seq<usize>|
            if deps.len() == 0 {
                seq![0usize]
            } else {
                deps.map_values(|d: usize| (d + 1) as usize)
            },
    )
}

/// Every dependency names a cursor of a table of `n` cursors.
pub open spec fn graph_in_bounds(graph: Seq<Seq<usize>>, n: nat) -> bool {
    forall|i: int, j: int| 0 <= i < graph.len() && 0 <= j < graph[i].len() ==> graph[i][j] < n
}

/// The main structure: builds the consumer graph, then publishes records.
#[verifier::reject_recursive_types(T)]
pub struct Turbine<T> {
    finalized: bool,
    epb: Vec<Vec<usize>>,
    graph: Arc<Vec<Vec<usize>>>,
    cursors: Arc<Vec<AtomicU64>>,
    ring: Arc<RingBuffer<T>>,
    current_pos: u64,
    size: u64,
    until: u64,
    gate: Ghost<u64>,
}

impl<T: Slot> Turbine<T> {
    /// Whether the graph is sealed.
    pub closed spec fn sealed(&self) -> bool {
        self.finalized
    }

    /// The dependencies declared for each consumer so far, by consumer id.
    pub closed spec fn declared(&self) -> Seq<Seq<usize>> {
        self.epb@.map_values(|v: Vec<usize>| v@)
    }

    /// The sealed adjacency list: cursor ids that each consumer reads.
    pub closed spec fn graph(&self) -> Seq<Seq<usize>> {
        (*self.graph)@.map_values(|v: Vec<usize>| v@)
    }

    /// Number of cursors in the table (producer first).
    pub closed spec fn cursor_count(&self) -> nat {
        (*self.cursors)@.len()
    }

    /// The next sequence the producer publishes; also its cursor.
    pub closed spec fn position(&self) -> u64 {
        self.current_pos
    }

    /// The slowest consumer cursor seen at the producer's latest scan.
    pub closed spec fn gate(&self) -> u64 {
        self.gate@
    }

    /// The ring index at which the producer next scans the consumer cursors.
    pub closed spec fn cached_gate(&self) -> u64 {
        self.until
    }

    /// Number of slots.
    pub closed spec fn capacity(&self) -> u64 {
        self.size
    }

    pub closed spec fn wf(&self) -> bool {
        &&& is_capacity(self.size)
        &&& self.ring.capacity() == self.size
        &&& self.until as int == ring_slot(self.gate@ as int, self.size as int)
        &&& self.current_pos <= self.gate@ + self.size
        &&& !self.finalized ==> graph_in_bounds(self.declared(), self.epb@.len())
        &&& self.finalized ==> {
            &&& self.graph() == seal(self.declared())
            &&& self.cursor_count() == self.epb@.len() + 1
            &&& graph_in_bounds(self.graph(), self.cursor_count())
        }
    }

    /// A system with a ring of `ring_size` slots and no consumer yet.
    pub fn new(ring_size: usize) -> (r: Self)
        requires
            is_capacity(ring_size as u64),
        ensures
            r.wf(),
            !r.sealed(),
            r.declared() == Seq::<Seq<usize>>::empty(),
            r.capacity() == ring_size,
            r.position() == 0,
            r.gate() == 0,
            r.cached_gate() == 0,
    {
        let size = ring_size as u64;
        proof {
            lemma_mask_is_mod(0, size);
        }
        let epb: Vec<Vec<usize>> = Vec::with_capacity(8);
        let r = Turbine {
            finalized: false,
            epb,
            graph: Arc::new(Vec::new()),
            cursors: Arc::new(Vec::new()),
            ring: Arc::new(RingBuffer::new(ring_size)),
            current_pos: 0,
            size,
            until: 0,
            gate: Ghost(0),
        };
        assert(r.declared() =~= Seq::<Seq<usize>>::empty());
        r
    }

    /// Adds a consumer; its id is the number of consumers added before it.
    /// Refused once the graph is sealed.
    pub fn ep_new(&mut self) -> (r: Result<usize, ()>)
        requires
            old(self).wf(),
        ensures
            final(self).wf(),
            final(self).sealed() == old(self).sealed(),
            final(self).position() == old(self).position(),
            final(self).capacity() == old(self).capacity(),
            old(self).sealed() ==> r is Err && final(self).declared() == old(self).declared(),
            !old(self).sealed() ==> r == Ok::<usize, ()>(old(self).declared().len() as usize)
                && final(self).declared() == old(self).declared().push(Seq::<usize>::empty()),
    {
        if self.finalized {
            Err(())
        } else {
            let ghost before = self.declared();
            self.epb.push(Vec::new());
            assert(self.declared() =~= before.push(Seq::<usize>::empty()));
            assert forall|i: int, j: int|
                0 <= i < self.declared().len() && 0 <= j < self.declared()[i].len()
                implies self.declared()[i][j] < self.epb@.len() by {
                assert(self.declared()[i] == before[i]);
            }
            Ok(self.epb.len() - 1)
        }
    }

    /// Makes consumer `epb_index` depend on consumer `dep`: it never consumes a
    /// record before `dep` has. Refused once the graph is sealed.
    pub fn ep_depends(&mut self, epb_index: usize, dep: usize) -> (r: Result<(), ()>)
        requires
            old(self).wf(),
            !old(self).sealed() ==> epb_index < old(self).declared().len() && dep < old(
                self,
            ).declared().len(),
        ensures
            final(self).wf(),
            final(self).sealed() == old(self).sealed(),
            final(self).position() == old(self).position(),
            final(self).capacity() == old(self).capacity(),
            old(self).sealed() ==> r is Err && final(self).declared() == old(self).declared(),
            !old(self).sealed() ==> r is Ok && final(self).declared() == old(self).declared().update(
                epb_index as int,
                old(self).declared()[epb_index as int].push(dep),
            ),
    {
        if self.finalized {
            return Err(());
        }
        let ghost before = self.declared();
        let mut deps = self.epb[epb_index].clone();
        deps.push(dep);
        self.epb.set(epb_index, deps);
        let ghost expected = before.update(epb_index as int, before[epb_index as int].push(dep));
        assert(self.declared() =~= expected);
        assert forall|i: int, j: int|
            0 <= i < self.declared().len() && 0 <= j < self.declared()[i].len()
            implies self.declared()[i][j] < self.epb@.len() by {
            if i != epb_index as int {
                assert(self.declared()[i] == before[i]);
            } else if j < before[i].len() {
                assert(self.declared()[i][j] == before[i][j]);
            }
        }
        Ok(())
    }

    /// Seals the graph: the adjacency list of cursor ids and a cursor table of
    /// one producer cursor and one cursor per consumer, all at 0.
    fn finalize_graph(&mut self)
        requires
            old(self).wf(),
            !old(self).sealed(),
        ensures
            final(self).wf(),
            final(self).sealed(),
            final(self).declared() == old(self).declared(),
            final(self).graph() == seal(old(self).declared()),
            final(self).position() == old(self).position(),
            final(self).gate() == old(self).gate(),
            final(self).cached_gate() == old(self).cached_gate(),
            final(self).capacity() == old(self).capacity(),
    {
        let n = self.epb.len();
        let mut eps: Vec<Vec<usize>> = Vec::with_capacity(n);
        let mut cursors: Vec<AtomicU64> = Vec::new();
        cursors.push(AtomicU64::new(0));
        let mut i: usize = 0;
        while i < n
            invariant
                n == self.epb@.len(),
                i <= n,
                eps@.len() == i,
                cursors@.len() == i + 1,
                graph_in_bounds(self.declared(), n as nat),
                forall|k: int|
                    0 <= k < i ==> #[trigger] eps@[k]@ == seal(self.declared())[k],
            decreases n - i,
        {
            let node = &self.epb[i];
            let deps: Vec<usize> = if node.len() == 0 {
                vec![0]
            } else {
                let mut shifted: Vec<usize> = Vec::with_capacity(node.len());
                let mut j: usize = 0;
                while j < node.len()
                    invariant
                        n == self.epb@.len(),
                        i < n,
                        node == self.epb@[i as int],
                        j <= node@.len(),
                        shifted@.len() == j,
                        graph_in_bounds(self.declared(), n as nat),
                        forall|k: int| 0 <= k < j ==> #[trigger] shifted@[k] == node@[k] + 1,
                    decreases node@.len() - j,
                {
                    assert(self.declared()[i as int][j as int] == node@[j as int]);
                    shifted.push(node[j] + 1);
                    j = j + 1;
                }
                shifted
            };
            proof {
                assert(self.declared()[i as int] == node@);
                if node@.len() == 0 {
                    assert(deps@ =~= seq![0usize]);
                } else {
                    assert(deps@ =~= node@.map_values(|d: usize| (d + 1) as usize));
                }
            }
            eps.push(deps);
            cursors.push(AtomicU64::new(0));
            i = i + 1;
        }
        self.graph = Arc::new(eps);
        self.cursors = Arc::new(cursors);
        self.finalized = true;
        assert(self.graph() =~= seal(self.declared()));
        assert forall|a: int, b: int|
            0 <= a < self.graph().len() && 0 <= b < self.graph()[a].len()
            implies self.graph()[a][b] < self.cursor_count() by {
            if self.declared()[a].len() != 0 {
                assert(self.graph()[a][b] == self.declared()[a][b] + 1);
            }
        }
    }

    /// A handle for consumer `token`. The first call seals the graph; later
    /// calls hand out further handles on the same sealed graph.
    pub fn ep_finalize(&mut self, token: usize) -> (r: EventProcessor<T>)
        requires
            old(self).wf(),
            token < old(self).declared().len(),
        ensures
            final(self).wf(),
            final(self).sealed(),
            final(self).declared() == old(self).declared(),
            final(self).graph() == seal(old(self).declared()),
            final(self).position() == old(self).position(),
            final(self).capacity() == old(self).capacity(),
            r.wf(),
            r.token() == token,
            r.dependencies() == seal(old(self).declared())[token as int],
            r.capacity() == final(self).capacity(),
    {
        if !self.finalized {
            self.finalize_graph();
        }
        assert(self.graph().len() == (*self.graph)@.len());
        assert(self.graph()[token as int] == (*self.graph)@[token as int]@);
        EventProcessor::new(
            share(&self.ring),
            share(&self.graph),
            share(&self.cursors),
            token,
            self.size,
        )
    }

    /// Whether the graph is sealed.
    pub fn is_finalized(&self) -> (r: bool)
        ensures
            r == self.sealed(),
    {
        self.finalized
    }

    /// The next sequence the producer publishes.
    pub fn current_pos(&self) -> (r: u64)
        ensures
            r == self.position(),
    {
        self.current_pos
    }

    /// Number of slots in the ring.
    pub fn size(&self) -> (r: u64)
        ensures
            r == self.capacity(),
    {
        self.size
    }

    /// The consumer cursors as loaded now, by consumer id.
    fn consumer_cursors(&self) -> (r: Vec<u64>)
        requires
            self.wf(),
            self.sealed(),
        ensures
            r@.len() == self.cursor_count() - 1,
    {
        let n = self.cursors.len();
        let mut out: Vec<u64> = Vec::with_capacity(n - 1);
        let mut i: usize = 1;
        while i < n
            invariant
                n == self.cursor_count(),
                1 <= i <= n,
                out@.len() == i - 1,
            decreases n - i,
        {
            out.push(self.cursors[i].load(Ordering::Acquire));
            i = i + 1;
        }
        out
    }

    /// Takes `min_cursor`, the slowest consumer cursor of a fresh scan, as the
    /// new gate when it leaves room for the next sequence. Returns whether the
    /// next sequence may be published.
    pub fn take_gate(&mut self, min_cursor: u64) -> (r: bool)
        requires
            old(self).wf(),
        ensures
            final(self).wf(),
            r == admits(old(self).position() as int, min_cursor as int, old(self).capacity() as int),
            r ==> final(self).gate() == min_cursor && final(self).cached_gate() as int == ring_slot(
                min_cursor as int,
                old(self).capacity() as int,
            ),
            !r ==> final(self).gate() == old(self).gate() && final(self).cached_gate() == old(
                self,
            ).cached_gate(),
            final(self).position() == old(self).position(),
            final(self).capacity() == old(self).capacity(),
            final(self).sealed() == old(self).sealed(),
            final(self).declared() == old(self).declared(),
            final(self).graph() == old(self).graph(),
    {
        if may_publish(self.current_pos, min_cursor, self.size) {
            self.until = ring_index(min_cursor, self.size);
            self.gate = Ghost(min_cursor);
            true
        } else {
            false
        }
    }

    /// Whether the next sequence may be published. The consumer cursors are
    /// scanned only when the write index meets the cached gate.
    fn can_write(&mut self) -> (r: bool)
        requires
            old(self).wf(),
            old(self).sealed(),
        ensures
            final(self).wf(),
            r ==> admits(final(self).position() as int, final(self).gate() as int, final(self).capacity() as int),
            ring_slot(old(self).position() as int, old(self).capacity() as int) != old(self).cached_gate() ==> r
                && final(self).gate() == old(self).gate(),
            final(self).position() == old(self).position(),
            final(self).capacity() == old(self).capacity(),
            final(self).sealed() == old(self).sealed(),
            final(self).declared() == old(self).declared(),
            final(self).graph() == old(self).graph(),
    {
        if self.until == ring_index(self.current_pos, self.size) {
            let snapshot = self.consumer_cursors();
            let m = min_of(&snapshot);
            self.take_gate(m)
        } else {
            proof {
                let g = self.gate@;
                let c = self.size;
                if self.current_pos == g + c {
                    lemma_mod_multiples_vanish(1, g as int, c as int);
                }
            }
            true
        }
    }

    /// Publishes `data` when a slot is free: writes it at the next sequence's
    /// ring index and advances the producer cursor. When every slot may still
    /// be read by some consumer, nothing changes and `data` is handed back.
    pub fn try_write(&mut self, data: T) -> (r: Result<(), T>)
        requires
            old(self).wf(),
            old(self).sealed(),
            old(self).position() < u64::MAX,
        ensures
            final(self).wf(),
            final(self).sealed(),
            final(self).capacity() == old(self).capacity(),
            final(self).declared() == old(self).declared(),
            final(self).graph() == old(self).graph(),
            r is Ok ==> final(self).position() == old(self).position() + 1
                && admits(old(self).position() as int, final(self).gate() as int, final(self).capacity() as int),
            r is Err ==> final(self).position() == old(self).position() && r == Err::<(), T>(data),
            ring_slot(old(self).position() as int, old(self).capacity() as int) != old(self).cached_gate() ==> r is Ok,
    {
        if !self.can_write() {
            return Err(data);
        }
        let write_pos = ring_index(self.current_pos, self.size);
        self.ring.write(write_pos as usize, data);
        self.current_pos = self.current_pos + 1;
        self.cursors[0].store(self.current_pos, Ordering::Release);
        Ok(())
    }
}

/// The capacity bound: the producer is never more than one ring ahead of the
/// slowest consumer cursor it has seen, so it never runs ahead of any consumer
/// by more than `capacity` while consumer cursors only grow.
pub proof fn lemma_capacity_bound<T: Slot>(t: &Turbine<T>)
    requires
        t.wf(),
    ensures
        t.position() <= t.gate() + t.capacity(),
{
}

} // verus!
