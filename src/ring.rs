//! The slot array: `capacity` records, each in a cell of its own so that the
//! producer can replace one record while consumers read others. Which party
//! may touch which cell at a given moment is decided by the sequence cursors,
//! not by the cells.
use crate::sequence::is_capacity;
use std::sync::Arc;
use std::sync::RwLock;
use vstd::prelude::*;

verus! {

#[verifier::external_type_specification]
#[verifier::external_body]
#[verifier::reject_recursive_types(T)]
pub struct ExRwLock<T: ?Sized>(RwLock<T>);

/// A record type that can be carried through the ring. `new` gives the value
/// every slot holds before anything is published into it.
pub trait Slot: Sized {
    fn new() -> Self;
}

/// Relies on `RwLock::new`: a cell that holds `value`.
#[verifier::external_body]
fn new_cell<T>(value: T) -> RwLock<T> {
    RwLock::new(value)
}

/// Relies on `RwLock::write`: the value held is replaced by `value`. A poisoned
/// cell is taken over, since its whole value is replaced.
#[verifier::external_body]
fn store_cell<T>(cell: &RwLock<T>, value: T) {
    match cell.write() {
        Ok(mut guard) => *guard = value,
        Err(poisoned) => *poisoned.into_inner() = value,
    }
}

/// Relies on `RwLock::read` and `Clone::clone`: a copy of the value held.
#[verifier::external_body]
fn load_cell<T: Clone>(cell: &RwLock<T>) -> T {
    match cell.read() {
        Ok(guard) => guard.clone(),
        Err(poisoned) => poisoned.into_inner().clone(),
    }
}

/// Relies on `Arc::clone`: another handle to the same shared value.
#[verifier::external_body]
pub(crate) fn share<T>(a: &Arc<T>) -> (r: Arc<T>)
    ensures
        r == *a,
{
    Arc::clone(a)
}

/// A fixed ring of `capacity` record cells.
#[verifier::reject_recursive_types(T)]
pub struct RingBuffer<T> {
    slots: Vec<RwLock<T>>,
}

impl<T: Slot> RingBuffer<T> {
    /// Number of slots.
    pub closed spec fn capacity(&self) -> nat {
        self.slots@.len()
    }

    /// A ring of `capacity` slots, each filled by `T::new()`.
    pub fn new(capacity: usize) -> (r: Self)
        requires
            is_capacity(capacity as u64),
        ensures
            r.capacity() == capacity,
    {
        let mut slots: Vec<RwLock<T>> = Vec::with_capacity(capacity);
        let mut i: usize = 0;
        while i < capacity
            invariant
                i <= capacity,
                slots@.len() == i,
            decreases capacity - i,
        {
            slots.push(new_cell(T::new()));
            i = i + 1;
        }
        RingBuffer { slots }
    }

    /// Number of slots.
    pub fn len(&self) -> (r: usize)
        ensures
            r == self.capacity(),
    {
        self.slots.len()
    }

    /// Stores `data` in slot `index`. The caller holds the right to write that
    /// slot: its previous record has been consumed by every consumer.
    pub fn write(&self, index: usize, data: T)
        requires
            index < self.capacity(),
    {
        store_cell(&self.slots[index], data);
    }

    /// A copy of the record in slot `index`. The caller has seen the slot
    /// published and it is not being rewritten.
    pub fn read(&self, index: usize) -> T where T: Clone
        requires
            index < self.capacity(),
    {
        load_cell(&self.slots[index])
    }

    /// Copies of the `count` records from slot `first` on, in slot order.
    pub fn read_range(&self, first: usize, count: usize) -> (r: Vec<T>) where T: Clone
        requires
            first + count <= self.capacity(),
        ensures
            r@.len() == count,
    {
        let n = self.len();
        let mut out: Vec<T> = Vec::with_capacity(count);
        let mut i: usize = 0;
        while i < count
            invariant
                i <= count,
                first + count <= n,
                n == self.capacity(),
                out@.len() == i,
            decreases count - i,
        {
            out.push(self.read(first + i));
            i = i + 1;
        }
        out
    }
}

} // verus!
