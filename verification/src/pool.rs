//! The bounded connection pool, as the state it guarantees.
//!
//! The pool tracks which of its fixed number of slots is leased. Acquiring
//! marks a free slot and hands out a lease on it; no lease is ever handed out
//! on a slot already in use, and when every slot is leased nothing is handed
//! out at all — the caller then waits or times out. Releasing is idempotent
//! and safe whatever state the connection ended in; the binary wraps the
//! real database connections around these leases and performs the waiting.

use vstd::prelude::*;

verus! {

/// A lease on one slot of the pool, held by exactly one in-flight operation
/// and returned on every exit path.
pub struct PooledConnection {
    id: usize,
}

impl View for PooledConnection {
    type V = int;

    closed spec fn view(&self) -> int {
        self.id as int
    }
}

impl PooledConnection {
    /// The slot this lease is on.
    pub fn id(&self) -> (r: usize)
        ensures
            r == self@,
    {
        self.id
    }
}

/// The bounded pool: one flag per slot, true while the slot is leased.
pub struct ConnectionPool {
    slots: Vec<bool>,
}

impl View for ConnectionPool {
    type V = Seq<bool>;

    closed spec fn view(&self) -> Seq<bool> {
        self.slots@
    }
}

impl ConnectionPool {
    /// A pool of the given capacity, with every slot free.
    pub fn new(capacity: usize) -> (r: Self)
        ensures
            r@.len() == capacity,
            forall|i: int| 0 <= i < capacity ==> !r@[i],
    {
        let mut slots: Vec<bool> = Vec::new();
        let mut i: usize = 0;
        while i < capacity
            invariant
                i <= capacity,
                slots@.len() == i,
                forall|j: int| 0 <= j < i ==> !slots@[j],
            decreases capacity - i,
        {
            slots.push(false);
            i += 1;
        }
        ConnectionPool { slots }
    }

    /// How many slots the pool was built with.
    pub fn capacity(&self) -> (r: usize)
        ensures
            r == self@.len(),
    {
        self.slots.len()
    }

    /// Hands out a lease on a free slot, or nothing when every slot is
    /// leased. A lease is only ever handed out on a slot that was free, and
    /// one is always handed out while a free slot exists; beyond capacity
    /// the caller gets nothing and must wait or time out.
    #[verifier::loop_isolation(false)]
    pub fn acquire(&mut self) -> (r: Option<PooledConnection>)
        ensures
            final(self)@.len() == old(self)@.len(),
            r matches Some(c) ==> 0 <= c@ < old(self)@.len() && !old(self)@[c@] && final(self)@
                == old(self)@.update(c@, true),
            r is None ==> final(self)@ == old(self)@ && (forall|i: int|
                0 <= i < old(self)@.len() ==> old(self)@[i]),
            (exists|i: int| 0 <= i < old(self)@.len() && !old(self)@[i]) ==> r is Some,
    {
        let mut i: usize = 0;
        while i < self.slots.len()
            invariant
                i <= self.slots.len(),
                self@ == old(self)@,
                forall|j: int| 0 <= j < i ==> old(self)@[j],
            decreases self.slots.len() - i,
        {
            if !self.slots[i] {
                self.slots.set(i, true);
                return Some(PooledConnection { id: i });
            }
            i += 1;
        }
        None
    }

    /// Returns a lease. Idempotent: releasing a slot that is already free,
    /// or a lease from a larger pool than this one, changes nothing it
    /// should not.
    pub fn release(&mut self, c: PooledConnection)
        ensures
            final(self)@ == if 0 <= c@ < old(self)@.len() {
                old(self)@.update(c@, false)
            } else {
                old(self)@
            },
    {
        let id = c.id();
        if id < self.slots.len() {
            self.slots.set(id, false);
        }
    }

    /// Whether a given slot is currently leased.
    pub fn is_leased(&self, id: usize) -> (r: bool)
        requires
            id < self@.len(),
        ensures
            r == self@[id as int],
    {
        self.slots[id]
    }
}

} // verus!
