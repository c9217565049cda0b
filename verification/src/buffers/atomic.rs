//! A bounded reader/writer byte queue whose two handles may be moved to
//! different threads.
//!
//! The queue state is the sequential ring of [`crate::buffers::ring`]; the
//! two handles share it behind a reader-writer lock, so every operation acts
//! on a consistent snapshot and preserves the ring's invariant. A handle can
//! therefore only promise what holds of every snapshot — the exact effect of
//! each operation on the contents is the contract of the underlying ring.

use crate::arrays::MAX_LEN;
use crate::buffers::ring::RingCore;
use std::sync::Arc;
use vstd::prelude::*;
use vstd::rwlock::{RwLock, RwLockPredicate};

verus! {

/// What every state stored behind a shared ring's lock satisfies: the ring
/// is well-formed and keeps the capacity fixed at construction.
pub struct RingPred {
    pub capacity: int,
}

impl<T> RwLockPredicate<RingCore<T>> for RingPred {
    open spec fn inv(self, v: RingCore<T>) -> bool {
        v.wf() && v.cap() == self.capacity
    }
}

/// Create a new shared bounded queue with at least the given fixed
/// capacity, rounded up to a power of two.
///
/// Returns the reading and writing halves, which share one state block.
pub fn bounded<T: Copy + Default>(capacity: usize) -> (r: (Reader<T>, Writer<T>))
    requires
        capacity <= MAX_LEN,
    ensures
        r.0.shares_queue_with(&r.1),
        r.0.cap() == r.1.cap(),
        r.0.cap() == crate::buffers::unbounded::grown_capacity(capacity as nat),
{
    let state = RingCore::<T>::new(capacity);
    let ghost c = state.cap();
    let lock = RwLock::<RingCore<T>, RingPred>::new(state, Ghost(RingPred { capacity: c }));
    let inner = Arc::new(lock);
    let second = crate::buffers::share(&inner);
    (Reader { inner }, Writer { inner: second })
}

/// Reading half of a shared bounded queue.
pub struct Reader<T> {
    inner: Arc<RwLock<RingCore<T>, RingPred>>,
}

/// Writing half of a shared bounded queue.
pub struct Writer<T> {
    inner: Arc<RwLock<RingCore<T>, RingPred>>,
}

impl<T> Reader<T> {
    /// The fixed capacity this handle's queue was built with.
    pub closed spec fn cap(&self) -> int {
        self.inner.pred().capacity
    }

    /// Whether this reading half and the given writing half address one
    /// and the same queue.
    pub closed spec fn shares_queue_with(&self, w: &Writer<T>) -> bool {
        self.inner == w.inner
    }

    /// Returns the number of elements the queue held at the moment of the
    /// call; never more than the capacity.
    pub fn len(&self) -> (r: usize)
        ensures
            r <= self.cap(),
    {
        let handle = self.inner.acquire_read();
        let state = handle.borrow();
        proof {
            state.lemma_wf_cap_pos();
        }
        let r = state.len();
        handle.release_read();
        r
    }

    /// Returns the fixed capacity of the queue.
    pub fn capacity(&self) -> (r: usize)
        ensures
            r == self.cap(),
    {
        let handle = self.inner.acquire_read();
        let r = handle.borrow().capacity();
        handle.release_read();
        r
    }

    /// Returns `true` if the queue held no elements at the moment of the
    /// call.
    pub fn is_empty(&self) -> bool {
        let handle = self.inner.acquire_read();
        let r = handle.borrow().is_empty();
        handle.release_read();
        r
    }

    /// Discard everything the queue currently holds.
    pub fn clear(&mut self)
        ensures
            *final(self) == *old(self),
    {
        let (mut state, handle) = self.inner.acquire_write();
        state.clear();
        handle.release_write(state);
    }
}

impl<T: Copy> Reader<T> {
    /// Copy elements from the front of the queue into `dest` without
    /// consuming them.
    ///
    /// Returns the number copied: the length of the contents at the moment
    /// of the call, or of `dest` if the contents held more.
    pub fn copy_to(&self, dest: &mut [T]) -> (n: usize)
        ensures
            n <= old(dest)@.len(),
            exists|c: Seq<T>|
                {
                    &&& #[trigger] c.len() <= self.cap()
                    &&& n == crate::arrays::min_len(c.len() as int, old(dest)@.len() as int)
                    &&& final(dest)@ == c.take(n as int) + old(dest)@.skip(n as int)
                },
    {
        let handle = self.inner.acquire_read();
        let state = handle.borrow();
        proof {
            state.lemma_wf_cap_pos();
        }
        let n = state.copy_to(dest);
        let ghost c = state@;
        handle.release_read();
        proof {
            assert(c.len() <= self.cap());
            assert(n == crate::arrays::min_len(c.len() as int, old(dest)@.len() as int));
            assert(final(dest)@ == c.take(n as int) + old(dest)@.skip(n as int));
        }
        n
    }

    /// Consume up to `count` elements from the front of the queue and
    /// discard them.
    ///
    /// Returns the number consumed, which is less than `count` when the
    /// queue held fewer at the moment of the call.
    pub fn consume(&mut self, count: usize) -> (n: usize)
        ensures
            n <= count,
            *final(self) == *old(self),
            exists|c: Seq<T>|
                {
                    &&& #[trigger] c.len() <= old(self).cap()
                    &&& n == crate::arrays::min_len(count as int, c.len() as int)
                },
    {
        let (mut state, handle) = self.inner.acquire_write();
        let ghost c = state@;
        proof {
            state.lemma_wf_cap_pos();
        }
        let n = state.consume(count);
        handle.release_write(state);
        proof {
            assert(c.len() <= old(self).cap());
            assert(n == crate::arrays::min_len(count as int, c.len() as int));
        }
        n
    }

    /// Pull elements from the front of the queue into `dest`, consuming
    /// them.
    ///
    /// Returns the number pulled.
    pub fn pull(&mut self, dest: &mut [T]) -> (n: usize)
        ensures
            n <= old(dest)@.len(),
            *final(self) == *old(self),
            exists|c: Seq<T>|
                {
                    &&& #[trigger] c.len() <= old(self).cap()
                    &&& n == crate::arrays::min_len(c.len() as int, old(dest)@.len() as int)
                    &&& final(dest)@ == c.take(n as int) + old(dest)@.skip(n as int)
                },
    {
        let (mut state, handle) = self.inner.acquire_write();
        let ghost c = state@;
        proof {
            state.lemma_wf_cap_pos();
        }
        let n = state.copy_to(dest);
        let _consumed = state.consume(n);
        handle.release_write(state);
        proof {
            assert(c.len() <= old(self).cap());
            assert(n == crate::arrays::min_len(c.len() as int, old(dest)@.len() as int));
            assert(final(dest)@ == c.take(n as int) + old(dest)@.skip(n as int));
        }
        n
    }
}

impl<T> Writer<T> {
    /// The fixed capacity this handle's queue was built with.
    pub closed spec fn cap(&self) -> int {
        self.inner.pred().capacity
    }

    /// Returns the number of elements the queue held at the moment of the
    /// call; never more than the capacity.
    pub fn len(&self) -> (r: usize)
        ensures
            r <= self.cap(),
    {
        let handle = self.inner.acquire_read();
        let state = handle.borrow();
        proof {
            state.lemma_wf_cap_pos();
        }
        let r = state.len();
        handle.release_read();
        r
    }

    /// Returns the fixed capacity of the queue.
    pub fn capacity(&self) -> (r: usize)
        ensures
            r == self.cap(),
    {
        let handle = self.inner.acquire_read();
        let r = handle.borrow().capacity();
        handle.release_read();
        r
    }

    /// Returns `true` if the queue held no elements at the moment of the
    /// call.
    pub fn is_empty(&self) -> bool {
        let handle = self.inner.acquire_read();
        let r = handle.borrow().is_empty();
        handle.release_read();
        r
    }

    /// Discard everything the queue currently holds.
    pub fn clear(&mut self)
        ensures
            *final(self) == *old(self),
    {
        let (mut state, handle) = self.inner.acquire_write();
        state.clear();
        handle.release_write(state);
    }
}

impl<T: Copy> Writer<T> {
    /// Copy elements from `src` into the back of the queue, up to the free
    /// space left under the fixed capacity at the moment of the call.
    ///
    /// Returns the number written: `0` when the queue was full, and fewer
    /// than the whole of `src` when the free space did not hold it — a
    /// short count, not an error.
    pub fn push(&mut self, src: &[T]) -> (n: usize)
        ensures
            n <= src@.len(),
            *final(self) == *old(self),
            exists|c: Seq<T>|
                {
                    &&& #[trigger] c.len() <= old(self).cap()
                    &&& n == crate::arrays::min_len(src@.len() as int, old(self).cap() - c.len())
                },
    {
        let (mut state, handle) = self.inner.acquire_write();
        let ghost c = state@;
        proof {
            state.lemma_wf_cap_pos();
        }
        let n = state.push(src);
        handle.release_write(state);
        proof {
            assert(c.len() <= old(self).cap());
            assert(n == crate::arrays::min_len(src@.len() as int, old(self).cap() - c.len()));
        }
        n
    }
}

} // verus!
