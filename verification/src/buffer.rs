//! A growable ring buffer over bare cursors, kept alongside the
//! [`crate::buffers::unbounded`] variant for callers that use it directly.

use crate::arrays::{min_len, MAX_LEN};
use crate::buffers::unbounded::{grown_capacity, UnboundedBuffer};
use vstd::prelude::*;

verus! {

/// Growable ring buffer.
///
/// Optimized for repeated appending of elements to the end and removing
/// elements from the front of the buffer.
pub struct Buffer<T> {
    inner: UnboundedBuffer<T>,
}

impl<T> View for Buffer<T> {
    type V = Seq<T>;

    closed spec fn view(&self) -> Seq<T> {
        self.inner@
    }
}

impl<T> Buffer<T> {
    /// The current capacity, which the live count never exceeds.
    pub closed spec fn cap(&self) -> int {
        self.inner.cap()
    }

    /// Well-formedness of the backing ring.
    pub closed spec fn wf(&self) -> bool {
        self.inner.wf()
    }

    /// The live count is bounded by the capacity, which fits in a machine
    /// word.
    pub proof fn lemma_cap(&self)
        requires
            self.wf(),
        ensures
            self@.len() <= self.cap() <= usize::MAX,
    {
        self.inner.lemma_cap();
    }
}

impl<T: Copy + Default> Buffer<T> {
    /// The capacity a buffer created with `new` starts out with.
    pub const DEFAULT_CAPACITY: usize = 4096;

    /// Create a new buffer with the default capacity.
    pub fn new() -> (r: Self)
        ensures
            r.wf(),
            r@ == Seq::<T>::empty(),
            r.cap() == 4096,
    {
        Buffer { inner: UnboundedBuffer::new() }
    }

    /// Create a new buffer with at least the given capacity pre-allocated,
    /// rounded up to a power of two.
    pub fn with_capacity(capacity: usize) -> (r: Self)
        requires
            capacity <= MAX_LEN,
        ensures
            r.wf(),
            r@ == Seq::<T>::empty(),
            r.cap() == grown_capacity(capacity as nat),
    {
        Buffer { inner: UnboundedBuffer::with_capacity(capacity) }
    }

    /// Copy the given elements and insert them into the back of the buffer,
    /// growing it first when they would not fit.
    ///
    /// Returns the number of elements pushed, which is always all of them.
    pub fn push(&mut self, src: &[T]) -> (n: usize)
        requires
            old(self).wf(),
            old(self)@.len() + src@.len() <= MAX_LEN,
        ensures
            n == src@.len(),
            final(self)@ == old(self)@ + src@,
            final(self).wf(),
            final(self).cap() == if old(self)@.len() + src@.len() <= old(self).cap() {
                old(self).cap()
            } else {
                grown_capacity((old(self)@.len() + src@.len()) as nat)
            },
    {
        self.inner.push(src)
    }
}

impl<T> Buffer<T> {
    /// Returns `true` if the buffer is empty.
    pub fn is_empty(&self) -> (r: bool)
        requires
            self.wf(),
        ensures
            r == (self@.len() == 0),
    {
        self.inner.is_empty()
    }

    /// Returns the number of elements in the buffer.
    pub fn len(&self) -> (r: usize)
        requires
            self.wf(),
        ensures
            r == self@.len(),
    {
        self.inner.len()
    }

    /// Returns the current capacity of the buffer.
    pub fn capacity(&self) -> (r: usize)
        requires
            self.wf(),
        ensures
            r == self.cap(),
    {
        self.inner.capacity()
    }

    /// Consume up to `count` elements from the front of the buffer and
    /// discard them, in constant time.
    ///
    /// Returns the number of elements consumed, which is less than `count`
    /// when the buffer held fewer.
    pub fn consume(&mut self, count: usize) -> (n: usize)
        requires
            old(self).wf(),
        ensures
            n == min_len(count as int, old(self)@.len() as int),
            final(self)@ == old(self)@.skip(n as int),
            final(self).wf(),
            final(self).cap() == old(self).cap(),
    {
        self.inner.consume(count)
    }

    /// Remove all elements from the buffer, keeping its storage.
    pub fn clear(&mut self)
        requires
            old(self).wf(),
        ensures
            final(self).wf(),
            final(self)@ == Seq::<T>::empty(),
            final(self).cap() == old(self).cap(),
    {
        self.inner.clear()
    }
}

impl<T: Copy> Buffer<T> {
    /// Copy elements from the front of the buffer into the given slice
    /// without consuming them; a longer destination is only partly written.
    ///
    /// Returns the number of elements copied.
    pub fn copy_to(&self, dest: &mut [T]) -> (n: usize)
        requires
            self.wf(),
        ensures
            n == min_len(self@.len() as int, old(dest)@.len() as int),
            final(dest)@ == self@.take(n as int) + old(dest)@.skip(n as int),
    {
        self.inner.copy_to(dest)
    }

    /// Pull elements from the front of the buffer into the given slice,
    /// consuming them.
    ///
    /// Returns the number of elements pulled.
    pub fn pull(&mut self, dest: &mut [T]) -> (n: usize)
        requires
            old(self).wf(),
        ensures
            n == min_len(old(self)@.len() as int, old(dest)@.len() as int),
            final(dest)@ == old(self)@.take(n as int) + old(dest)@.skip(n as int),
            final(self)@ == old(self)@.skip(n as int),
            final(self).wf(),
            final(self).cap() == old(self).cap(),
    {
        self.inner.pull(dest)
    }
}

} // verus!
