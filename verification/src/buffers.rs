//! Ring buffers for inserting and removing elements in bulk.
//!
//! Buffers are designed for reading and writing bytes in memory, and are
//! useful as networking buffers, audio streams, or as in-memory byte pipes
//! between threads.

use std::sync::Arc;
use vstd::prelude::*;

pub mod atomic;
pub mod ring;
pub mod unbounded;

verus! {

/// Relies on std::sync::Arc::clone: the new handle points to the same
/// allocation, so both hold the same value.
#[verifier::external_body]
pub(crate) fn share<T>(a: &Arc<T>) -> (r: Arc<T>)
    ensures
        r == *a,
{
    a.clone()
}

/// Base trait that all buffers implement.
pub trait Buffer<T>: Sized {
    /// The elements the buffer currently holds, oldest first.
    spec fn contents(&self) -> Seq<T>;

    /// How many elements the buffer can hold before it is full or must
    /// grow.
    spec fn capacity_of(&self) -> int;

    /// The buffer's internal invariant, established by its constructors
    /// and preserved by every operation.
    spec fn well_formed(&self) -> bool;

    /// Returns the number of elements in the buffer.
    fn len(&self) -> (r: usize)
        requires
            self.well_formed(),
        ensures
            r == self.contents().len(),
    ;

    /// Returns the current capacity of the buffer.
    fn capacity(&self) -> (r: usize)
        requires
            self.well_formed(),
        ensures
            r == self.capacity_of(),
    ;

    /// Returns `true` if the buffer is empty.
    fn is_empty(&self) -> (r: bool)
        requires
            self.well_formed(),
        ensures
            r == (self.contents().len() == 0),
    {
        self.len() == 0
    }

    /// Clears all elements from the buffer and resets the length to zero.
    fn clear(&mut self)
        requires
            old(self).well_formed(),
        ensures
            final(self).well_formed(),
            final(self).contents() == Seq::<T>::empty(),
            final(self).capacity_of() == old(self).capacity_of(),
    ;
}

/// A buffer that can be read from.
pub trait ReadableBuffer<T: Copy>: Buffer<T> {
    /// Copy elements from the front of the buffer into the given slice
    /// without consuming them. If there are fewer elements in the buffer
    /// than the length of `dest`, then only part of `dest` is written.
    ///
    /// Returns the number of elements copied.
    fn copy_to(&self, dest: &mut [T]) -> (n: usize)
        requires
            self.well_formed(),
        ensures
            n == crate::arrays::min_len(self.contents().len() as int, old(dest)@.len() as int),
            final(dest)@ == self.contents().take(n as int) + old(dest)@.skip(n as int),
    ;

    /// Consume up to `count` elements from the front of the buffer and
    /// discard them.
    ///
    /// Returns the number of elements consumed, which may be less than
    /// `count` if `count` was greater than the number of elements held.
    fn consume(&mut self, count: usize) -> (n: usize)
        requires
            old(self).well_formed(),
        ensures
            n == crate::arrays::min_len(count as int, old(self).contents().len() as int),
            final(self).contents() == old(self).contents().skip(n as int),
            final(self).well_formed(),
            final(self).capacity_of() == old(self).capacity_of(),
    ;

    /// Pull elements from the front of the buffer into the given slice,
    /// consuming them.
    ///
    /// Returns the number of elements pulled.
    fn pull(&mut self, dest: &mut [T]) -> (n: usize)
        requires
            old(self).well_formed(),
        ensures
            n == crate::arrays::min_len(
                old(self).contents().len() as int,
                old(dest)@.len() as int,
            ),
            final(dest)@ == old(self).contents().take(n as int) + old(dest)@.skip(n as int),
            final(self).contents() == old(self).contents().skip(n as int),
            final(self).well_formed(),
            final(self).capacity_of() == old(self).capacity_of(),
    {
        let count = self.copy_to(dest);
        self.consume(count)
    }
}

/// A buffer that can be written to.
pub trait WritableBuffer<T: Copy>: Buffer<T> {
    /// Copy the given elements and insert them into the back of the
    /// buffer.
    ///
    /// Returns the number of elements pushed: what was appended to the
    /// contents, in order. An implementation that grows takes everything;
    /// a bounded one may take less.
    fn push(&mut self, src: &[T]) -> (n: usize)
        requires
            old(self).well_formed(),
            old(self).contents().len() + src@.len() <= crate::arrays::MAX_LEN,
        ensures
            n <= src@.len(),
            final(self).contents() == old(self).contents() + src@.take(n as int),
            final(self).well_formed(),
    ;
}

} // verus!
