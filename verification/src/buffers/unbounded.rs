//! A growable ring buffer for a single owner.

use crate::arrays::{min_len, spec_pow2_round_up, MAX_LEN};
use crate::buffers::ring::RingCore;
use vstd::prelude::*;

verus! {

/// Growable ring buffer.
///
/// Optimized for repeatedly appending elements to the back and removing
/// them from the front. The backing array is replaced by a larger one
/// whenever a push would not fit, so pushes always write the whole source.
pub struct UnboundedBuffer<T> {
    core: RingCore<T>,
}

/// The capacity a buffer ends up with after making room for `n` elements:
/// the smallest power of two holding them.
pub open spec fn grown_capacity(n: nat) -> int {
    if n <= 1 {
        1int
    } else {
        spec_pow2_round_up(n) as int
    }
}

impl<T> View for UnboundedBuffer<T> {
    type V = Seq<T>;

    closed spec fn view(&self) -> Seq<T> {
        self.core@
    }
}

impl<T> UnboundedBuffer<T> {
    /// The current capacity, which the live count never exceeds.
    pub closed spec fn cap(&self) -> int {
        self.core.cap()
    }

    /// Well-formedness of the backing ring.
    pub closed spec fn wf(&self) -> bool {
        self.core.wf()
    }

    /// The live count is bounded by the capacity, which fits in a machine
    /// word.
    pub proof fn lemma_cap(&self)
        requires
            self.wf(),
        ensures
            self@.len() <= self.cap() <= usize::MAX,
    {
        self.core.lemma_wf_cap_pos();
    }
}

impl<T: Copy + Default> UnboundedBuffer<T> {
    /// The capacity a buffer created with `new` starts out with.
    pub const DEFAULT_CAPACITY: usize = 4096;

    /// Create a new buffer with the default capacity.
    pub fn new() -> (r: Self)
        ensures
            r.wf(),
            r@ == Seq::<T>::empty(),
            r.cap() == 4096,
    {
        let r = Self::with_capacity(4096);
        proof {
            assert(crate::arrays::is_pow2(4096nat)) by {
                reveal_with_fuel(crate::arrays::is_pow2, 15);
            }
            crate::arrays::lemma_pow2_round_up_exact(4096, 4096);
        }
        r
    }

    /// Create a new buffer with at least the given capacity pre-allocated,
    /// rounded up to a power of two.
    pub fn with_capacity(capacity: usize) -> (r: Self)
        requires
            capacity <= MAX_LEN,
        ensures
            r.wf(),
            r@ == Seq::<T>::empty(),
            r.cap() == grown_capacity(capacity as nat),
    {
        UnboundedBuffer { core: RingCore::new(capacity) }
    }

    /// Replace the backing ring by one of at least the given capacity,
    /// carrying every live element over.
    fn resize(&mut self, size: usize)
        requires
            old(self).wf(),
            old(self)@.len() <= size <= MAX_LEN,
        ensures
            final(self).wf(),
            final(self)@ == old(self)@,
            final(self).cap() == grown_capacity(size as nat),
    {
        proof {
            self.core.lemma_wf_cap_pos();
        }
        let len = self.core.len();
        let mut moved: Vec<T> = Vec::new();
        moved.resize(len, T::default());
        let copied = self.core.copy_to(moved.as_mut_slice());
        let mut bigger = RingCore::new(size);
        proof {
            bigger.lemma_wf_cap_pos();
            if size > 1 {
                crate::arrays::lemma_pow2_round_up_bound(size as nat);
            }
            assert(moved@ =~= old(self)@);
        }
        let pushed = bigger.push(moved.as_slice());
        self.core = bigger;
        proof {
            assert(final(self)@ =~= old(self)@);
        }
    }

    /// Copy the given elements and insert them into the back of the buffer,
    /// growing it first when they would not fit.
    ///
    /// Returns the number of elements pushed, which is always all of them.
    pub fn push(&mut self, src: &[T]) -> (n: usize)
        requires
            old(self).wf(),
            old(self)@.len() + src@.len() <= MAX_LEN,
        ensures
            n == src@.len(),
            final(self)@ == old(self)@ + src@,
            final(self).wf(),
            final(self).cap() == if old(self)@.len() + src@.len() <= old(self).cap() {
                old(self).cap()
            } else {
                grown_capacity((old(self)@.len() + src@.len()) as nat)
            },
    {
        proof {
            self.core.lemma_wf_cap_pos();
        }
        let new_len = self.core.len() + src.len();
        if new_len > self.core.capacity() {
            self.resize(new_len);
            proof {
                if new_len > 1 {
                    crate::arrays::lemma_pow2_round_up_bound(new_len as nat);
                }
            }
        }
        let pushed = self.core.push(src);
        proof {
            assert(src@.take(pushed as int) =~= src@);
        }
        pushed
    }
}

impl<T> UnboundedBuffer<T> {
    /// Returns `true` if the buffer is empty.
    pub fn is_empty(&self) -> (r: bool)
        requires
            self.wf(),
        ensures
            r == (self@.len() == 0),
    {
        self.core.is_empty()
    }

    /// Returns the number of elements in the buffer.
    pub fn len(&self) -> (r: usize)
        requires
            self.wf(),
        ensures
            r == self@.len(),
    {
        self.core.len()
    }

    /// Returns the current capacity of the buffer.
    pub fn capacity(&self) -> (r: usize)
        requires
            self.wf(),
        ensures
            r == self.cap(),
    {
        self.core.capacity()
    }

    /// Remove all elements from the buffer, keeping its storage.
    pub fn clear(&mut self)
        requires
            old(self).wf(),
        ensures
            final(self).wf(),
            final(self)@ == Seq::<T>::empty(),
            final(self).cap() == old(self).cap(),
    {
        self.core.clear()
    }

    /// Consume up to `count` elements from the front of the buffer and
    /// discard them. Constant-time: only the front cursor moves.
    ///
    /// Returns the number of elements consumed, which is less than `count`
    /// when the buffer held fewer.
    pub fn consume(&mut self, count: usize) -> (n: usize)
        requires
            old(self).wf(),
        ensures
            n == min_len(count as int, old(self)@.len() as int),
            final(self)@ == old(self)@.skip(n as int),
            final(self).wf(),
            final(self).cap() == old(self).cap(),
    {
        self.core.consume(count)
    }
}

impl<T: Copy> UnboundedBuffer<T> {
    /// Copy elements from the front of the buffer into the given slice
    /// without consuming them; a longer destination is only partly written.
    ///
    /// Returns the number of elements copied.
    pub fn copy_to(&self, dest: &mut [T]) -> (n: usize)
        requires
            self.wf(),
        ensures
            n == min_len(self@.len() as int, old(dest)@.len() as int),
            final(dest)@ == self@.take(n as int) + old(dest)@.skip(n as int),
    {
        self.core.copy_to(dest)
    }

    /// Pull elements from the front of the buffer into the given slice,
    /// consuming them.
    ///
    /// Returns the number of elements pulled.
    pub fn pull(&mut self, dest: &mut [T]) -> (n: usize)
        requires
            old(self).wf(),
        ensures
            n == min_len(old(self)@.len() as int, old(dest)@.len() as int),
            final(dest)@ == old(self)@.take(n as int) + old(dest)@.skip(n as int),
            final(self)@ == old(self)@.skip(n as int),
            final(self).wf(),
            final(self).cap() == old(self).cap(),
    {
        let count = self.core.copy_to(dest);
        self.core.consume(count)
    }
}

impl<T: Copy + Default> crate::buffers::Buffer<T> for UnboundedBuffer<T> {
    open spec fn contents(&self) -> Seq<T> {
        self@
    }

    open spec fn capacity_of(&self) -> int {
        self.cap()
    }

    open spec fn well_formed(&self) -> bool {
        self.wf()
    }

    fn len(&self) -> (r: usize) {
        UnboundedBuffer::len(self)
    }

    fn capacity(&self) -> (r: usize) {
        UnboundedBuffer::capacity(self)
    }

    fn clear(&mut self) {
        UnboundedBuffer::clear(self)
    }
}

impl<T: Copy + Default> crate::buffers::ReadableBuffer<T> for UnboundedBuffer<T> {
    fn copy_to(&self, dest: &mut [T]) -> (n: usize) {
        UnboundedBuffer::copy_to(self, dest)
    }

    fn consume(&mut self, count: usize) -> (n: usize) {
        UnboundedBuffer::consume(self, count)
    }
}

impl<T: Copy + Default> crate::buffers::WritableBuffer<T> for UnboundedBuffer<T> {
    fn push(&mut self, src: &[T]) -> (n: usize) {
        UnboundedBuffer::push(self, src)
    }
}

} // verus!
