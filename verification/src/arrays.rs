//! Bulk copy helpers and a heap-allocated circular array with virtual
//! indexing, the backing store for the ring buffers of this crate.

use std::ops::Range;
use vstd::prelude::*;

verus! {

/// The smaller of two sequence lengths, as an `int`.
pub open spec fn min_len(a: int, b: int) -> int {
    if a <= b {
        a
    } else {
        b
    }
}

/// Copy as many elements as possible from one slice to another.
///
/// Returns the number of elements copied, which is the length of the
/// shorter slice; the tail of a longer destination is left unchanged.
pub fn copy<T: Copy>(src: &[T], dest: &mut [T]) -> (n: usize)
    ensures
        n == min_len(src@.len() as int, old(dest)@.len() as int),
        final(dest)@ == src@.take(n as int) + old(dest)@.skip(n as int),
{
    let len = if src.len() < dest.len() {
        src.len()
    } else {
        dest.len()
    };
    let mut i: usize = 0;
    while i < len
        invariant
            i <= len,
            len == min_len(src@.len() as int, dest@.len() as int),
            len <= src@.len() && len <= dest@.len(),
            dest@.len() == old(dest)@.len(),
            dest@ == src@.take(i as int) + old(dest)@.skip(i as int),
        decreases len - i,
    {
        dest[i] = src[i];
        proof {
            assert(dest@ =~= src@.take(i + 1) + old(dest)@.skip(i + 1));
        }
        i = i + 1;
    }
    proof {
        assert(dest@ =~= src@.take(len as int) + old(dest)@.skip(len as int));
    }
    len
}

/// The concatenation of a sequence of sequences, in order.
pub open spec fn concat_seqs<T>(ss: Seq<Seq<T>>) -> Seq<T>
    decreases ss.len(),
{
    if ss.len() == 0 {
        Seq::empty()
    } else {
        ss.first() + concat_seqs(ss.drop_first())
    }
}

/// The views of a slice of slices.
pub open spec fn slice_views<T>(ss: Seq<&[T]>) -> Seq<Seq<T>> {
    ss.map_values(|s: &[T]| s@)
}

/// Concatenation splits at any index.
pub proof fn lemma_concat_split<T>(ss: Seq<Seq<T>>, i: int)
    requires
        0 <= i <= ss.len(),
    ensures
        concat_seqs(ss) == concat_seqs(ss.take(i)) + concat_seqs(ss.skip(i)),
    decreases i,
{
    if i == 0 {
        assert(ss.take(0) =~= Seq::<Seq<T>>::empty());
        assert(ss.skip(0) =~= ss);
        assert(concat_seqs(ss.take(0)) + concat_seqs(ss.skip(0)) =~= concat_seqs(ss));
    } else {
        lemma_concat_split(ss.drop_first(), i - 1);
        assert(ss.take(i).first() == ss.first());
        assert(ss.take(i).drop_first() =~= ss.drop_first().take(i - 1));
        assert(ss.skip(i) =~= ss.drop_first().skip(i - 1));
        assert(concat_seqs(ss.take(i)) + concat_seqs(ss.skip(i)) =~= concat_seqs(ss));
    }
}

/// Concatenating one more sequence appends it at the end.
pub proof fn lemma_concat_take_succ<T>(ss: Seq<Seq<T>>, i: int)
    requires
        0 <= i < ss.len(),
    ensures
        concat_seqs(ss.take(i + 1)) == concat_seqs(ss.take(i)) + ss[i],
{
    let t = ss.take(i + 1);
    lemma_concat_split(t, i);
    assert(t.take(i) =~= ss.take(i));
    assert(t.skip(i) =~= seq![ss[i]]);
    assert(seq![ss[i]].first() == ss[i]);
    assert(seq![ss[i]].drop_first() =~= Seq::<Seq<T>>::empty());
    assert(concat_seqs(seq![ss[i]]) =~= ss[i] + concat_seqs(Seq::<Seq<T>>::empty()));
    assert(concat_seqs(seq![ss[i]]) =~= ss[i]);
}

/// Copy as many elements as possible from an ordered sequence of source
/// slices into one destination slice.
///
/// Sources are drained in order until the destination is full or the sources
/// are exhausted; returns the total number of elements copied.
pub fn copy_from_seq<T: Copy>(src_seq: &[&[T]], dest: &mut [T]) -> (n: usize)
    ensures
        n == min_len(concat_seqs(slice_views(src_seq@)).len() as int, old(dest)@.len() as int),
        final(dest)@ == concat_seqs(slice_views(src_seq@)).take(n as int) + old(dest)@.skip(
            n as int,
        ),
{
    let ghost all = concat_seqs(slice_views(src_seq@));
    let mut copied: usize = 0;
    let mut i: usize = 0;
    proof {
        assert(slice_views(src_seq@).take(0) =~= Seq::<Seq<T>>::empty());
        assert(dest@ =~= concat_seqs(slice_views(src_seq@).take(0)).take(0) + old(dest)@.skip(0));
    }
    while i < src_seq.len() && copied < dest.len()
        invariant
            0 <= i <= src_seq@.len(),
            dest@.len() == old(dest)@.len(),
            copied == min_len(
                concat_seqs(slice_views(src_seq@).take(i as int)).len() as int,
                dest@.len() as int,
            ),
            dest@ == concat_seqs(slice_views(src_seq@).take(i as int)).take(copied as int) + old(
                dest,
            )@.skip(copied as int),
        decreases src_seq@.len() - i,
    {
        let ghost prefix = concat_seqs(slice_views(src_seq@).take(i as int));
        proof {
            lemma_concat_take_succ(slice_views(src_seq@), i as int);
        }
        let (_done, rest) = dest.split_at_mut(copied);
        let m = copy(src_seq[i], rest);
        proof {
            let next = concat_seqs(slice_views(src_seq@).take(i + 1));
            assert(next == prefix + src_seq@[i as int]@);
            assert(dest@ =~= next.take((copied + m) as int) + old(dest)@.skip((copied + m) as int));
        }
        copied = copied + m;
        i = i + 1;
    }
    proof {
        if i < src_seq@.len() {
            lemma_concat_split(slice_views(src_seq@), i as int);
            assert(copied == dest@.len());
            assert(concat_seqs(slice_views(src_seq@).take(i as int)).take(copied as int) =~= all
                .take(copied as int));
        } else {
            assert(slice_views(src_seq@).take(i as int) =~= slice_views(src_seq@));
        }
    }
    copied
}

/// The value a destination takes after copying a source into its front.
pub open spec fn copied_into<T>(src: Seq<T>, d: Seq<T>) -> Seq<T> {
    src.take(min_len(src.len() as int, d.len() as int)) + d.skip(
        min_len(src.len() as int, d.len() as int),
    )
}

/// The part of a source left over after filling a destination.
pub open spec fn leftover<T>(src: Seq<T>, d: Seq<T>) -> Seq<T> {
    src.skip(min_len(src.len() as int, d.len() as int))
}

/// Copy as many elements as possible from one source slice into an ordered
/// pair of destination slices: the first is filled first, what is left of
/// the source then goes into the second.
///
/// Returns the total number of elements copied.
pub fn copy_to_seq<T: Copy>(src: &[T], d0: &mut [T], d1: &mut [T]) -> (n: usize)
    requires
        old(d0)@.len() + old(d1)@.len() <= usize::MAX,
    ensures
        n == min_len(src@.len() as int, old(d0)@.len() + old(d1)@.len() as int),
        final(d0)@ == copied_into(src@, old(d0)@),
        final(d1)@ == copied_into(leftover(src@, old(d0)@), old(d1)@),
{
    let n0 = copy(src, d0);
    let (_, rest) = src.split_at(n0);
    let n1 = copy(rest, d1);
    proof {
        assert(rest@ =~= leftover(src@, old(d0)@));
        assert(final(d0)@ =~= copied_into(src@, old(d0)@));
    }
    n0 + n1
}

/// A heap-allocated circular array, the backing store for ring buffers.
///
/// The array uses a virtual indexing system: its length is always a power of
/// two, and any unbounded virtual index is mapped to a position in the array
/// by reducing it modulo that length, so more than one virtual index may land
/// on the same position.
pub struct CircularArray<T> {
    array: Vec<T>,
}

/// Whether a length is a power of two (and so can serve as the modulus of a
/// circular array).
pub open spec fn is_pow2(n: nat) -> bool
    decreases n,
{
    if n == 0 {
        false
    } else if n == 1 {
        true
    } else {
        n % 2 == 0 && is_pow2(n / 2)
    }
}

impl<T> View for CircularArray<T> {
    type V = Seq<T>;

    closed spec fn view(&self) -> Seq<T> {
        self.array@
    }
}

/// The largest length a circular array may be asked for: rounding it up to a
/// power of two must still fit in a machine word.
pub const MAX_LEN: usize = usize::MAX / 2 + 1;

/// The smallest power of two that is at least `n` (and at least 1).
fn next_pow2(n: usize) -> (p: usize)
    requires
        n <= usize::MAX / 2 + 1,
    ensures
        is_pow2(p as nat),
        p >= n,
        p == 1 || p < 2 * (n as int),
{
    let mut p: usize = 1;
    while p < n
        invariant
            is_pow2(p as nat),
            1 <= p,
            n <= usize::MAX / 2 + 1,
            p == 1 || p < 2 * (n as int),
            p < n ==> p <= usize::MAX / 2,
        decreases 2 * (n as int) - p,
    {
        p = p * 2;
    }
    p
}

impl<T: Copy + Default> CircularArray<T> {
    /// Create a new array of at least the given length, rounded up to the
    /// next power of two. The contents start out unspecified: callers must
    /// not rely on anything they have not themselves written.
    pub fn new(len: usize) -> (r: Self)
        requires
            len <= MAX_LEN,
        ensures
            r.wf(),
            r@.len() == if len <= 1 {
                1int
            } else {
                spec_pow2_round_up(len as nat) as int
            },
    {
        let cap = next_pow2(len);
        proof {
            if len > 1 {
                lemma_pow2_round_up_exact(len as nat, cap as nat);
            }
        }
        let mut array: Vec<T> = Vec::new();
        while array.len() < cap
            invariant
                array@.len() <= cap,
            decreases cap - array@.len(),
        {
            array.push(T::default());
        }
        CircularArray { array }
    }
}

/// The power of two that a requested capacity is rounded up to.
pub open spec fn spec_pow2_round_up(n: nat) -> nat
    decreases n,
{
    if n <= 1 {
        1
    } else {
        2 * spec_pow2_round_up((n + 1) / 2)
    }
}

/// `spec_pow2_round_up` names the unique power of two in `[n, 2n)`.
pub proof fn lemma_pow2_round_up_exact(n: nat, p: nat)
    requires
        n > 1,
        is_pow2(p),
        p >= n,
        p < 2 * n,
    ensures
        p == spec_pow2_round_up(n),
    decreases n,
{
    let h = (n + 1) / 2;
    assert(p != 1);
    assert(p % 2 == 0 && is_pow2(p / 2));
    assert(spec_pow2_round_up(n) == 2 * spec_pow2_round_up(h));
    if h > 1 {
        assert(p >= 2 * h && p / 2 < 2 * h);
        lemma_pow2_round_up_exact(h, p / 2);
        assert(p == 2 * (p / 2));
    } else {
        assert(n == 2);
        assert(p == 2 || p == 3);
        if p == 3 {
            assert(3nat % 2 == 1);
            assert(!is_pow2(3nat));
        }
        assert(spec_pow2_round_up(1) == 1);
    }
}

/// The rounded-up capacity is the power of two within a factor of two of
/// the request.
pub proof fn lemma_pow2_round_up_bound(n: nat)
    requires
        n > 1,
    ensures
        n <= spec_pow2_round_up(n) < 2 * n,
        is_pow2(spec_pow2_round_up(n)),
    decreases n,
{
    let h = (n + 1) / 2;
    let p = spec_pow2_round_up(h);
    assert(spec_pow2_round_up(n) == 2 * p);
    if h > 1 {
        lemma_pow2_round_up_bound(h);
        assert(p == 2 * spec_pow2_round_up(((h + 1) / 2) as nat));
        if 2 * p >= 2 * n {
            assert(p == n);
            if n % 2 == 0 {
                assert(2 * h == n);
            } else {
                assert(p % 2 == 0);
            }
            assert(false);
        }
    } else {
        assert(n == 2);
        assert(spec_pow2_round_up(1) == 1);
        assert(is_pow2(1nat));
    }
    assert(is_pow2(p));
    assert((2 * p) % 2 == 0 && (2 * p) / 2 == p);
    assert(is_pow2(2 * p));
}

impl<T> CircularArray<T> {
    /// Well-formedness: the backing length is a power of two.
    pub open spec fn wf(&self) -> bool {
        is_pow2(self@.len() as nat)
    }

    /// The backing store is a real allocation, so its length fits in a
    /// machine word.
    pub proof fn lemma_len_bound(&self)
        ensures
            self@.len() <= usize::MAX,
    {
        broadcast use vstd::std_specs::vec::axiom_spec_len;

        assert(vstd::std_specs::vec::spec_vec_len(&self.array) == self.array@.len());
    }

    /// Get the length of the array.
    pub fn len(&self) -> (r: usize)
        ensures
            r == self@.len(),
    {
        self.array.len()
    }

    /// Get the internal index the given virtual index is mapped to.
    fn internal_index(&self, virtual_index: usize) -> (r: usize)
        requires
            self.wf(),
        ensures
            r == virtual_index as int % self@.len() as int,
    {
        proof {
            lemma_pow2_pos(self@.len() as nat);
        }
        virtual_index % self.array.len()
    }
}

/// A power of two is positive.
pub proof fn lemma_pow2_pos(n: nat)
    ensures
        is_pow2(n) ==> n >= 1,
{
}

impl<T> CircularArray<T> {
    /// Gets a pair of slices covering the given virtual range, wrapping
    /// around the end of the array.
    ///
    /// Both ends of the range are reduced modulo the array length. When the
    /// reduced start lies below the reduced end, the first slice holds the
    /// whole window and the second is empty; otherwise the window wraps, and
    /// the tail segment is returned first, then the head segment.
    pub fn as_slices(&self, range: Range<usize>) -> (r: (&[T], &[T]))
        requires
            self.wf(),
        ensures
            ({
                let l = self@.len() as int;
                let s = range.start as int % l;
                let e = range.end as int % l;
                if s < e {
                    r.0@ == self@.subrange(s, e) && r.1@ == Seq::<T>::empty()
                } else {
                    r.0@ == self@.subrange(s, l) && r.1@ == self@.subrange(0, e)
                }
            }),
    {
        let start = self.internal_index(range.start);
        let end = self.internal_index(range.end);
        let len = self.array.len();
        if start < end {
            (&self.array[start..end], &self.array[end..end])
        } else {
            (&self.array[start..len], &self.array[0..end])
        }
    }

    /// Gets a pair of mutable slices covering the given virtual range,
    /// wrapping around the end of the array, in the same order as
    /// [`CircularArray::as_slices`].
    pub fn as_slices_mut(&mut self, range: Range<usize>) -> (r: (&mut [T], &mut [T]))
        requires
            old(self).wf(),
        ensures
            ({
                let l = old(self)@.len() as int;
                let s = range.start as int % l;
                let e = range.end as int % l;
                if s < e {
                    &&& r.0@ == old(self)@.subrange(s, e)
                    &&& r.1@ == Seq::<T>::empty()
                    &&& final(self)@ == old(self)@.subrange(0, s) + final(r.0)@ + old(
                        self,
                    )@.subrange(e, l) + final(r.1)@
                } else {
                    &&& r.0@ == old(self)@.subrange(s, l)
                    &&& r.1@ == old(self)@.subrange(0, e)
                    &&& final(self)@ == final(r.1)@ + old(self)@.subrange(e, s) + final(r.0)@
                }
            }),
    {
        let start = self.internal_index(range.start);
        let end = self.internal_index(range.end);
        let whole = self.array.as_mut_slice();
        if start < end {
            let (_left, right) = whole.split_at_mut(start);
            let (mid, rest) = right.split_at_mut(end - start);
            let rest_len = rest.len();
            let (_rest_main, empty) = rest.split_at_mut(rest_len);
            (mid, empty)
        } else {
            let (left, right) = whole.split_at_mut(start);
            let (first, _midrest) = left.split_at_mut(end);
            (right, first)
        }
    }
}

} // verus!
