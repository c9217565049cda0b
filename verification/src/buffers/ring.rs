//! The sequential core shared by the ring buffers: a circular array window
//! addressed by two virtual cursors that survive wrapping around the largest
//! machine-word value.

use crate::arrays::{copy, copy_to_seq, is_pow2, CircularArray, MAX_LEN};
use vstd::arithmetic::power2::{
    lemma2_to64, lemma_pow2_adds, lemma_pow2_strictly_increases, lemma_pow2_unfold, pow2,
};
use vstd::layout::unsigned_int_max_values;
use vstd::prelude::*;

verus! {

/// One more than the largest value a machine word holds: the modulus at
/// which the virtual cursors wrap around.
pub open spec fn word_size() -> int {
    usize::MAX as int + 1
}

/// The distance from cursor `h` forward to cursor `t`, taking one wrap of
/// the machine word into account. This is what wrapping subtraction of the
/// two cursors computes.
pub open spec fn cursor_distance(h: usize, t: usize) -> int {
    if h <= t {
        t - h
    } else {
        t - h + word_size()
    }
}

/// The contents of a ring with backing array `arr` and cursors `h` (front)
/// and `t` (back): the element `i` positions past the front lives at virtual
/// index `h + i`, reduced modulo the array length.
pub open spec fn ring_view<T>(arr: Seq<T>, h: usize, t: usize) -> Seq<T> {
    Seq::new(cursor_distance(h, t) as nat, |i: int| arr[(h + i) % (arr.len() as int)])
}

/// Every recursively-even length is an exact power of two.
proof fn lemma_is_pow2_exists(n: nat)
    requires
        is_pow2(n),
    ensures
        exists|e: nat| pow2(e) == n,
    decreases n,
{
    if n == 1 {
        lemma2_to64();
        assert(pow2(0) == 1);
    } else {
        lemma_is_pow2_exists(n / 2);
        let e = choose|e: nat| pow2(e) == n / 2;
        lemma_pow2_unfold(e + 1);
        assert(pow2(e + 1) == n);
    }
}

/// A power of two that fits in a machine word divides the word modulus.
pub proof fn lemma_pow2_divides_word(l: nat)
    requires
        is_pow2(l),
        l <= usize::MAX,
    ensures
        word_size() % (l as int) == 0,
{
    lemma_is_pow2_exists(l);
    let e = choose|e: nat| pow2(e) == l;
    unsigned_int_max_values();
    let bits = usize::BITS as nat;
    assert(word_size() == pow2(bits));
    if e >= bits {
        if e > bits {
            lemma_pow2_strictly_increases(bits, e);
        }
        assert(false);
    }
    lemma_pow2_adds(e, (bits - e) as nat);
    let k = pow2((bits - e) as nat) as int;
    assert(pow2(bits) == pow2(e) * pow2((bits - e) as nat));
    assert(word_size() == (l as int) * k) by (nonlinear_arith)
        requires
            word_size() == pow2(bits),
            pow2(bits) == pow2(e) * pow2((bits - e) as nat),
            pow2(e) == l,
            k == pow2((bits - e) as nat),
    ;
    vstd::arithmetic::div_mod::lemma_mod_multiples_basic(k, l as int);
    assert(k * (l as int) == (l as int) * k) by (nonlinear_arith);
}

/// Reducing modulo the word size does not change a value's residue modulo a
/// divisor of the word size: the two cursors may be compared and indexed
/// through either form.
pub proof fn lemma_word_wrap_mod(x: int, l: int)
    requires
        l > 0,
        word_size() % l == 0,
    ensures
        (x - word_size()) % l == x % l,
        (x + word_size()) % l == x % l,
{
    let w = word_size();
    vstd::arithmetic::div_mod::lemma_fundamental_div_mod(w, l);
    let k = w / l;
    assert(w == l * k);
    vstd::arithmetic::div_mod::lemma_mod_multiples_vanish(-k, x, l);
    assert(l * -k + x == x - w) by (nonlinear_arith)
        requires
            w == l * k,
    ;
    vstd::arithmetic::div_mod::lemma_mod_multiples_vanish(k, x, l);
    assert(l * k + x == x + w) by (nonlinear_arith)
        requires
            w == l * k,
    ;
}

/// The sequential state of a bounded ring buffer: a circular array holding
/// up to its whole length in live elements, delimited by a front (`head`)
/// and back (`tail`) cursor.
pub struct RingCore<T> {
    array: CircularArray<T>,
    head: usize,
    tail: usize,
}

impl<T> View for RingCore<T> {
    type V = Seq<T>;

    closed spec fn view(&self) -> Seq<T> {
        ring_view(self.array@, self.head, self.tail)
    }
}

impl<T> RingCore<T> {
    /// The fixed capacity: the length of the backing array.
    pub closed spec fn cap(&self) -> int {
        self.array@.len() as int
    }

    /// Well-formedness: the backing length is a power of two dividing the
    /// word modulus, and the live count never exceeds the capacity.
    pub closed spec fn wf(&self) -> bool {
        &&& self.array.wf()
        &&& word_size() % self.cap() == 0
        &&& cursor_distance(self.head, self.tail) <= self.cap()
    }

    /// Capacity is positive in any well-formed ring.
    pub proof fn lemma_wf_cap_pos(&self)
        requires
            self.wf(),
        ensures
            0 < self.cap() <= usize::MAX,
            self@.len() <= self.cap(),
    {
        crate::arrays::lemma_pow2_pos(self.array@.len() as nat);
        self.array.lemma_len_bound();
    }

    /// Returns the number of elements in the ring.
    pub fn len(&self) -> (r: usize)
        requires
            self.wf(),
        ensures
            r == self@.len(),
    {
        self.tail.wrapping_sub(self.head)
    }

    /// Returns the fixed capacity of the ring.
    pub fn capacity(&self) -> (r: usize)
        requires
            self.wf(),
        ensures
            r == self.cap(),
    {
        self.array.len()
    }

    /// Returns `true` if the ring holds no elements.
    pub fn is_empty(&self) -> (r: bool)
        requires
            self.wf(),
        ensures
            r == (self@.len() == 0),
    {
        self.head == self.tail
    }

    /// Remove every element: the back cursor is pulled onto the front one.
    pub fn clear(&mut self)
        requires
            old(self).wf(),
        ensures
            final(self).wf(),
            final(self)@ == Seq::<T>::empty(),
            final(self).cap() == old(self).cap(),
    {
        let tail = self.tail;
        self.head = tail;
        proof {
            assert(final(self)@ =~= Seq::<T>::empty());
        }
    }
}

impl<T: Copy + Default> RingCore<T> {
    /// Create an empty ring of at least the given capacity, rounded up to
    /// the next power of two.
    pub fn new(capacity: usize) -> (r: Self)
        requires
            capacity <= MAX_LEN,
        ensures
            r.wf(),
            r@ == Seq::<T>::empty(),
            r.cap() == if capacity <= 1 {
                1int
            } else {
                crate::arrays::spec_pow2_round_up(capacity as nat) as int
            },
    {
        let array = CircularArray::new(capacity);
        proof {
            array.lemma_len_bound();
            lemma_pow2_divides_word(array@.len() as nat);
            assert(ring_view(array@, 0, 0) =~= Seq::<T>::empty());
        }
        RingCore { array, head: 0, tail: 0 }
    }
}

/// A window of length `f` starting at reduced position `sa` ends at reduced
/// position `sb`: either it is the contiguous span between them, or it wraps
/// and covers everything but the span between them.
proof fn lemma_window_shape(l: int, sa: int, sb: int, f: int)
    requires
        l > 0,
        0 <= sa < l,
        0 <= sb < l,
        0 < f <= l,
        sb == (sa + f) % l,
    ensures
        sa < sb ==> f == sb - sa,
        sa >= sb ==> f == l - sa + sb,
{
    if sa + f < l {
        vstd::arithmetic::div_mod::lemma_small_mod((sa + f) as nat, l as nat);
    } else {
        assert(l <= sa + f < 2 * l);
        vstd::arithmetic::div_mod::lemma_fundamental_div_mod_converse_mod(
            sa + f,
            l,
            1,
            sa + f - l,
        );
    }
}

/// Both cursors, reduced modulo the array length, sit exactly one live-count
/// apart; and one free-count apart in the other direction.
proof fn lemma_cursor_offsets(h: usize, t: usize, l: int)
    requires
        l > 0,
        word_size() % l == 0,
    ensures
        t as int % l == ((h as int % l) + cursor_distance(h, t)) % l,
        h as int % l == ((t as int % l) + (word_size() - cursor_distance(h, t))) % l,
{
    let d = cursor_distance(h, t);
    let w = word_size();
    broadcast use vstd::arithmetic::div_mod::lemma_add_mod_noop;
    broadcast use vstd::arithmetic::div_mod::lemma_mod_twice;
    broadcast use vstd::arithmetic::div_mod::lemma_mod_division_less_than_divisor;

    if h <= t {
        assert(t as int == h + d);
        assert(t as int % l == ((h as int % l) + (d % l)) % l);
        assert((h as int % l) + cursor_distance(h, t) >= 0);
        assert(((h as int % l) + d) % l == ((h as int % l) % l + d % l) % l);
    } else {
        assert(t as int == h + d - w);
        lemma_word_wrap_mod(h + d, l);
        assert(t as int % l == (h + d) % l);
        assert((h + d) % l == ((h as int % l) + (d % l)) % l);
        assert(((h as int % l) + d) % l == ((h as int % l) % l + d % l) % l);
    }
    // The reverse direction: adding the complement `w - d` to the tail gets
    // back to the head, modulo one full turn of the word.
    let f = w - d;
    if h <= t {
        assert(t + f == h + w);
        lemma_word_wrap_mod(h as int, l);
        assert((t + f) % l == h as int % l);
    } else {
        assert(t + f == h as int);
    }
    assert((t as int + f) % l == ((t as int % l) + (f % l)) % l);
    assert(((t as int % l) + f) % l == ((t as int % l) % l + f % l) % l);
}

impl<T: Copy> RingCore<T> {
    /// Copy elements from the front of the ring into the given slice,
    /// without consuming them.
    ///
    /// Returns the number of elements copied: the live count, or the length
    /// of `dest` if the ring holds more than fits.
    pub fn copy_to(&self, dest: &mut [T]) -> (n: usize)
        requires
            self.wf(),
        ensures
            n == crate::arrays::min_len(self@.len() as int, old(dest)@.len() as int),
            final(dest)@ == read_front(self@, old(dest)@.len() as int) + old(dest)@.skip(n as int),
            final(dest)@ == self@.take(n as int) + old(dest)@.skip(n as int),
    {
        proof {
            self.lemma_wf_cap_pos();
        }
        if self.head == self.tail {
            proof {
                assert(final(dest)@ =~= self@.take(0) + old(dest)@.skip(0));
            }
            return 0;
        }
        let ghost arr0 = self.array@;
        let ghost h = self.head;
        let ghost t = self.tail;
        let slices = self.array.as_slices(self.head..self.tail);
        proof {
            lemma_live_window_view(arr0, h, t);
        }
        let n0 = copy(slices.0, dest);
        let (_done, rest) = dest.split_at_mut(n0);
        let n1 = copy(slices.1, rest);
        proof {
            assert(final(dest)@ =~= self@.take((n0 + n1) as int) + old(dest)@.skip(
                (n0 + n1) as int,
            ));
        }
        n0 + n1
    }
}

impl<T> RingCore<T> {
    /// Consume up to `count` elements from the front of the ring and
    /// discard them.
    ///
    /// Returns the number of elements consumed, which may be less than
    /// `count` when the ring held fewer. Runs in constant time: only the
    /// front cursor moves.
    pub fn consume(&mut self, count: usize) -> (n: usize)
        requires
            old(self).wf(),
        ensures
            n == crate::arrays::min_len(count as int, old(self)@.len() as int),
            final(self)@ == consume_effect(old(self)@, count as int),
            final(self)@ == old(self)@.skip(n as int),
            final(self).wf(),
            final(self).cap() == old(self).cap(),
    {
        proof {
            self.lemma_wf_cap_pos();
        }
        let len = self.len();
        let n = if count < len {
            count
        } else {
            len
        };
        self.head = self.head.wrapping_add(n);
        proof {
            let l = self.cap();
            let h = old(self).head;
            let t = old(self).tail;
            let h2 = self.head;
            assert(cursor_distance(h2, t) == cursor_distance(h, t) - n);
            assert forall|i: int| 0 <= i < cursor_distance(h2, t) implies self.array@[#[trigger] (
            (h2 + i) % l)] == self.array@[(h + (n + i)) % l] by {
                if h2 == h + n - word_size() {
                    lemma_word_wrap_mod(h + n + i, l);
                }
            }
            assert(final(self)@ =~= old(self)@.skip(n as int));
        }
        n
    }
}

/// The contents a push leaves behind: the old contents with as much of the
/// source appended as the capacity leaves room for. This is the effect
/// [`RingCore::push`] proves.
pub open spec fn push_effect<T>(v: Seq<T>, cap: int, src: Seq<T>) -> Seq<T> {
    v + src.take(crate::arrays::min_len(src.len() as int, cap - v.len() as int))
}

/// The contents a consume leaves behind: everything but the oldest `count`
/// elements. This is the effect [`RingCore::consume`] proves.
pub open spec fn consume_effect<T>(v: Seq<T>, count: int) -> Seq<T> {
    v.skip(crate::arrays::min_len(count, v.len() as int))
}

/// What a read of `count` elements hands out: the oldest ones, in order.
/// This is the effect [`RingCore::copy_to`] proves.
pub open spec fn read_front<T>(v: Seq<T>, count: int) -> Seq<T> {
    v.take(crate::arrays::min_len(count, v.len() as int))
}

/// Round-trip: a write that fits, followed by a read of everything, hands
/// back exactly the bytes written, after the ones already there, in order.
pub proof fn lemma_round_trip<T>(v: Seq<T>, src: Seq<T>, cap: int)
    requires
        v.len() + src.len() <= cap,
    ensures
        push_effect(v, cap, src) == v + src,
        read_front(push_effect(v, cap, src), cap) == v + src,
{
    assert(src.take(src.len() as int) =~= src);
    assert((v + src).take((v.len() + src.len()) as int) =~= v + src);
}

/// Capacity bound: a push never lifts the live count above the capacity,
/// and a push into a full ring takes nothing.
pub proof fn lemma_capacity_bound<T>(v: Seq<T>, src: Seq<T>, cap: int)
    requires
        0 <= v.len() <= cap,
    ensures
        push_effect(v, cap, src).len() <= cap,
        v.len() == cap ==> push_effect(v, cap, src) == v,
{
    if v.len() == cap {
        assert(src.take(0) =~= Seq::<T>::empty());
        assert(push_effect(v, cap, src) =~= v);
    }
}

/// One push/consume cycle: pushing a batch that fits and then consuming
/// the bytes that were in front of it leaves exactly the batch, so cycles
/// of equal pushes and consumes — which drive the cursors round the ring
/// and through the word — neither lose nor corrupt data.
pub proof fn lemma_push_consume_cycle<T>(v: Seq<T>, src: Seq<T>, cap: int)
    requires
        v.len() + src.len() <= cap,
    ensures
        consume_effect(push_effect(v, cap, src), v.len() as int) == src,
{
    lemma_round_trip(v, src, cap);
    assert((v + src).skip(v.len() as int) =~= src);
}

/// The head cursor sits one free-count past the tail cursor, with the
/// free count measured within one turn of the ring rather than of the word.
proof fn lemma_free_offset(h: usize, t: usize, l: int)
    requires
        l > 0,
        word_size() % l == 0,
    ensures
        h as int % l == ((t as int % l) + (l - cursor_distance(h, t))) % l,
{
    let w = word_size();
    let d = cursor_distance(h, t);
    let x = (t as int % l) + (l - d);
    lemma_cursor_offsets(h, t, l);
    vstd::arithmetic::div_mod::lemma_fundamental_div_mod(w, l);
    let k = w / l;
    assert(x + (w - l) == l * (k - 1) + x) by (nonlinear_arith)
        requires
            w == l * k,
    ;
    vstd::arithmetic::div_mod::lemma_mod_multiples_vanish(k - 1, x, l);
    assert((x + (w - l)) % l == x % l);
    assert(x + (w - l) == (t as int % l) + (w - d));
}

impl<T: Copy> RingCore<T> {
    /// Copy elements from the given slice into the back of the ring, up to
    /// the free space left under the fixed capacity.
    ///
    /// Returns the number of elements written: `0` when the ring is full,
    /// and possibly fewer than the length of `src` when the free space does
    /// not hold all of it — a short count, not an error.
    #[verifier::rlimit(60)]
    pub fn push(&mut self, src: &[T]) -> (n: usize)
        requires
            old(self).wf(),
        ensures
            n == crate::arrays::min_len(
                src@.len() as int,
                old(self).cap() - old(self)@.len() as int,
            ),
            final(self)@ == push_effect(old(self)@, old(self).cap(), src@),
            final(self)@ == old(self)@ + src@.take(n as int),
            final(self).wf(),
            final(self).cap() == old(self).cap(),
    {
        proof {
            self.lemma_wf_cap_pos();
        }
        let len = self.len();
        let capacity = self.capacity();
        if len == capacity {
            proof {
                assert(final(self)@ =~= old(self)@ + src@.take(0));
            }
            return 0;
        }
        let ghost arr0 = self.array@;
        let ghost h = self.head;
        let ghost t = self.tail;
        let ghost l = self.cap();
        let ghost d = cursor_distance(h, t);
        let ghost f = l - d;
        let ghost s = t as int % l;
        let ghost e = h as int % l;
        proof {
            lemma_free_offset(h, t, l);
            vstd::arithmetic::div_mod::lemma_mod_division_less_than_divisor(h as int, l);
            vstd::arithmetic::div_mod::lemma_mod_division_less_than_divisor(t as int, l);
            lemma_window_shape(l, s, e, f);
        }
        let (d0, d1) = self.array.as_slices_mut(self.tail..self.head);
        proof {
            assert(d0@.len() + d1@.len() == f);
        }
        let pushed = copy_to_seq(src, d0, d1);
        self.tail = self.tail.wrapping_add(pushed);
        proof {
            let t2 = self.tail;
            let arr2 = self.array@;
            let m0 = crate::arrays::min_len(src@.len() as int, d0@.len() as int);
            assert(cursor_distance(h, t2) == d + pushed);
            assert(arr2.len() == l);
            // Untouched slots keep their element: every live slot lies
            // outside the span the two destination slices covered.
            assert forall|i: int| 0 <= i < d implies arr2[#[trigger] ((h + i) % l)] == arr0[(h + i)
                % l] by {
                lemma_index_offset(h, i, l);
            }
            // Each newly pushed element landed at the slot just past the
            // old back cursor.
            assert forall|j: int| 0 <= j < pushed implies arr2[#[trigger] ((h + (d + j)) % l)]
                == src@[j] by {
                if h > t {
                    lemma_word_wrap_mod(h + d + j, l);
                }
                assert((t + j) % l == (h + (d + j)) % l);
                lemma_index_offset(t, j, l);
                if s + j < l {
                    assert(arr2[s + j] == src@[j]);
                } else {
                    assert(arr2[s + j - l] == src@[j]);
                }
            }
            assert forall|i: int| 0 <= i < d implies old(self)@[i] == final(self)@[i] by {
                assert(final(self)@[i] == arr2[(h + i) % l]);
            }
            assert forall|i: int| d <= i < d + pushed implies final(self)@[i] == src@[i - d] by {
                assert(arr2[(h + (d + (i - d))) % l] == src@[i - d]);
                assert(final(self)@[i] == arr2[(h + i) % l]);
            }
            assert(final(self)@ =~= old(self)@ + src@.take(pushed as int));
        }
        pushed
    }
}

/// The live window of a non-empty well-formed ring, as the slice pair that
/// `as_slices(head..tail)` hands out, concatenates to the ring's contents.
proof fn lemma_live_window_view<T>(arr: Seq<T>, h: usize, t: usize)
    requires
        arr.len() > 0,
        word_size() % (arr.len() as int) == 0,
        0 < cursor_distance(h, t) <= arr.len(),
    ensures
        ({
            let l = arr.len() as int;
            let s = h as int % l;
            let e = t as int % l;
            if s < e {
                ring_view(arr, h, t) == arr.subrange(s, e)
            } else {
                ring_view(arr, h, t) == arr.subrange(s, l) + arr.subrange(0, e)
            }
        }),
{
    let l = arr.len() as int;
    let s = h as int % l;
    let e = t as int % l;
    let d = cursor_distance(h, t);
    lemma_cursor_offsets(h, t, l);
    vstd::arithmetic::div_mod::lemma_mod_division_less_than_divisor(h as int, l);
    vstd::arithmetic::div_mod::lemma_mod_division_less_than_divisor(t as int, l);
    assert(e == (s + d) % l);
    lemma_window_shape(l, s, e, d);
    assert forall|i: int| 0 <= i < d implies ring_view(arr, h, t)[i] == (if s + i < l {
        arr[s + i]
    } else {
        arr[s + i - l]
    }) by {
        lemma_index_offset(h, i, l);
    }
    if s < e {
        assert(ring_view(arr, h, t) =~= arr.subrange(s, e));
    } else {
        assert(ring_view(arr, h, t) =~= arr.subrange(s, l) + arr.subrange(0, e));
    }
}

/// The slot of the element `i` places past a cursor, written without the
/// inner reduction of the cursor itself.
proof fn lemma_index_offset(h: usize, i: int, l: int)
    requires
        l > 0,
        0 <= i < l,
    ensures
        (h + i) % l == if (h as int % l) + i < l {
            (h as int % l) + i
        } else {
            (h as int % l) + i - l
        },
{
    let s = h as int % l;
    broadcast use vstd::arithmetic::div_mod::lemma_add_mod_noop;
    broadcast use vstd::arithmetic::div_mod::lemma_mod_twice;

    vstd::arithmetic::div_mod::lemma_mod_division_less_than_divisor(h as int, l);
    vstd::arithmetic::div_mod::lemma_small_mod(i as nat, l as nat);
    assert((h + i) % l == (s + i) % l);
    if s + i < l {
        vstd::arithmetic::div_mod::lemma_small_mod((s + i) as nat, l as nat);
    } else {
        vstd::arithmetic::div_mod::lemma_fundamental_div_mod_converse_mod(s + i, l, 1, s + i - l);
    }
}

} // verus!
